//! The hex wire format.
//!
//! Addresses, hashes and byte payloads travel as `0x`-prefixed lower-case hex
//! with two digits per byte; unsigned 256-bit quantities travel as
//! `0x`-prefixed big-endian hex with no leading zero digits and a lone `0`
//! for zero.  Texts are handled as ASCII byte strings.

use vstd::prelude::*;
use vstd::arithmetic::div_mod::lemma_fundamental_div_mod;

verus! {

/// ASCII code of the digit `0`.
pub const DIGIT_ZERO: u8 = 0x30;

/// ASCII code of `x`.
pub const LETTER_X: u8 = 0x78;

/// A hex digit: `0-9`, `a-f` or `A-F`.
pub open spec fn is_hex_digit(b: u8) -> bool {
    (0x30 <= b && b <= 0x39) || (0x61 <= b && b <= 0x66) || (0x41 <= b && b <= 0x46)
}

/// The value a hex digit spells.
pub open spec fn hex_digit_value(b: u8) -> u8
    recommends
        is_hex_digit(b),
{
    if 0x30 <= b && b <= 0x39 {
        (b - 0x30) as u8
    } else if 0x61 <= b && b <= 0x66 {
        (b - 0x61 + 10) as u8
    } else {
        (b - 0x41 + 10) as u8
    }
}

/// The lower-case digit that spells a value below 16.
pub open spec fn hex_digit_of(n: u8) -> u8
    recommends
        n < 16,
{
    if n < 10 {
        (0x30 + n) as u8
    } else {
        (0x57 + n) as u8
    }
}

/// The digits of a byte string: two lower-case digits per byte, most
/// significant half first.
pub open spec fn hex_of_bytes(s: Seq<u8>) -> Seq<u8>
    decreases s.len(),
{
    if s.len() == 0 {
        Seq::empty()
    } else {
        hex_of_bytes(s.drop_last()) + seq![
            hex_digit_of(s.last() / 16),
            hex_digit_of(s.last() % 16),
        ]
    }
}

/// The bytes an even-length run of hex digits spells.
pub open spec fn bytes_of_hex(d: Seq<u8>) -> Seq<u8>
    recommends
        d.len() % 2 == 0,
    decreases d.len(),
{
    if d.len() < 2 {
        Seq::empty()
    } else {
        bytes_of_hex(d.drop_last().drop_last()).push(
            (hex_digit_value(d[d.len() - 2]) * 16 + hex_digit_value(d.last())) as u8,
        )
    }
}

/// A byte string's digits are twice as many as its bytes.
pub proof fn lemma_hex_of_bytes_len(s: Seq<u8>)
    ensures
        hex_of_bytes(s).len() == 2 * s.len(),
    decreases s.len(),
{
    if s.len() > 0 {
        lemma_hex_of_bytes_len(s.drop_last());
    }
}

/// Every digit `hex_of_bytes` emits is a hex digit.
pub proof fn lemma_hex_of_bytes_digits(s: Seq<u8>)
    ensures
        forall|i: int|
            0 <= i < hex_of_bytes(s).len() ==> is_hex_digit(#[trigger] hex_of_bytes(s)[i]),
    decreases s.len(),
{
    if s.len() > 0 {
        lemma_hex_of_bytes_digits(s.drop_last());
        lemma_hex_of_bytes_len(s.drop_last());
        let h = hex_of_bytes(s);
        let hp = hex_of_bytes(s.drop_last());
        assert forall|i: int| 0 <= i < h.len() implies is_hex_digit(h[i]) by {
            if i < hp.len() {
                assert(h[i] == hp[i]);
            } else {
                assert(is_hex_digit(hex_digit_of(s.last() / 16)));
                assert(is_hex_digit(hex_digit_of(s.last() % 16)));
            }
        }
    }
}

/// Reading back the digits of a byte string gives the bytes: the fixed-width
/// hex format is lossless.
pub proof fn lemma_bytes_of_hex_of_bytes(s: Seq<u8>)
    ensures
        bytes_of_hex(hex_of_bytes(s)) == s,
    decreases s.len(),
{
    if s.len() == 0 {
        assert(bytes_of_hex(hex_of_bytes(s)) =~= s);
    } else {
        lemma_bytes_of_hex_of_bytes(s.drop_last());
        lemma_hex_of_bytes_len(s.drop_last());
        let h = hex_of_bytes(s);
        let b = s.last();
        assert(h.drop_last().drop_last() =~= hex_of_bytes(s.drop_last()));
        assert(h[h.len() - 2] == hex_digit_of(b / 16));
        assert(h.last() == hex_digit_of(b % 16));
        lemma_fundamental_div_mod(b as int, 16);
        assert(bytes_of_hex(h) =~= s);
    }
}

/// Leading zero digits dropped.
pub open spec fn strip_zero_digits(s: Seq<u8>) -> Seq<u8>
    decreases s.len(),
{
    if s.len() == 0 {
        s
    } else if s.first() == DIGIT_ZERO {
        strip_zero_digits(s.skip(1))
    } else {
        s
    }
}

/// What `strip_zero_digits` keeps: the suffix after the leading zero digits.
pub proof fn lemma_strip_zero_digits_props(s: Seq<u8>)
    ensures
        ({
            let k = s.len() - strip_zero_digits(s).len();
            0 <= k <= s.len() && strip_zero_digits(s) == s.skip(k) && (forall|j: int|
                0 <= j < k ==> s[j] == DIGIT_ZERO)
        }),
    decreases s.len(),
{
    if s.len() == 0 {
        assert(s.skip(0) =~= s);
    } else if s.first() == DIGIT_ZERO {
        lemma_strip_zero_digits_props(s.skip(1));
        let k1 = s.skip(1).len() - strip_zero_digits(s.skip(1)).len();
        assert(s.skip(1).skip(k1) =~= s.skip(k1 + 1));
        assert forall|j: int| 0 <= j < k1 + 1 implies s[j] == DIGIT_ZERO by {
            if j > 0 {
                assert(s.skip(1)[j - 1] == DIGIT_ZERO);
            }
        }
    } else {
        assert(s.skip(0) =~= s);
    }
}

/// The suffix after a known run of zero digits, named by its start.
pub proof fn lemma_strip_zero_digits_at(s: Seq<u8>, k: int)
    requires
        0 <= k <= s.len(),
        forall|j: int| 0 <= j < k ==> s[j] == DIGIT_ZERO,
        k == s.len() || s[k] != DIGIT_ZERO,
    ensures
        strip_zero_digits(s) == s.skip(k),
    decreases k,
{
    if k == 0 {
        assert(s.skip(0) =~= s);
    } else {
        assert(s.first() == DIGIT_ZERO);
        lemma_strip_zero_digits_at(s.skip(1), k - 1);
        assert(s.skip(1).skip(k - 1) =~= s.skip(k));
    }
}

/// Valid fixed-width hex text: `0x`, then an even number of hex digits.
pub open spec fn bytes_text_valid(t: Seq<u8>) -> bool {
    t.len() >= 2 && t[0] == DIGIT_ZERO && t[1] == LETTER_X && (t.len() - 2) % 2 == 0
        && (forall|i: int| 2 <= i < t.len() ==> is_hex_digit(#[trigger] t[i]))
}

/// Valid quantity text: `0x`, then one to 64 hex digits.
pub open spec fn quantity_text_valid(t: Seq<u8>) -> bool {
    3 <= t.len() <= 66 && t[0] == DIGIT_ZERO && t[1] == LETTER_X && (forall|i: int|
        2 <= i < t.len() ==> is_hex_digit(#[trigger] t[i]))
}

/// The quantity text of a 32-byte big-endian value, without the prefix:
/// leading zero digits dropped, a lone `0` for zero.
pub open spec fn quantity_text_of(bytes: Seq<u8>) -> Seq<u8> {
    let stripped = strip_zero_digits(hex_of_bytes(bytes));
    if stripped.len() == 0 {
        seq![DIGIT_ZERO]
    } else {
        stripped
    }
}

/// Quantity digits left-padded with zero digits to the full 64.
pub open spec fn pad_digits64(d: Seq<u8>) -> Seq<u8>
    recommends
        d.len() <= 64,
{
    Seq::new((64 - d.len()) as nat, |i: int| DIGIT_ZERO) + d
}

/// The 32 bytes a valid quantity text denotes.
pub open spec fn quantity_bytes_of(t: Seq<u8>) -> Seq<u8>
    recommends
        quantity_text_valid(t),
{
    bytes_of_hex(pad_digits64(t.skip(2)))
}

/// The full `0x` hex text of a byte string.
pub open spec fn hex_text_of(s: Seq<u8>) -> Seq<u8> {
    seq![DIGIT_ZERO, LETTER_X] + hex_of_bytes(s)
}

/// The lower-case digit for a value below 16.
fn hex_digit_exec(n: u8) -> (r: u8)
    requires
        n < 16,
    ensures
        r == hex_digit_of(n),
{
    if n < 10 {
        0x30 + n
    } else {
        0x57 + n
    }
}

/// The value of a digit, or `None` for a byte that is no hex digit.
fn hex_value_exec(b: u8) -> (r: Option<u8>)
    ensures
        r is Some <==> is_hex_digit(b),
        r matches Some(v) ==> v == hex_digit_value(b) && v < 16,
{
    if 0x30 <= b && b <= 0x39 {
        Some(b - 0x30)
    } else if 0x61 <= b && b <= 0x66 {
        Some(b - 0x61 + 10)
    } else if 0x41 <= b && b <= 0x46 {
        Some(b - 0x41 + 10)
    } else {
        None
    }
}

/// Append the digits of `data` to `out`.
fn push_hex_digits(out: &mut Vec<u8>, data: &Vec<u8>)
    ensures
        final(out)@ == old(out)@ + hex_of_bytes(data@),
{
    let mut i: usize = 0;
    proof {
        assert(out@ =~= out@ + hex_of_bytes(data@.take(0)));
    }
    while i < data.len()
        invariant
            i <= data.len(),
            out@ == old(out)@ + hex_of_bytes(data@.take(i as int)),
        decreases data.len() - i,
    {
        let b = data[i];
        out.push(hex_digit_exec(b / 16));
        out.push(hex_digit_exec(b % 16));
        proof {
            let t = data@.take(i + 1 as int);
            assert(t.drop_last() =~= data@.take(i as int));
            assert(t.last() == data@[i as int]);
            assert(out@ =~= old(out)@ + hex_of_bytes(t));
        }
        i = i + 1;
    }
    proof {
        assert(data@.take(data@.len() as int) =~= data@);
    }
}

/// Encode a byte string as `0x`-prefixed fixed-width hex.
pub fn encode_bytes(data: &Vec<u8>) -> (r: Vec<u8>)
    ensures
        r@ == seq![DIGIT_ZERO, LETTER_X] + hex_of_bytes(data@),
        bytes_text_valid(r@),
{
    let mut r: Vec<u8> = Vec::new();
    r.push(DIGIT_ZERO);
    r.push(LETTER_X);
    proof {
        assert(r@ =~= seq![DIGIT_ZERO, LETTER_X]);
    }
    push_hex_digits(&mut r, data);
    proof {
        lemma_hex_of_bytes_len(data@);
        lemma_hex_of_bytes_digits(data@);
    }
    r
}

/// Read the bytes spelled by `digits[from..]`, already known to be an even
/// number of hex digits.
fn hex_pairs_to_bytes(digits: &Vec<u8>, from: usize) -> (r: Vec<u8>)
    requires
        from <= digits@.len(),
        (digits@.len() - from) % 2 == 0,
        forall|i: int| from <= i < digits@.len() ==> is_hex_digit(#[trigger] digits@[i]),
    ensures
        r@ == bytes_of_hex(digits@.skip(from as int)),
{
    let mut out: Vec<u8> = Vec::new();
    let mut i: usize = from;
    proof {
        assert(out@ =~= bytes_of_hex(digits@.subrange(from as int, from as int)));
    }
    while i < digits.len()
        invariant
            from <= i <= digits@.len(),
            (i - from) % 2 == 0,
            (digits@.len() - from) % 2 == 0,
            forall|j: int| from <= j < digits@.len() ==> is_hex_digit(#[trigger] digits@[j]),
            out@ == bytes_of_hex(digits@.subrange(from as int, i as int)),
        decreases digits@.len() - i,
    {
        let hi = match hex_value_exec(digits[i]) {
            Some(v) => v,
            None => {
                proof {
                    assert(is_hex_digit(digits@[i as int]));
                }
                0
            },
        };
        let lo = match hex_value_exec(digits[i + 1]) {
            Some(v) => v,
            None => {
                proof {
                    assert(is_hex_digit(digits@[i + 1 as int]));
                }
                0
            },
        };
        out.push(hi * 16 + lo);
        proof {
            let t = digits@.subrange(from as int, i + 2 as int);
            assert(t.drop_last().drop_last() =~= digits@.subrange(from as int, i as int));
            assert(t[t.len() - 2] == digits@[i as int]);
            assert(t.last() == digits@[i + 1 as int]);
            assert(out@ =~= bytes_of_hex(t));
        }
        i = i + 2;
    }
    proof {
        assert(digits@.subrange(from as int, digits@.len() as int) =~= digits@.skip(from as int));
    }
    out
}

/// Whether every byte of `text` from position `from` on is a hex digit.
fn all_hex_digits(text: &Vec<u8>, from: usize) -> (r: bool)
    requires
        from <= text@.len(),
    ensures
        r <==> (forall|i: int| from <= i < text@.len() ==> is_hex_digit(#[trigger] text@[i])),
{
    let mut i: usize = from;
    while i < text.len()
        invariant
            from <= i <= text@.len(),
            forall|j: int| from <= j < i ==> is_hex_digit(#[trigger] text@[j]),
        decreases text@.len() - i,
    {
        if hex_value_exec(text[i]).is_none() {
            return false;
        }
        i = i + 1;
    }
    true
}

/// Decode `0x`-prefixed fixed-width hex text into its bytes.  `None` exactly
/// when the text is not a `0x` prefix followed by an even number of hex
/// digits.
pub fn decode_bytes(text: &Vec<u8>) -> (r: Option<Vec<u8>>)
    ensures
        r is Some <==> bytes_text_valid(text@),
        r matches Some(b) ==> b@ == bytes_of_hex(text@.skip(2)),
{
    if text.len() < 2 || text[0] != DIGIT_ZERO || text[1] != LETTER_X
        || (text.len() - 2) % 2 != 0 {
        return None;
    }
    if !all_hex_digits(text, 2) {
        return None;
    }
    Some(hex_pairs_to_bytes(text, 2))
}

/// Encode a 32-byte big-endian value as a `0x` quantity: minimal digits,
/// `0x0` for zero.
pub fn encode_quantity_bytes(bytes: &Vec<u8>) -> (r: Vec<u8>)
    requires
        bytes@.len() == 32,
    ensures
        r@ == seq![DIGIT_ZERO, LETTER_X] + quantity_text_of(bytes@),
        quantity_text_valid(r@),
{
    let mut digits: Vec<u8> = Vec::new();
    push_hex_digits(&mut digits, bytes);
    proof {
        lemma_hex_of_bytes_len(bytes@);
        lemma_hex_of_bytes_digits(bytes@);
    }
    let mut k: usize = 0;
    while k < digits.len() && digits[k] == DIGIT_ZERO
        invariant
            k <= digits@.len(),
            digits@ == hex_of_bytes(bytes@),
            forall|j: int| 0 <= j < k ==> digits@[j] == DIGIT_ZERO,
        decreases digits@.len() - k,
    {
        k = k + 1;
    }
    proof {
        lemma_strip_zero_digits_at(digits@, k as int);
    }
    let mut r: Vec<u8> = Vec::new();
    r.push(DIGIT_ZERO);
    r.push(LETTER_X);
    if k == digits.len() {
        r.push(DIGIT_ZERO);
        proof {
            assert(digits@.skip(k as int) =~= Seq::<u8>::empty());
            assert(r@ =~= seq![DIGIT_ZERO, LETTER_X] + quantity_text_of(bytes@));
        }
        return r;
    }
    let mut i: usize = k;
    proof {
        assert(r@ =~= seq![DIGIT_ZERO, LETTER_X] + digits@.subrange(k as int, k as int));
    }
    while i < digits.len()
        invariant
            k <= i <= digits@.len(),
            digits@ == hex_of_bytes(bytes@),
            r@ == seq![DIGIT_ZERO, LETTER_X] + digits@.subrange(k as int, i as int),
        decreases digits@.len() - i,
    {
        r.push(digits[i]);
        proof {
            assert(r@ =~= seq![DIGIT_ZERO, LETTER_X] + digits@.subrange(k as int, i + 1 as int));
        }
        i = i + 1;
    }
    proof {
        assert(digits@.subrange(k as int, digits@.len() as int) =~= digits@.skip(k as int));
        assert(strip_zero_digits(digits@).len() > 0);
    }
    r
}

/// Decode a `0x` quantity text into its 32-byte big-endian value.  `None`
/// exactly when the text is not a `0x` prefix followed by one to 64 hex
/// digits.
pub fn decode_quantity_bytes(text: &Vec<u8>) -> (r: Option<Vec<u8>>)
    ensures
        r is Some <==> quantity_text_valid(text@),
        r matches Some(b) ==> b@ == quantity_bytes_of(text@) && b@.len() == 32,
{
    if text.len() < 3 || text.len() > 66 || text[0] != DIGIT_ZERO || text[1] != LETTER_X {
        return None;
    }
    if !all_hex_digits(text, 2) {
        return None;
    }
    let ndigits = text.len() - 2;
    let mut padded: Vec<u8> = Vec::new();
    let mut z: usize = 0;
    while z < 64 - ndigits
        invariant
            ndigits <= 64,
            z <= 64 - ndigits,
            padded@ =~= Seq::new(z as nat, |i: int| DIGIT_ZERO),
        decreases 64 - ndigits - z,
    {
        padded.push(DIGIT_ZERO);
        proof {
            assert(padded@ =~= Seq::new((z + 1) as nat, |i: int| DIGIT_ZERO));
        }
        z = z + 1;
    }
    let mut i: usize = 2;
    while i < text.len()
        invariant
            2 <= i <= text@.len(),
            text@.len() == ndigits + 2,
            ndigits <= 64,
            padded@ == Seq::new((64 - ndigits) as nat, |j: int| DIGIT_ZERO) + text@.subrange(
                2,
                i as int,
            ),
        decreases text@.len() - i,
    {
        padded.push(text[i]);
        proof {
            assert(padded@ =~= Seq::new((64 - ndigits) as nat, |j: int| DIGIT_ZERO)
                + text@.subrange(2, i + 1 as int));
        }
        i = i + 1;
    }
    proof {
        assert(text@.subrange(2, text@.len() as int) =~= text@.skip(2));
        assert(padded@ =~= pad_digits64(text@.skip(2)));
        lemma_bytes_of_hex_len(padded@);
    }
    let out = hex_pairs_to_bytes(&padded, 0);
    proof {
        assert(padded@.skip(0) =~= padded@);
    }
    Some(out)
}

/// Read bytes are half as many as the digits.
pub proof fn lemma_bytes_of_hex_len(d: Seq<u8>)
    ensures
        bytes_of_hex(d).len() == d.len() / 2,
    decreases d.len(),
{
    if d.len() >= 2 {
        lemma_bytes_of_hex_len(d.drop_last().drop_last());
    }
}

/// Law: every byte string survives the fixed-width hex round trip — its
/// encoding is valid text, and decoding that text gives the bytes back.
pub proof fn lemma_bytes_round_trip(s: Seq<u8>)
    ensures
        bytes_text_valid(seq![DIGIT_ZERO, LETTER_X] + hex_of_bytes(s)),
        bytes_of_hex((seq![DIGIT_ZERO, LETTER_X] + hex_of_bytes(s)).skip(2)) == s,
{
    lemma_hex_of_bytes_len(s);
    lemma_hex_of_bytes_digits(s);
    lemma_bytes_of_hex_of_bytes(s);
    assert((seq![DIGIT_ZERO, LETTER_X] + hex_of_bytes(s)).skip(2) =~= hex_of_bytes(s));
}

/// Law: every 256-bit value — zero and the maximum included — survives the
/// quantity round trip: its encoding is valid quantity text, and decoding
/// that text gives the same 32 bytes back.
pub proof fn lemma_quantity_round_trip(bytes: Seq<u8>)
    requires
        bytes.len() == 32,
    ensures
        quantity_text_valid(seq![DIGIT_ZERO, LETTER_X] + quantity_text_of(bytes)),
        quantity_bytes_of(seq![DIGIT_ZERO, LETTER_X] + quantity_text_of(bytes)) == bytes,
{
    let h = hex_of_bytes(bytes);
    lemma_hex_of_bytes_len(bytes);
    lemma_hex_of_bytes_digits(bytes);
    lemma_bytes_of_hex_of_bytes(bytes);
    lemma_strip_zero_digits_props(h);
    let stripped = strip_zero_digits(h);
    let k = h.len() - stripped.len();
    let t = seq![DIGIT_ZERO, LETTER_X] + quantity_text_of(bytes);
    if stripped.len() == 0 {
        assert(t.skip(2) =~= seq![DIGIT_ZERO]);
        assert(pad_digits64(t.skip(2)) =~= h);
    } else {
        assert(t.skip(2) =~= stripped);
        assert(pad_digits64(stripped) =~= h);
    }
}

} // verus!
