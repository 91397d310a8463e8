//! Unsigned 256-bit integers, held as their 32 big-endian bytes.
//!
//! Balances, nonces and transferred values are 256-bit unsigned integers on
//! the wire.  The type keeps the exact byte layout the wire format needs and
//! is specified through `be_value`, the number its bytes spell.

use vstd::prelude::*;
use vstd::arithmetic::div_mod::lemma_fundamental_div_mod;
use vstd::arithmetic::mul::lemma_mul_inequality;
use crate::codec::DIGIT_ZERO;
use crate::codec::LETTER_X;
use crate::codec::decode_quantity_bytes;
use crate::codec::encode_quantity_bytes;
use crate::codec::quantity_bytes_of;
use crate::codec::quantity_text_of;
use crate::codec::quantity_text_valid;

verus! {

/// The number a big-endian byte string spells.
pub open spec fn be_value(s: Seq<u8>) -> nat
    decreases s.len(),
{
    if s.len() == 0 {
        0
    } else {
        be_value(s.drop_last()) * 256 + s.last() as nat
    }
}

/// 256 to the power `n`: the count of `n`-byte values.
pub open spec fn pow256(n: nat) -> nat
    decreases n,
{
    if n == 0 {
        1
    } else {
        256 * pow256((n - 1) as nat)
    }
}

/// Powers of 256 are positive.
pub proof fn lemma_pow256_pos(n: nat)
    ensures
        pow256(n) >= 1,
    decreases n,
{
    if n > 0 {
        lemma_pow256_pos((n - 1) as nat);
    }
}

/// Powers of 256 do not decrease.
pub proof fn lemma_pow256_increases(m: nat, n: nat)
    requires
        m <= n,
    ensures
        pow256(m) <= pow256(n),
    decreases n,
{
    if m < n {
        lemma_pow256_increases(m, (n - 1) as nat);
        lemma_pow256_pos((n - 1) as nat);
    }
}

/// A byte string's value is below 256 to its length.
pub proof fn lemma_be_value_bound(s: Seq<u8>)
    ensures
        be_value(s) < pow256(s.len()),
    decreases s.len(),
{
    if s.len() > 0 {
        lemma_be_value_bound(s.drop_last());
        lemma_mul_inequality(
            be_value(s.drop_last()) as int,
            pow256((s.len() - 1) as nat) as int - 1,
            256,
        );
    }
}

/// An all-zero byte string spells zero.
pub proof fn lemma_be_value_zeros(s: Seq<u8>)
    requires
        forall|j: int| 0 <= j < s.len() ==> s[j] == 0,
    ensures
        be_value(s) == 0,
    decreases s.len(),
{
    if s.len() > 0 {
        lemma_be_value_zeros(s.drop_last());
    }
}

/// Leading zero bytes do not change the value.
pub proof fn lemma_be_value_leading_zeros(s: Seq<u8>, k: int)
    requires
        0 <= k <= s.len(),
        forall|j: int| 0 <= j < k ==> s[j] == 0,
    ensures
        be_value(s) == be_value(s.skip(k)),
    decreases s.len(),
{
    if k == s.len() {
        lemma_be_value_zeros(s);
        assert(s.skip(k) =~= Seq::<u8>::empty());
    } else {
        assert forall|j: int| 0 <= j < k implies s.drop_last()[j] == 0 by {
            assert(s.drop_last()[j] == s[j]);
        }
        lemma_be_value_leading_zeros(s.drop_last(), k);
        assert(s.skip(k).drop_last() =~= s.drop_last().skip(k));
        assert(s.skip(k).last() == s.last());
    }
}

/// The first byte alone already accounts for its place value.
pub proof fn lemma_be_value_first(t: Seq<u8>)
    requires
        t.len() > 0,
    ensures
        be_value(t) >= t.first() * pow256((t.len() - 1) as nat),
    decreases t.len(),
{
    if t.len() > 1 {
        lemma_be_value_first(t.drop_last());
        let f = t.first() as int;
        let p = pow256((t.len() - 2) as nat) as int;
        let bvd = be_value(t.drop_last()) as int;
        assert(t.drop_last().first() == t.first());
        assert(bvd * 256 + t.last() >= f * (256 * p)) by (nonlinear_arith)
            requires
                bvd >= f * p,
                t.last() >= 0,
                p >= 0,
                f >= 0,
        ;
        assert(pow256((t.len() - 1) as nat) == 256 * p);
        assert(be_value(t) as int == bvd * 256 + t.last());
        assert(t.first() * pow256((t.len() - 1) as nat) == f * (256 * p)) by (nonlinear_arith)
            requires
                f == t.first() as int,
                pow256((t.len() - 1) as nat) == 256 * p,
        ;
    } else {
        assert(pow256((t.len() - 1) as nat) == 1);
        assert(be_value(t.drop_last()) == 0);
        assert(t.last() == t.first());
        assert(t.first() * 1 == t.first()) by (nonlinear_arith);
    }
}

/// An unsigned 256-bit integer: 32 bytes, most significant first.
#[derive(Clone, Debug, PartialEq, Eq)]
pub struct U256 {
    bytes: Vec<u8>,
}

impl View for U256 {
    type V = Seq<u8>;

    closed spec fn view(&self) -> Seq<u8> {
        self.bytes@
    }
}

impl U256 {
    /// Exactly 32 bytes.
    pub open spec fn wf(&self) -> bool {
        self@.len() == 32
    }

    /// The number the bytes spell.
    pub open spec fn value(&self) -> nat {
        be_value(self@)
    }

    /// The zero value.
    pub fn zero() -> (r: U256)
        ensures
            r.wf(),
            r.value() == 0,
            forall|i: int| 0 <= i < 32 ==> r@[i] == 0,
    {
        let mut bytes: Vec<u8> = Vec::new();
        let mut i: usize = 0;
        while i < 32
            invariant
                i <= 32,
                bytes@.len() == i,
                forall|j: int| 0 <= j < i ==> bytes@[j] == 0,
            decreases 32 - i,
        {
            bytes.push(0);
            i = i + 1;
        }
        proof {
            lemma_be_value_zeros(bytes@);
        }
        U256 { bytes }
    }

    /// The largest representable value: every byte `0xff`.
    pub fn max_value() -> (r: U256)
        ensures
            r.wf(),
            forall|i: int| 0 <= i < 32 ==> r@[i] == 0xff,
    {
        let mut bytes: Vec<u8> = Vec::new();
        let mut i: usize = 0;
        while i < 32
            invariant
                i <= 32,
                bytes@.len() == i,
                forall|j: int| 0 <= j < i ==> bytes@[j] == 0xff,
            decreases 32 - i,
        {
            bytes.push(0xff);
            i = i + 1;
        }
        U256 { bytes }
    }

    /// Adopt 32 big-endian bytes as they are.
    pub fn from_be_bytes(bytes: Vec<u8>) -> (r: U256)
        requires
            bytes@.len() == 32,
        ensures
            r.wf(),
            r@ == bytes@,
    {
        U256 { bytes }
    }

    /// A copy of the bytes, most significant first.
    pub fn to_be_bytes(&self) -> (r: Vec<u8>)
        ensures
            r@ == self@,
    {
        let mut r: Vec<u8> = Vec::new();
        let mut i: usize = 0;
        while i < self.bytes.len()
            invariant
                i <= self.bytes@.len(),
                r@ == self.bytes@.take(i as int),
            decreases self.bytes@.len() - i,
        {
            r.push(self.bytes[i]);
            proof {
                assert(r@ =~= self.bytes@.take(i + 1 as int));
            }
            i = i + 1;
        }
        proof {
            assert(self.bytes@.take(self.bytes@.len() as int) =~= self.bytes@);
        }
        r
    }

    /// Embed a 128-bit machine integer.
    pub fn from_u128(v: u128) -> (r: U256)
        ensures
            r.wf(),
            r.value() == v,
    {
        proof {
            assert(pow256(32) ==
                0x10000000000000000000000000000000000000000000000000000000000000000) by {
                reveal_with_fuel(pow256, 33);
            }
        }
        U256 { bytes: be_bytes_of_u128(v, 32) }
    }

    /// Embed a 64-bit machine integer.
    pub fn from_u64(v: u64) -> (r: U256)
        ensures
            r.wf(),
            r.value() == v,
    {
        U256::from_u128(v as u128)
    }

    /// The value as a `u64`, for values that fit.
    pub fn try_to_u64(&self) -> (r: Option<u64>)
        requires
            self.wf(),
        ensures
            r is Some <==> self.value() < 0x1_0000_0000_0000_0000,
            r matches Some(n) ==> n as nat == self.value(),
    {
        let mut i: usize = 0;
        while i < 24
            invariant
                i <= 24,
                self.wf(),
                forall|j: int| 0 <= j < i ==> self@[j] == 0,
            decreases 24 - i,
        {
            if self.bytes[i] != 0 {
                proof {
                    lemma_be_value_leading_zeros(self@, i as int);
                    let t = self@.skip(i as int);
                    lemma_be_value_first(t);
                    lemma_mul_inequality(1, t.first() as int, pow256((t.len() - 1) as nat) as int);
                    lemma_pow256_pos((t.len() - 1) as nat);
                    lemma_pow256_increases(8, (t.len() - 1) as nat);
                    assert(pow256(8) == 0x1_0000_0000_0000_0000) by {
                        reveal_with_fuel(pow256, 9);
                    }
                }
                return None;
            }
            i = i + 1;
        }
        proof {
            lemma_be_value_leading_zeros(self@, 24);
            lemma_be_value_bound(self@.skip(24));
            assert(pow256(8) == 0x1_0000_0000_0000_0000) by {
                reveal_with_fuel(pow256, 9);
            }
        }
        let mut n: u64 = 0;
        let mut i: usize = 24;
        proof {
            assert(self@.subrange(24, 24) =~= Seq::<u8>::empty());
        }
        while i < 32
            invariant
                24 <= i <= 32,
                self.wf(),
                n as nat == be_value(self@.subrange(24, i as int)),
            decreases 32 - i,
        {
            proof {
                lemma_be_value_bound(self@.subrange(24, i as int));
                lemma_pow256_increases((i - 24) as nat, 7);
                assert(pow256(7) == 0x100_0000_0000_0000) by {
                    reveal_with_fuel(pow256, 8);
                }
            }
            n = n * 256 + self.bytes[i] as u64;
            proof {
                let t = self@.subrange(24, i + 1 as int);
                assert(t.drop_last() =~= self@.subrange(24, i as int));
                assert(t.last() == self@[i as int]);
            }
            i = i + 1;
        }
        proof {
            assert(self@.subrange(24, 32) =~= self@.skip(24));
        }
        Some(n)
    }

    /// Whether two values hold the same bytes, i.e. the same number.
    pub fn equals(&self, other: &U256) -> (r: bool)
        requires
            self.wf(),
            other.wf(),
        ensures
            r <==> self@ == other@,
    {
        let mut i: usize = 0;
        while i < 32
            invariant
                i <= 32,
                self.wf(),
                other.wf(),
                forall|j: int| 0 <= j < i ==> self@[j] == other@[j],
            decreases 32 - i,
        {
            if self.bytes[i] != other.bytes[i] {
                proof {
                    assert(self@[i as int] != other@[i as int]);
                }
                return false;
            }
            i = i + 1;
        }
        proof {
            assert(self@ =~= other@);
        }
        true
    }

    /// The value as `0x` quantity text: minimal digits, `0x0` for zero.
    pub fn encode_quantity(&self) -> (r: Vec<u8>)
        requires
            self.wf(),
        ensures
            r@ == seq![DIGIT_ZERO, LETTER_X] + quantity_text_of(self@),
            quantity_text_valid(r@),
    {
        encode_quantity_bytes(&self.bytes)
    }

    /// The value a `0x` quantity text denotes.  `None` exactly when the text
    /// is not a `0x` prefix followed by one to 64 hex digits.
    pub fn decode_quantity(text: &Vec<u8>) -> (r: Option<U256>)
        ensures
            r is Some <==> quantity_text_valid(text@),
            r matches Some(u) ==> u.wf() && u@ == quantity_bytes_of(text@),
    {
        match decode_quantity_bytes(text) {
            Some(b) => Some(U256 { bytes: b }),
            None => None,
        }
    }
}

/// The `n`-byte big-endian spelling of a machine integer below `pow256(n)`.
fn be_bytes_of_u128(v: u128, n: usize) -> (r: Vec<u8>)
    requires
        (v as nat) < pow256(n as nat),
    ensures
        r@.len() == n,
        be_value(r@) == v,
    decreases n,
{
    if n == 0 {
        Vec::new()
    } else {
        proof {
            lemma_fundamental_div_mod(v as int, 256);
            if (v as int) / 256 >= pow256((n - 1) as nat) {
                lemma_mul_inequality(pow256((n - 1) as nat) as int, (v as int) / 256, 256);
                assert(false);
            }
        }
        let mut r = be_bytes_of_u128(v / 256, n - 1);
        let ghost prefix = r@;
        r.push((v % 256) as u8);
        proof {
            assert(r@.drop_last() =~= prefix);
            assert(r@.last() == (v % 256) as u8);
            lemma_fundamental_div_mod(v as int, 256);
        }
        r
    }
}

} // verus!
