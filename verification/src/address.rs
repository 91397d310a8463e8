//! Deterministic address derivation.
//!
//! An account address is the last 20 bytes of the Keccak-256 digest of the
//! account's public key.  A deployed contract's address follows the
//! ecosystem's standard creation rule: the last 20 bytes of the Keccak-256
//! digest of the RLP list holding the sender address and the nonce — a pure
//! function of those two inputs, never of block contents.  The RLP layout is
//! spelled out and verified here; the digest comes from an outside
//! implementation under a named, trusted contract.

use vstd::prelude::*;
use vstd::arithmetic::div_mod::lemma_fundamental_div_mod;
use vstd::arithmetic::mul::lemma_mul_inequality;
use crate::u256::pow256;

verus! {

/// What Keccak-256 returns on given bytes: fixed by the input alone, not
/// otherwise specified.
pub uninterp spec fn keccak_of(data: Seq<u8>) -> Seq<u8>;

/// Relies on `sha3::Keccak256` (the pre-standard `0x01` padding): a 32-byte
/// digest that depends on the input bytes alone.
#[verifier::external_body]
fn keccak256(data: &Vec<u8>) -> (r: Vec<u8>)
    ensures
        r@ == keccak_of(data@),
        r@.len() == 32,
{
    <sha3::Keccak256 as sha3::Digest>::digest(data.as_slice()).as_slice().to_vec()
}

/// The minimal big-endian bytes of an integer: no leading zero byte, empty
/// for zero.
pub open spec fn be_min_bytes(n: nat) -> Seq<u8>
    decreases n,
{
    if n == 0 {
        Seq::empty()
    } else {
        be_min_bytes(n / 256).push((n % 256) as u8)
    }
}

/// An integer below 256 to the `k`th spells at most `k` minimal bytes.
pub proof fn lemma_be_min_bytes_len(n: nat, k: nat)
    requires
        n < pow256(k),
    ensures
        be_min_bytes(n).len() <= k,
    decreases n,
{
    if n > 0 {
        lemma_fundamental_div_mod(n as int, 256);
        if n / 256 >= pow256((k - 1) as nat) {
            lemma_mul_inequality(pow256((k - 1) as nat) as int, (n as int) / 256, 256);
            assert(false);
        }
        lemma_be_min_bytes_len(n / 256, (k - 1) as nat);
    }
}

/// RLP of a byte string of at most 55 bytes: a single small byte stands for
/// itself, anything else is length-prefixed.
pub open spec fn rlp_str(s: Seq<u8>) -> Seq<u8>
    recommends
        s.len() <= 55,
{
    if s.len() == 1 && s[0] < 0x80 {
        s
    } else {
        seq![(0x80 + s.len()) as u8] + s
    }
}

/// RLP of an unsigned integer: its minimal big-endian bytes as a string.
pub open spec fn rlp_int(n: nat) -> Seq<u8> {
    rlp_str(be_min_bytes(n))
}

/// RLP of a list whose payload is at most 55 bytes.
pub open spec fn rlp_list(payload: Seq<u8>) -> Seq<u8>
    recommends
        payload.len() <= 55,
{
    seq![(0xc0 + payload.len()) as u8] + payload
}

/// The standard contract-creation rule: the last 20 bytes of the Keccak-256
/// digest of the RLP list holding the sender address and the nonce.
pub open spec fn create_address_of(sender: Seq<u8>, nonce: nat) -> Seq<u8> {
    keccak_of(rlp_list(rlp_str(sender) + rlp_int(nonce))).skip(12)
}

/// The account rule: the last 20 bytes of the Keccak-256 digest of the
/// public key.
pub open spec fn account_address_of(public_key: Seq<u8>) -> Seq<u8> {
    keccak_of(public_key).skip(12)
}

/// A 20-byte account or contract identifier.
#[derive(Clone, Debug, PartialEq, Eq)]
pub struct Address {
    bytes: Vec<u8>,
}

impl View for Address {
    type V = Seq<u8>;

    closed spec fn view(&self) -> Seq<u8> {
        self.bytes@
    }
}

impl Address {
    /// Exactly 20 bytes.
    pub open spec fn wf(&self) -> bool {
        self@.len() == 20
    }

    /// Adopt 20 bytes as they are.
    pub fn from_bytes(bytes: Vec<u8>) -> (r: Address)
        requires
            bytes@.len() == 20,
        ensures
            r.wf(),
            r@ == bytes@,
    {
        Address { bytes }
    }

    /// A copy of the bytes.
    pub fn to_bytes(&self) -> (r: Vec<u8>)
        ensures
            r@ == self@,
    {
        copy_bytes(&self.bytes)
    }

    /// Whether two addresses hold the same bytes.
    pub fn equals(&self, other: &Address) -> (r: bool)
        requires
            self.wf(),
            other.wf(),
        ensures
            r <==> self@ == other@,
    {
        bytes_equal(&self.bytes, &other.bytes)
    }
}

/// A fresh copy of a byte vector.
pub(crate) fn copy_bytes(v: &Vec<u8>) -> (r: Vec<u8>)
    ensures
        r@ == v@,
{
    let mut r: Vec<u8> = Vec::new();
    let mut i: usize = 0;
    while i < v.len()
        invariant
            i <= v@.len(),
            r@ == v@.take(i as int),
        decreases v@.len() - i,
    {
        r.push(v[i]);
        proof {
            assert(r@ =~= v@.take(i + 1 as int));
        }
        i = i + 1;
    }
    proof {
        assert(v@.take(v@.len() as int) =~= v@);
    }
    r
}

/// Whether two byte vectors of one length hold the same bytes.
pub fn bytes_equal(a: &Vec<u8>, b: &Vec<u8>) -> (r: bool)
    requires
        a@.len() == b@.len(),
    ensures
        r <==> a@ == b@,
{
    let mut i: usize = 0;
    while i < a.len()
        invariant
            i <= a@.len(),
            a@.len() == b@.len(),
            forall|j: int| 0 <= j < i ==> a@[j] == b@[j],
        decreases a@.len() - i,
    {
        if a[i] != b[i] {
            proof {
                assert(a@[i as int] != b@[i as int]);
            }
            return false;
        }
        i = i + 1;
    }
    proof {
        assert(a@ =~= b@);
    }
    true
}

/// The bytes of `v` from position `from` on.
fn suffix_from(v: &Vec<u8>, from: usize) -> (r: Vec<u8>)
    requires
        from <= v@.len(),
    ensures
        r@ == v@.skip(from as int),
{
    let mut r: Vec<u8> = Vec::new();
    let mut i: usize = from;
    proof {
        assert(r@ =~= v@.subrange(from as int, from as int));
    }
    while i < v.len()
        invariant
            from <= i <= v@.len(),
            r@ == v@.subrange(from as int, i as int),
        decreases v@.len() - i,
    {
        r.push(v[i]);
        proof {
            assert(r@ =~= v@.subrange(from as int, i + 1 as int));
        }
        i = i + 1;
    }
    proof {
        assert(v@.subrange(from as int, v@.len() as int) =~= v@.skip(from as int));
    }
    r
}

/// The minimal big-endian bytes of a machine integer.
fn be_min_exec(n: u64) -> (r: Vec<u8>)
    ensures
        r@ == be_min_bytes(n as nat),
    decreases n,
{
    if n == 0 {
        Vec::new()
    } else {
        let mut r = be_min_exec(n / 256);
        r.push((n % 256) as u8);
        r
    }
}

/// Append the RLP of a short byte string to `out`.
fn push_rlp_str(out: &mut Vec<u8>, s: &Vec<u8>)
    requires
        s@.len() <= 55,
    ensures
        final(out)@ == old(out)@ + rlp_str(s@),
{
    if s.len() == 1 && s[0] < 0x80 {
        out.push(s[0]);
        proof {
            assert(final(out)@ =~= old(out)@ + rlp_str(s@));
        }
    } else {
        out.push(0x80 + s.len() as u8);
        let mut i: usize = 0;
        proof {
            assert(out@ =~= old(out)@ + seq![(0x80 + s@.len()) as u8] + s@.take(0));
        }
        while i < s.len()
            invariant
                i <= s@.len(),
                s@.len() <= 55,
                out@ == old(out)@ + seq![(0x80 + s@.len()) as u8] + s@.take(i as int),
            decreases s@.len() - i,
        {
            out.push(s[i]);
            proof {
                assert(out@ =~= old(out)@ + seq![(0x80 + s@.len()) as u8] + s@.take(i + 1 as int));
            }
            i = i + 1;
        }
        proof {
            assert(s@.take(s@.len() as int) =~= s@);
            assert(final(out)@ =~= old(out)@ + rlp_str(s@));
        }
    }
}

/// The address of the account behind a public key.
pub fn account_address(public_key: &Vec<u8>) -> (r: Address)
    ensures
        r.wf(),
        r@ == account_address_of(public_key@),
{
    let h = keccak256(public_key);
    Address { bytes: suffix_from(&h, 12) }
}

/// The address a contract is deployed at: derived from the deploying sender
/// and its nonce alone, by the ecosystem's standard rule.
pub fn contract_address(sender: &Address, nonce: u64) -> (r: Address)
    requires
        sender.wf(),
    ensures
        r.wf(),
        r@ == create_address_of(sender@, nonce as nat),
{
    proof {
        assert(pow256(8) == 0x1_0000_0000_0000_0000) by {
            reveal_with_fuel(pow256, 9);
        }
        lemma_be_min_bytes_len(nonce as nat, 8);
    }
    let mut payload: Vec<u8> = Vec::new();
    push_rlp_str(&mut payload, &sender.bytes);
    let nonce_bytes = be_min_exec(nonce);
    push_rlp_str(&mut payload, &nonce_bytes);
    proof {
        assert(payload@ =~= rlp_str(sender@) + rlp_int(nonce as nat));
    }
    let mut data: Vec<u8> = Vec::new();
    data.push(0xc0 + payload.len() as u8);
    let mut i: usize = 0;
    proof {
        assert(data@ =~= seq![(0xc0 + payload@.len()) as u8] + payload@.take(0));
    }
    while i < payload.len()
        invariant
            i <= payload@.len(),
            payload@.len() <= 55,
            data@ == seq![(0xc0 + payload@.len()) as u8] + payload@.take(i as int),
        decreases payload@.len() - i,
    {
        data.push(payload[i]);
        proof {
            assert(data@ =~= seq![(0xc0 + payload@.len()) as u8] + payload@.take(i + 1 as int));
        }
        i = i + 1;
    }
    proof {
        assert(payload@.take(payload@.len() as int) =~= payload@);
        assert(data@ =~= rlp_list(payload@));
    }
    let h = keccak256(&data);
    Address { bytes: suffix_from(&h, 12) }
}

/// Law: the derived contract address is a function of the sender and nonce
/// alone — any two results that satisfy `contract_address`'s contract for
/// the same inputs agree bit for bit.
pub proof fn lemma_create_address_deterministic(
    sender: Seq<u8>,
    nonce: nat,
    a1: Seq<u8>,
    a2: Seq<u8>,
)
    requires
        a1 == create_address_of(sender, nonce),
        a2 == create_address_of(sender, nonce),
    ensures
        a1 == a2,
{
}

} // verus!
