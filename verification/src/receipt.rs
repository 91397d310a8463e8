//! Transaction hashes and Ethereum-shaped receipts.
//!
//! The backend confirms a transaction with its own record; the gateway
//! translates it into the receipt shape Ethereum tooling expects.  The
//! translation owns one rule: a receipt names a created contract exactly
//! when the request had no destination, and the address it names is the one
//! derived from the sender and nonce.

use vstd::prelude::*;
use crate::address::Address;
use crate::address::bytes_equal;
use crate::address::contract_address;
use crate::address::create_address_of;

verus! {

/// A 32-byte transaction hash: issued on submission, the correlation key
/// for receipt polling.
#[derive(Clone, Debug, PartialEq, Eq)]
pub struct TxHash {
    bytes: Vec<u8>,
}

impl View for TxHash {
    type V = Seq<u8>;

    closed spec fn view(&self) -> Seq<u8> {
        self.bytes@
    }
}

impl TxHash {
    /// Exactly 32 bytes.
    pub open spec fn wf(&self) -> bool {
        self@.len() == 32
    }

    /// Adopt 32 bytes as they are.
    pub fn from_bytes(bytes: Vec<u8>) -> (r: TxHash)
        requires
            bytes@.len() == 32,
        ensures
            r.wf(),
            r@ == bytes@,
    {
        TxHash { bytes }
    }

    /// A copy of the bytes.
    pub fn to_bytes(&self) -> (r: Vec<u8>)
        ensures
            r@ == self@,
    {
        crate::address::copy_bytes(&self.bytes)
    }

    /// Whether two hashes hold the same bytes.
    pub fn equals(&self, other: &TxHash) -> (r: bool)
        requires
            self.wf(),
            other.wf(),
        ensures
            r <==> self@ == other@,
    {
        bytes_equal(&self.bytes, &other.bytes)
    }
}

/// What the gateway reports once a transaction is included: immutable
/// backend-owned data, observed and handed on unchanged.
#[derive(Clone, Debug, PartialEq, Eq)]
pub struct Receipt {
    /// The hash the receipt answers for.
    pub transaction_hash: TxHash,
    /// The request's destination, absent for a contract creation.
    pub to: Option<Address>,
    /// The created contract's address, present exactly for a creation.
    pub contract_address: Option<Address>,
    /// Whether execution succeeded.
    pub status: bool,
}

impl Receipt {
    /// Well-formed: sound field widths, and a created contract named exactly
    /// when there was no destination.
    pub open spec fn wf(&self) -> bool {
        &&& self.transaction_hash.wf()
        &&& match self.to {
            Some(a) => a.wf(),
            None => true,
        }
        &&& match self.contract_address {
            Some(a) => a.wf(),
            None => true,
        }
        &&& (self.to is None) <==> (self.contract_address is Some)
    }
}

/// Translate a backend confirmation into the receipt handed to the caller.
/// A request with a destination yields that destination and no contract
/// address; a creation yields no destination and exactly the address derived
/// from the sender and nonce.
pub fn make_receipt(
    transaction_hash: TxHash,
    request_to: Option<Address>,
    sender: &Address,
    nonce: u64,
    status: bool,
) -> (r: Receipt)
    requires
        transaction_hash.wf(),
        sender.wf(),
        request_to matches Some(a) ==> a.wf(),
    ensures
        r.wf(),
        r.transaction_hash@ == transaction_hash@,
        r.status == status,
        request_to matches Some(a) ==> (r.to matches Some(b) && b@ == a@),
        request_to is Some ==> r.contract_address is None,
        request_to is None ==> r.to is None,
        request_to is None ==> (r.contract_address matches Some(c) && c@ == create_address_of(
            sender@,
            nonce as nat,
        )),
{
    match request_to {
        Some(a) => Receipt { transaction_hash, to: Some(a), contract_address: None, status },
        None => Receipt {
            transaction_hash,
            to: None,
            contract_address: Some(contract_address(sender, nonce)),
            status,
        },
    }
}

/// Law: in every well-formed receipt the created contract's address is
/// present exactly when the destination is absent — a call's receipt never
/// names a created contract, a creation's always does.
pub proof fn lemma_contract_address_presence(r: Receipt)
    requires
        r.wf(),
    ensures
        (r.to is Some) <==> (r.contract_address is None),
{
}

} // verus!
