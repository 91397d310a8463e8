//! The chain client facade: Ethereum-shaped operations over the backend.
//!
//! Each operation — balance, transaction count, submission, receipt — is a
//! network call made by the unverified shell.  The facade pins down
//! everything around that call: the exact wire text of every parameter sent,
//! and the exact reading of every reply accepted.  A reply that is not valid
//! wire text is a `BackendError`; absence of a receipt is not an error but
//! the bridge's cue to keep polling.

use vstd::prelude::*;
use crate::address::Address;
use crate::codec::bytes_of_hex;
use crate::codec::bytes_text_valid;
use crate::codec::decode_bytes;
use crate::codec::encode_bytes;
use crate::codec::hex_text_of;
use crate::codec::quantity_bytes_of;
use crate::codec::quantity_text_of;
use crate::codec::quantity_text_valid;
use crate::codec::DIGIT_ZERO;
use crate::codec::LETTER_X;
use crate::error::GatewayError;
use crate::receipt::TxHash;
use crate::u256::U256;

verus! {

/// The ledger snapshot a read query applies to.
#[derive(Clone, Debug)]
pub enum BlockTag {
    /// The chain's first block.
    Earliest,
    /// The newest block.
    Latest,
    /// The block being built.
    Pending,
    /// One specific block height.
    Number(U256),
}

/// The wire text of `earliest`.
pub open spec fn earliest_text() -> Seq<u8> {
    seq![0x65, 0x61, 0x72, 0x6c, 0x69, 0x65, 0x73, 0x74]
}

/// The wire text of `latest`.
pub open spec fn latest_text() -> Seq<u8> {
    seq![0x6c, 0x61, 0x74, 0x65, 0x73, 0x74]
}

/// The wire text of `pending`.
pub open spec fn pending_text() -> Seq<u8> {
    seq![0x70, 0x65, 0x6e, 0x64, 0x69, 0x6e, 0x67]
}

impl BlockTag {
    /// A numbered tag holds a sound quantity.
    pub open spec fn wf(&self) -> bool {
        match self {
            BlockTag::Number(n) => n.wf(),
            _ => true,
        }
    }

    /// The block-parameter text of the tag: a name, or the height as a
    /// quantity.
    pub fn to_text(&self) -> (r: Vec<u8>)
        requires
            self.wf(),
        ensures
            self is Earliest ==> r@ == earliest_text(),
            self is Latest ==> r@ == latest_text(),
            self is Pending ==> r@ == pending_text(),
            self matches BlockTag::Number(n) ==> r@ == seq![DIGIT_ZERO, LETTER_X]
                + quantity_text_of(n@),
    {
        match self {
            BlockTag::Earliest => {
                let mut r: Vec<u8> = Vec::new();
                r.push(0x65);
                r.push(0x61);
                r.push(0x72);
                r.push(0x6c);
                r.push(0x69);
                r.push(0x65);
                r.push(0x73);
                r.push(0x74);
                proof {
                    assert(r@ =~= earliest_text());
                }
                r
            },
            BlockTag::Latest => {
                let mut r: Vec<u8> = Vec::new();
                r.push(0x6c);
                r.push(0x61);
                r.push(0x74);
                r.push(0x65);
                r.push(0x73);
                r.push(0x74);
                proof {
                    assert(r@ =~= latest_text());
                }
                r
            },
            BlockTag::Pending => {
                let mut r: Vec<u8> = Vec::new();
                r.push(0x70);
                r.push(0x65);
                r.push(0x6e);
                r.push(0x64);
                r.push(0x69);
                r.push(0x6e);
                r.push(0x67);
                proof {
                    assert(r@ =~= pending_text());
                }
                r
            },
            BlockTag::Number(n) => n.encode_quantity(),
        }
    }
}

/// An Ethereum-shaped transaction request, assembled per call and discarded
/// after submission.
#[derive(Clone, Debug)]
pub struct TransactionRequest {
    /// The destination, absent for a contract creation.
    pub to: Option<Address>,
    /// The transferred value.
    pub value: U256,
    /// Call data or contract code.
    pub input: Vec<u8>,
    /// The sender's transaction count, read from the backend before
    /// assembly; the caller owns the race between reading and submitting.
    pub nonce: U256,
}

impl TransactionRequest {
    /// Sound field widths.
    pub open spec fn wf(&self) -> bool {
        &&& match self.to {
            Some(a) => a.wf(),
            None => true,
        }
        &&& self.value.wf()
        &&& self.nonce.wf()
    }

    /// Whether the request creates a contract: it names no destination.
    pub fn is_creation(&self) -> (r: bool)
        ensures
            r <==> self.to is None,
    {
        self.to.is_none()
    }
}

/// The two parameters of a balance query: the account's hex text and the
/// block-parameter text of the tag.
pub fn balance_query_params(address: &Address, tag: &BlockTag) -> (r: (Vec<u8>, Vec<u8>))
    requires
        tag.wf(),
    ensures
        r.0@ == hex_text_of(address@),
        r.1@ == tag_wire_text(*tag),
{
    (encode_bytes(&address.to_bytes()), tag.to_text())
}

/// The two parameters of a transaction-count query: the account's hex text
/// and the block-parameter text of the tag.
pub fn transaction_count_query_params(address: &Address, tag: &BlockTag) -> (r: (Vec<u8>, Vec<u8>))
    requires
        tag.wf(),
    ensures
        r.0@ == hex_text_of(address@),
        r.1@ == tag_wire_text(*tag),
{
    (encode_bytes(&address.to_bytes()), tag.to_text())
}

/// The one text a tag puts on the wire.
pub open spec fn tag_wire_text(tag: BlockTag) -> Seq<u8> {
    match tag {
        BlockTag::Earliest => earliest_text(),
        BlockTag::Latest => latest_text(),
        BlockTag::Pending => pending_text(),
        BlockTag::Number(n) => seq![DIGIT_ZERO, LETTER_X] + quantity_text_of(n@),
    }
}

/// The single parameter of a raw submission: the signed payload's hex text.
pub fn submit_transaction_param(signed_payload: &Vec<u8>) -> (r: Vec<u8>)
    ensures
        r@ == hex_text_of(signed_payload@),
{
    encode_bytes(signed_payload)
}

/// The single parameter of a receipt query: the hash's hex text.
pub fn receipt_query_param(hash: &TxHash) -> (r: Vec<u8>)
    ensures
        r@ == hex_text_of(hash@),
{
    encode_bytes(&hash.to_bytes())
}

/// Read a balance or transaction-count reply.  Exactly the valid quantity
/// texts are accepted; anything else is a `BackendError`.  An unknown or
/// never-funded account is no error: the backend answers it with zero.
pub fn read_quantity_reply(reply: &Vec<u8>) -> (r: Result<U256, GatewayError>)
    ensures
        r is Ok <==> quantity_text_valid(reply@),
        r matches Ok(u) ==> u.wf() && u@ == quantity_bytes_of(reply@),
        r matches Err(e) ==> e is BackendError,
{
    match U256::decode_quantity(reply) {
        Some(u) => Ok(u),
        None => Err(GatewayError::BackendError),
    }
}

/// Read a submission reply.  Exactly the hex texts of 32 bytes are accepted
/// as the issued hash; anything else is a `BackendError`.
pub fn read_hash_reply(reply: &Vec<u8>) -> (r: Result<TxHash, GatewayError>)
    ensures
        r is Ok <==> bytes_text_valid(reply@) && bytes_of_hex(reply@.skip(2)).len() == 32,
        r matches Ok(h) ==> h.wf() && h@ == bytes_of_hex(reply@.skip(2)),
        r matches Err(e) ==> e is BackendError,
{
    match decode_bytes(reply) {
        Some(b) => {
            if b.len() == 32 {
                Ok(TxHash::from_bytes(b))
            } else {
                Err(GatewayError::BackendError)
            }
        },
        None => Err(GatewayError::BackendError),
    }
}

/// Read an address field of a reply.  Exactly the hex texts of 20 bytes
/// denote an address.
pub fn read_address_text(text: &Vec<u8>) -> (r: Option<Address>)
    ensures
        r is Some <==> bytes_text_valid(text@) && bytes_of_hex(text@.skip(2)).len() == 20,
        r matches Some(a) ==> a.wf() && a@ == bytes_of_hex(text@.skip(2)),
{
    match decode_bytes(text) {
        Some(b) => {
            if b.len() == 20 {
                Some(Address::from_bytes(b))
            } else {
                None
            }
        },
        None => None,
    }
}

} // verus!
