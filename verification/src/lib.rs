//! Transaction-lifecycle bridge for an Ethereum-style RPC gateway.
//!
//! The crate contains the verified core of a gateway that fronts a
//! block-paced backend chain with Ethereum-shaped operations: the hex wire
//! codec, deterministic address derivation, the receipt translation rules,
//! and the bounded retry state machines used while connecting to the backend
//! and while polling for a transaction receipt.  All network traffic is left
//! to an unverified shell that feeds plain values into these functions.

pub mod address;
pub mod codec;
pub mod connect;
pub mod error;
pub mod facade;
pub mod lifecycle;
pub mod receipt;
pub mod u256;
