//! Interpretation of a single Starknet contract call on a constrained signing
//! device: calldata decoding, domain-name decoding, amount formatting, session
//! buffer validation and the staged confirmation protocol.
pub mod amount;
pub mod calldata;
pub mod domain;
pub mod engine;
pub mod error;
pub mod felt;
pub mod session;
