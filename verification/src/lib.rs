//! Transaction signature hashes for Overwinter-era transactions.
//!
//! The digest that a transparent input's signature covers is a personalised
//! BLAKE2b-256 hash over a fixed layout of header fields, sub-hashes and,
//! when one input is being signed, that input's own data. Every function
//! here states the exact bytes it produces.

pub mod blake2b;
pub mod encoding;
pub mod sighash;
pub mod theorems;
pub mod transaction;
