//! Decoding of Soroban transactions, contract specifications and history archives.
//!
//! Every executable function states what it returns in its contract, over the
//! mathematical models that stand beside the types.

pub mod archive;
pub mod contract_spec;
pub mod decode;
pub mod error;
pub mod hex_text;
pub mod history;
pub mod json;
pub mod network;
pub mod text;
