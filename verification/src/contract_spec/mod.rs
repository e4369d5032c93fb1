//! Contract specifications: what a contract's WebAssembly says of its own interface.

pub mod decoder;
pub mod laws;
pub mod types;
pub mod wasm;
pub mod xdr;
