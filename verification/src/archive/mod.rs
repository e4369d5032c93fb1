//! History archives: checkpoint files and the ledger headers in them.

pub mod client;
pub mod header;
pub mod laws;
pub mod path;
pub mod stream;
