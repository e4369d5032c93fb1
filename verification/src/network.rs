//! What a network is reached by.

use vstd::prelude::*;

verus! {

/// The services of a network.
#[derive(Debug, Clone, PartialEq, Eq)]
pub struct NetworkConfig {
    /// The history archives, in the order in which they are tried.
    pub archive_urls: Vec<String>,
    /// How long a request may take.
    pub request_timeout_secs: u64,
}

} // verus!
