//! The failure taxonomy of this layer: configuration errors, endpoint parse
//! errors, chain-id mismatches, transport failures surfaced from the client
//! library, and the fatal poisoned-lock condition.

use vstd::prelude::*;

use crate::network::U256;

verus! {

/// Every way a factory or registry operation fails.
#[derive(Debug)]
pub enum Error {
    /// A configuration error: missing or contradictory inputs, such as a
    /// missing URL for a non-mock transport, or a URL handed to the mock one.
    Error(String),
    /// The endpoint string is not an absolute URL.
    ParseError(url::ParseError),
    /// The connected node reports a chain id other than the configured one;
    /// both values are carried for diagnostics.
    ChainIdError { expected: u64, actual: U256 },
    /// A transport-level failure, surfaced with its original message.
    ProviderError(String),
    /// A lock guarding shared state was poisoned by a panicking holder; this
    /// is unrecoverable and never retried.
    LockPoisoned,
}

} // verus!
