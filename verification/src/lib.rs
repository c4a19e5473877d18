//! Connection and instance management in front of a blockchain RPC client
//! library: transport selection and validation for provider handles, and an
//! address-keyed cache of client-bound contract instances.

pub mod error;
pub mod network;
pub mod prelude;
pub mod provider;
pub mod registry;
