//! The commonly used surface in one import.

pub use crate::error::Error;
pub use crate::network::{address_from, Address, Chain, RetryClientConfig, U256};
pub use crate::provider::{
    check_chain_id, AbiProvider, AbiProviderTrait, ConnectionPlan, Endpoint, Transport,
};
pub use crate::registry::{AbiRegistry, AddressBound, ContractBinding, MockBinding};
