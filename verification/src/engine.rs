//! The registry and dispatch engine of a node agent, and the contract of the
//! capability providers that it holds.

pub mod provider;
pub mod registry;
