//! The protocol engine of a node agent.

pub mod mcp;
