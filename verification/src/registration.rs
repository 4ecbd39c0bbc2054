//! Registration of the node with its orchestrator, and the heartbeat that
//! follows it.

pub mod heartbeat;
pub mod register;
