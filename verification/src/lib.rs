//! A two-tier tool-execution fabric: node agents expose host-management
//! tools over a line-delimited request/response protocol, and a federation
//! gateway aggregates many agents into one namespaced catalog and routes each
//! call to the agent that owns it.

pub mod config;
pub mod text;
pub mod json;
pub mod engine;
pub mod transport;
pub mod federation;
pub mod linux;
pub mod registration;
pub mod upstream;
pub mod providers;
