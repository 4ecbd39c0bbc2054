//! The federation gateway: downstream connections, their aggregated catalog,
//! and the routing of calls by namespace.

pub mod connection;
pub mod manager;
pub mod namespace;
pub mod transport;
