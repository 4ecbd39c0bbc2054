//! What the gateway shows to its upstream caller.

pub mod server;
