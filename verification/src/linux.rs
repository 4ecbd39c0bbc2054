//! What the node agent reads from a Linux host.

pub mod procfs;
pub mod systemd;
