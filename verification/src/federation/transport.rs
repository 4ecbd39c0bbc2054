//! How a downstream is reached, and what an attempt to reach it gave.
//!
//! There are two ways to a downstream: a URL on which it listens, and a child
//! process that is spoken to over its standard streams. The gateway only
//! decides; the attempt itself is made by its caller, who hands back a
//! [`ConnectOutcome`]. Failures to connect or to discover drive the
//! connection's state. A failure of a later call does not: it is an error of
//! that call.

use crate::config::DownstreamTransport;
use crate::engine::provider::Tool;
use crate::text::join;
use vstd::prelude::*;

verus! {

/// What an attempt to reach a downstream gave.
pub enum ConnectOutcome<C> {
    /// The peer is connected and has listed its tools, under their own names.
    Connected { client: C, tools: Vec<Tool> },
    /// The transport did not connect: no such executable, connection refused,
    /// the handshake failed.
    ConnectFailed { reason: String },
    /// The peer is connected, but did not list its tools.
    DiscoveryFailed { reason: String },
}

impl<C> ConnectOutcome<C> {
    /// The attempt gave a peer and its tools.
    pub open spec fn succeeded(&self) -> bool {
        self is Connected
    }

    /// Whether the attempt gave a peer and its tools.
    pub fn is_connected(&self) -> (r: bool)
        ensures
            r == self.succeeded(),
    {
        match self {
            ConnectOutcome::Connected { .. } => true,
            _ => false,
        }
    }
}

/// The sentence that says which downstream could not be set up.
pub open spec fn failure_context_spec(transport: DownstreamTransport) -> Seq<char> {
    match transport {
        DownstreamTransport::Localhost { url } => "Failed to initialize MCP client for: "@ + url@,
        DownstreamTransport::Stdio { command, .. } => "MCP client init failed for stdio: "@
            + command@,
    }
}

/// The sentence that says which downstream could not be set up: it names the
/// URL, or the command.
pub fn failure_context(transport: &DownstreamTransport) -> (r: String)
    ensures
        r@ == failure_context_spec(*transport),
{
    match transport {
        DownstreamTransport::Localhost { url } => join(
            "Failed to initialize MCP client for: ",
            url.as_str(),
        ),
        DownstreamTransport::Stdio { command, .. } => join(
            "MCP client init failed for stdio: ",
            command.as_str(),
        ),
    }
}

} // verus!
