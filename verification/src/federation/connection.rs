//! The lifecycle of one downstream connection.
//!
//! A connection starts as `Configured`. A connect attempt takes it to
//! `Starting`, and from there to `Healthy` or straight to `Failed`. A healthy
//! connection that is lost goes to `Restarting`, and from there back to
//! `Healthy`, or to `Failed` once the retries are used up. Nothing leaves
//! `Failed`.
//!
//! The events are total: each acts on every state but `Failed`. Giving up
//! fails a connection whatever its state was.

use crate::engine::provider::{tool_views, Tool, ToolView};
use vstd::prelude::*;

verus! {

/// The number of reconnection attempts after which a downstream is given up.
pub const MAX_RETRIES: u32 = 5;

/// The lifecycle state of a downstream connection.
#[derive(Debug, Clone, Copy, PartialEq, Eq, Structural)]
pub enum ConnectionState {
    /// Configured, not yet connected.
    Configured,
    /// Connecting.
    Starting,
    /// Connected, tools discovered.
    Healthy,
    /// Connection lost; `attempt` reconnections have been started.
    Restarting { attempt: u32 },
    /// Given up: the tools are gone from the catalog.
    Failed,
}

/// What happens to a connection.
#[derive(Debug, Clone, Copy, PartialEq, Eq, Structural)]
pub enum ConnectionEvent {
    /// A connect attempt begins.
    Started,
    /// The transport connected and the tools were discovered.
    Established,
    /// The connection was lost, or a reconnection did not succeed.
    Lost,
    /// A step of an attempt failed for good, or the connection is given up.
    GaveUp,
}

impl ConnectionState {
    /// The state that follows `self` on `event`. Nothing leaves `Failed`. From
    /// any other state, a begun attempt leads to `Starting`, an established
    /// connection to `Healthy`, and giving up to `Failed`. A loss starts the
    /// first retry, or, while restarting, counts one more; once the retries are
    /// used up it leads to `Failed`.
    pub open spec fn after(self, event: ConnectionEvent) -> ConnectionState {
        match (self, event) {
            (ConnectionState::Failed, _) => ConnectionState::Failed,
            (_, ConnectionEvent::Started) => ConnectionState::Starting,
            (_, ConnectionEvent::Established) => ConnectionState::Healthy,
            (_, ConnectionEvent::GaveUp) => ConnectionState::Failed,
            (ConnectionState::Restarting { attempt }, ConnectionEvent::Lost) => if attempt
                < MAX_RETRIES {
                ConnectionState::Restarting { attempt: (attempt + 1) as u32 }
            } else {
                ConnectionState::Failed
            },
            (_, ConnectionEvent::Lost) => ConnectionState::Restarting { attempt: 1 },
        }
    }

    /// The word that stands for the state in a status summary.
    pub open spec fn label_spec(self) -> Seq<char> {
        match self {
            ConnectionState::Configured => "configured"@,
            ConnectionState::Starting => "starting"@,
            ConnectionState::Healthy => "healthy"@,
            ConnectionState::Restarting { .. } => "restarting"@,
            ConnectionState::Failed => "failed"@,
        }
    }

    /// The state that follows `self` on `event`.
    pub fn next(self, event: ConnectionEvent) -> (r: ConnectionState)
        ensures
            r == self.after(event),
    {
        match (self, event) {
            (ConnectionState::Failed, _) => ConnectionState::Failed,
            (_, ConnectionEvent::Started) => ConnectionState::Starting,
            (_, ConnectionEvent::Established) => ConnectionState::Healthy,
            (_, ConnectionEvent::GaveUp) => ConnectionState::Failed,
            (ConnectionState::Restarting { attempt }, ConnectionEvent::Lost) => if attempt
                < MAX_RETRIES {
                ConnectionState::Restarting { attempt: attempt + 1 }
            } else {
                ConnectionState::Failed
            },
            (_, ConnectionEvent::Lost) => ConnectionState::Restarting { attempt: 1 },
        }
    }

    /// The word that stands for the state in a status summary.
    pub fn label(self) -> (r: &'static str)
        ensures
            r@ == self.label_spec(),
    {
        match self {
            ConnectionState::Configured => "configured",
            ConnectionState::Starting => "starting",
            ConnectionState::Healthy => "healthy",
            ConnectionState::Restarting { .. } => "restarting",
            ConnectionState::Failed => "failed",
        }
    }
}

/// `Failed` is terminal: no event leaves it.
pub proof fn lemma_failed_is_terminal(event: ConnectionEvent)
    ensures
        ConnectionState::Failed.after(event) == ConnectionState::Failed,
{
}

/// Giving up fails a connection, whatever its state was.
pub proof fn lemma_giving_up_fails(state: ConnectionState)
    ensures
        state.after(ConnectionEvent::GaveUp) == ConnectionState::Failed,
{
}

/// A connection becomes `Healthy` only when a connection is established.
pub proof fn lemma_healthy_is_earned(state: ConnectionState, event: ConnectionEvent)
    requires
        state != ConnectionState::Healthy,
        state.after(event) == ConnectionState::Healthy,
    ensures
        event == ConnectionEvent::Established,
        state != ConnectionState::Failed,
{
}

/// The listed transitions: `Configured` starts, `Starting` becomes `Healthy`
/// or fails, `Healthy` starts its first retry when it is lost, and
/// `Restarting` becomes `Healthy` again or fails.
pub proof fn lemma_listed_transitions(attempt: u32)
    ensures
        ConnectionState::Configured.after(ConnectionEvent::Started) == ConnectionState::Starting,
        ConnectionState::Starting.after(ConnectionEvent::Established) == ConnectionState::Healthy,
        ConnectionState::Starting.after(ConnectionEvent::GaveUp) == ConnectionState::Failed,
        ConnectionState::Healthy.after(ConnectionEvent::Lost) == (ConnectionState::Restarting {
            attempt: 1,
        }),
        (ConnectionState::Restarting { attempt }).after(ConnectionEvent::Established)
            == ConnectionState::Healthy,
        attempt >= MAX_RETRIES ==> (ConnectionState::Restarting { attempt }).after(
            ConnectionEvent::Lost,
        ) == ConnectionState::Failed,
{
}

/// A restarting connection never counts more attempts than the retry budget:
/// a loss within the budget counts one more, a loss beyond it ends the
/// connection.
pub proof fn lemma_retries_are_bounded(state: ConnectionState, event: ConnectionEvent)
    requires
        state is Restarting ==> state->attempt <= MAX_RETRIES,
    ensures
        state.after(event) is Restarting ==> state.after(event)->attempt <= MAX_RETRIES,
{
}

/// `std::time::Instant`: a reading of the monotonic clock.
#[verifier::external_type_specification]
#[verifier::external_body]
pub struct ExInstant(std::time::Instant);

/// `Instant::now`: the instant at which it is called. Nothing is known of it.
#[verifier::external_body]
fn now() -> std::time::Instant {
    std::time::Instant::now()
}

/// One downstream: its lifecycle state, the tools it offered when it was last
/// discovered, and the handles through which it is reached. `C` is the handle
/// of the connected peer, `H` that of a spawned process.
pub struct DownstreamConnection<C, H> {
    /// The namespace that the downstream's tools are put under.
    pub namespace: String,
    /// The lifecycle state.
    pub state: ConnectionState,
    /// The tools of the downstream, under the namespace.
    pub tools: Vec<Tool>,
    /// The connected peer.
    pub client: Option<C>,
    /// The spawned process, where the downstream is one.
    pub child: Option<H>,
    /// When the downstream was last found healthy.
    pub last_seen: std::time::Instant,
}

impl<C, H> DownstreamConnection<C, H> {
    /// The connection is ready to serve: it is `Healthy` and has a peer.
    pub open spec fn serves(&self) -> bool {
        self.state == ConnectionState::Healthy && self.client is Some
    }

    /// What the connection adds to the catalog: its tools while it is
    /// `Healthy`, nothing in any other state.
    pub open spec fn contribution(&self) -> Seq<ToolView> {
        if self.state == ConnectionState::Healthy {
            tool_views(self.tools@)
        } else {
            Seq::empty()
        }
    }

    /// A connection for `namespace`: `Configured`, without tools or handles.
    pub fn new(namespace: String) -> (r: Self)
        ensures
            r.namespace == namespace,
            r.state == ConnectionState::Configured,
            r.tools@.len() == 0,
            r.client is None,
            r.child is None,
    {
        DownstreamConnection {
            namespace,
            state: ConnectionState::Configured,
            tools: Vec::new(),
            client: None,
            child: None,
            last_seen: now(),
        }
    }

    /// Whether the connection is ready to serve requests.
    pub fn is_healthy(&self) -> (r: bool)
        ensures
            r == self.serves(),
    {
        self.state == ConnectionState::Healthy && self.client.is_some()
    }

    /// A connect attempt begins: the connection is `Starting`, unless it has
    /// failed. Nothing else changes.
    pub fn mark_starting(&mut self)
        ensures
            final(self).state == old(self).state.after(ConnectionEvent::Started),
            final(self).namespace == old(self).namespace,
            final(self).tools == old(self).tools,
            final(self).client == old(self).client,
            final(self).child == old(self).child,
            final(self).last_seen == old(self).last_seen,
    {
        self.state = self.state.next(ConnectionEvent::Started);
    }

    /// The downstream is connected and `tools` were discovered: the
    /// connection is `Healthy` and holds these tools in place of what it held. A
    /// connection that has failed stays as it is.
    pub fn mark_healthy(&mut self, tools: Vec<Tool>)
        ensures
            final(self).state == old(self).state.after(ConnectionEvent::Established),
            final(self).namespace == old(self).namespace,
            final(self).client == old(self).client,
            final(self).child == old(self).child,
            final(self).tools == if old(self).state == ConnectionState::Failed {
                old(self).tools
            } else {
                tools
            },
            old(self).state == ConnectionState::Failed ==> final(self).last_seen == old(
                self,
            ).last_seen,
    {
        if self.state != ConnectionState::Failed {
            self.state = self.state.next(ConnectionEvent::Established);
            self.tools = tools;
            self.last_seen = now();
        }
    }

    /// The connection was lost, or a reconnection did not succeed. The first
    /// retry starts, or, while restarting, one more is counted; once the retries
    /// are used up the connection fails and its peer is dropped. The cached tools
    /// are dropped at once, whatever the state.
    pub fn mark_restarting(&mut self)
        ensures
            final(self).state == old(self).state.after(ConnectionEvent::Lost),
            final(self).namespace == old(self).namespace,
            final(self).child == old(self).child,
            final(self).tools@.len() == 0,
            final(self).client == if final(self).state == ConnectionState::Failed {
                None
            } else {
                old(self).client
            },
            final(self).last_seen == old(self).last_seen,
    {
        self.state = self.state.next(ConnectionEvent::Lost);
        self.tools.clear();
        if self.state == ConnectionState::Failed {
            self.client = None;
        }
    }

    /// The connection is given up: whatever its state was, it is `Failed`, its
    /// tools are dropped, and so is its peer.
    pub fn mark_failed(&mut self)
        ensures
            final(self).state == ConnectionState::Failed,
            final(self).state == old(self).state.after(ConnectionEvent::GaveUp),
            final(self).tools@.len() == 0,
            final(self).client is None,
            final(self).namespace == old(self).namespace,
            final(self).child == old(self).child,
            final(self).last_seen == old(self).last_seen,
    {
        self.state = self.state.next(ConnectionEvent::GaveUp);
        self.tools.clear();
        self.client = None;
    }
}

} // verus!
