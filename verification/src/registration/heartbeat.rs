//! The heartbeat: on every tick of a fixed timer the node tells the
//! orchestrator that it is alive, until it is told to stop. How a heartbeat
//! fares never stops the loop.

use crate::json::{entry, Json, JsonValue};
use crate::registration::register::{endpoint, endpoint_url};
use vstd::prelude::*;

verus! {

/// The seconds after which a heartbeat that got no answer is given up.
pub const HEARTBEAT_TIMEOUT_SECS: u64 = 5;

/// Whether the heartbeat loop still runs.
#[derive(Debug, Clone, Copy, PartialEq, Eq, Structural)]
pub enum HeartbeatState {
    /// Waiting for the next tick.
    Waiting,
    /// Stopped for good.
    Stopped,
}

/// How a heartbeat fared.
#[derive(Debug, Clone, Copy, PartialEq, Eq, Structural)]
pub enum HeartbeatReport {
    /// The orchestrator took it.
    Accepted,
    /// The orchestrator answered, but not with success.
    Rejected,
    /// The orchestrator could not be reached.
    Unreachable,
}

/// What happens to the heartbeat loop.
#[derive(Debug, Clone, Copy, PartialEq, Eq, Structural)]
pub enum HeartbeatEvent {
    /// The timer fired.
    Tick,
    /// The heartbeat that was sent has fared so.
    Reported(HeartbeatReport),
    /// The loop was told to stop, or the one who could tell it is gone.
    Cancelled,
}

/// What the heartbeat loop does next.
#[derive(Debug, Clone, Copy, PartialEq, Eq, Structural)]
pub enum HeartbeatAction {
    /// Send a heartbeat.
    Send,
    /// Wait for the next tick, or for the signal to stop.
    Wait,
    /// Leave the loop.
    Stop,
}

/// The state after `event`, and what to do next. A tick sends a heartbeat;
/// however it fares, the loop waits for the next tick; the signal to stop
/// ends the loop at once, and nothing starts it again.
pub open spec fn heartbeat_after(state: HeartbeatState, event: HeartbeatEvent) -> (
    HeartbeatState,
    HeartbeatAction,
) {
    match (state, event) {
        (HeartbeatState::Stopped, _) => (HeartbeatState::Stopped, HeartbeatAction::Stop),
        (HeartbeatState::Waiting, HeartbeatEvent::Cancelled) => (
            HeartbeatState::Stopped,
            HeartbeatAction::Stop,
        ),
        (HeartbeatState::Waiting, HeartbeatEvent::Tick) => (
            HeartbeatState::Waiting,
            HeartbeatAction::Send,
        ),
        (HeartbeatState::Waiting, HeartbeatEvent::Reported(_)) => (
            HeartbeatState::Waiting,
            HeartbeatAction::Wait,
        ),
    }
}

/// The state after `event`, and what to do next.
pub fn heartbeat_step(state: HeartbeatState, event: HeartbeatEvent) -> (r: (
    HeartbeatState,
    HeartbeatAction,
))
    ensures
        r == heartbeat_after(state, event),
{
    match (state, event) {
        (HeartbeatState::Stopped, _) => (HeartbeatState::Stopped, HeartbeatAction::Stop),
        (HeartbeatState::Waiting, HeartbeatEvent::Cancelled) => (
            HeartbeatState::Stopped,
            HeartbeatAction::Stop,
        ),
        (HeartbeatState::Waiting, HeartbeatEvent::Tick) => (
            HeartbeatState::Waiting,
            HeartbeatAction::Send,
        ),
        (HeartbeatState::Waiting, HeartbeatEvent::Reported(_)) => (
            HeartbeatState::Waiting,
            HeartbeatAction::Wait,
        ),
    }
}

/// No report stops the loop: whatever a heartbeat came to, the loop waits
/// for the next tick.
pub proof fn lemma_reports_never_stop(report: HeartbeatReport)
    ensures
        heartbeat_after(HeartbeatState::Waiting, HeartbeatEvent::Reported(report)) == (
            HeartbeatState::Waiting,
            HeartbeatAction::Wait,
        ),
{
}

/// The signal to stop ends the loop from any state, and a stopped loop stays
/// stopped.
pub proof fn lemma_cancel_stops(state: HeartbeatState, event: HeartbeatEvent)
    ensures
        heartbeat_after(state, HeartbeatEvent::Cancelled) == (
            HeartbeatState::Stopped,
            HeartbeatAction::Stop,
        ),
        heartbeat_after(HeartbeatState::Stopped, event) == (
            HeartbeatState::Stopped,
            HeartbeatAction::Stop,
        ),
{
}

/// How a heartbeat fared, from what sending it gave: whether the answer's
/// status was a success, or nothing where no answer came.
pub fn heartbeat_report(answer: Option<bool>) -> (r: HeartbeatReport)
    ensures
        r == match answer {
            Some(true) => HeartbeatReport::Accepted,
            Some(false) => HeartbeatReport::Rejected,
            None => HeartbeatReport::Unreachable,
        },
{
    match answer {
        Some(true) => HeartbeatReport::Accepted,
        Some(false) => HeartbeatReport::Rejected,
        None => HeartbeatReport::Unreachable,
    }
}

/// The URL that heartbeats are sent to.
pub fn heartbeat_url(cortexd_url: &str) -> (r: String)
    ensures
        r@ == endpoint(cortexd_url@, "/api/v1/nodes/heartbeat"@),
{
    endpoint_url(cortexd_url, "/api/v1/nodes/heartbeat")
}

/// What names the node to the orchestrator.
pub open spec fn node_document(node_id: Seq<char>) -> JsonValue {
    JsonValue::Object(seq![("node_id"@, JsonValue::Str(node_id))])
}

/// What a heartbeat, and a deregistration, carries: the node's identity.
pub fn node_payload(node_id: &str) -> (r: Json)
    ensures
        r@ == node_document(node_id@),
{
    let r = Json::object(vec![entry("node_id", Json::text(node_id))]);
    assert(r@->Object_0 =~= node_document(node_id@)->Object_0);
    r
}

} // verus!
