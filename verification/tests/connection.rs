use neurond::engine::provider::{Tool, ToolType};
use neurond::federation::connection::{
    ConnectionEvent, ConnectionState, DownstreamConnection, MAX_RETRIES,
};
use neurond::json::Json;

fn tool(name: &str) -> Tool {
    Tool {
        name: name.to_string(),
        description: String::new(),
        input_schema: Json::Object(vec![]),
        tool_type: ToolType::Actionable,
    }
}

fn healthy() -> DownstreamConnection<u8, ()> {
    let mut conn = DownstreamConnection::new("linux".to_string());
    conn.mark_starting();
    conn.mark_healthy(vec![tool("linux.a"), tool("linux.b")]);
    conn.client = Some(1);
    conn
}

#[test]
fn a_new_connection_is_configured_and_empty() {
    let conn: DownstreamConnection<u8, ()> = DownstreamConnection::new("linux".to_string());
    assert_eq!(conn.namespace, "linux");
    assert_eq!(conn.state, ConnectionState::Configured);
    assert!(conn.tools.is_empty());
    assert!(conn.client.is_none());
    assert!(conn.child.is_none());
    assert!(!conn.is_healthy());
}

#[test]
fn the_first_attempt_goes_to_healthy_or_straight_to_failed() {
    let mut conn: DownstreamConnection<u8, ()> = DownstreamConnection::new("linux".to_string());
    conn.mark_starting();
    assert_eq!(conn.state, ConnectionState::Starting);
    conn.mark_healthy(vec![tool("linux.a")]);
    assert_eq!(conn.state, ConnectionState::Healthy);
    assert_eq!(conn.tools.len(), 1);
    assert!(!conn.is_healthy());
    conn.client = Some(9);
    assert!(conn.is_healthy());

    let mut conn: DownstreamConnection<u8, ()> = DownstreamConnection::new("linux".to_string());
    conn.mark_starting();
    conn.mark_failed();
    assert_eq!(conn.state, ConnectionState::Failed);
}

#[test]
fn a_lost_connection_drops_its_tools_at_once() {
    let mut conn = healthy();
    conn.mark_restarting();
    assert_eq!(conn.state, ConnectionState::Restarting { attempt: 1 });
    assert!(conn.tools.is_empty());
    assert_eq!(conn.client, Some(1));
    assert!(!conn.is_healthy());

    conn.mark_restarting();
    assert_eq!(conn.state, ConnectionState::Restarting { attempt: 2 });

    conn.mark_healthy(vec![tool("linux.c")]);
    assert_eq!(conn.state, ConnectionState::Healthy);
    assert_eq!(conn.tools.len(), 1);
    assert!(conn.is_healthy());
}

#[test]
fn the_retries_are_used_up_after_the_budget() {
    assert_eq!(MAX_RETRIES, 5);
    let mut conn = healthy();
    for attempt in 1..=5u32 {
        conn.mark_restarting();
        assert_eq!(conn.state, ConnectionState::Restarting { attempt });
    }
    conn.mark_restarting();
    assert_eq!(conn.state, ConnectionState::Failed);
    assert!(conn.tools.is_empty());
    assert!(conn.client.is_none());
}

#[test]
fn a_restarting_connection_that_is_given_up_loses_its_peer() {
    let mut conn = healthy();
    conn.mark_restarting();
    conn.mark_failed();
    assert_eq!(conn.state, ConnectionState::Failed);
    assert!(conn.tools.is_empty());
    assert!(conn.client.is_none());
}

#[test]
fn nothing_leaves_failed() {
    for event in [
        ConnectionEvent::Started,
        ConnectionEvent::Established,
        ConnectionEvent::Lost,
        ConnectionEvent::GaveUp,
    ] {
        assert_eq!(ConnectionState::Failed.next(event), ConnectionState::Failed);
    }
    let mut conn: DownstreamConnection<u8, ()> = DownstreamConnection::new("linux".to_string());
    conn.mark_starting();
    conn.mark_failed();
    conn.mark_starting();
    assert_eq!(conn.state, ConnectionState::Failed);
    conn.mark_healthy(vec![tool("linux.a")]);
    assert_eq!(conn.state, ConnectionState::Failed);
    assert!(conn.tools.is_empty());
    conn.mark_restarting();
    assert_eq!(conn.state, ConnectionState::Failed);
}

#[test]
fn giving_up_fails_a_connection_from_every_state() {
    let mut fresh: DownstreamConnection<u8, ()> = DownstreamConnection::new("linux".to_string());
    fresh.mark_failed();
    assert_eq!(fresh.state, ConnectionState::Failed);
    assert!(fresh.tools.is_empty());
    assert!(fresh.client.is_none());
    assert_eq!(fresh.namespace, "linux");
    fresh.mark_restarting();
    assert_eq!(fresh.state, ConnectionState::Failed);
    assert!(fresh.tools.is_empty());
    assert!(fresh.client.is_none());

    let mut conn = healthy();
    assert_eq!(conn.tools.len(), 2);
    assert_eq!(conn.client, Some(1));
    conn.mark_failed();
    assert_eq!(conn.state, ConnectionState::Failed);
    assert!(conn.tools.is_empty());
    assert!(conn.client.is_none());
    assert_eq!(conn.namespace, "linux");
    assert!(!conn.is_healthy());

    let mut starting: DownstreamConnection<u8, ()> = DownstreamConnection::new("x".to_string());
    starting.mark_starting();
    starting.client = Some(4);
    starting.mark_failed();
    assert_eq!(starting.state, ConnectionState::Failed);
    assert!(starting.client.is_none());

    for state in [
        ConnectionState::Configured,
        ConnectionState::Starting,
        ConnectionState::Healthy,
        ConnectionState::Restarting { attempt: 3 },
        ConnectionState::Failed,
    ] {
        assert_eq!(state.next(ConnectionEvent::GaveUp), ConnectionState::Failed);
    }
}

#[test]
fn the_setters_act_on_every_state_but_failed() {
    let mut conn: DownstreamConnection<u8, ()> = DownstreamConnection::new("linux".to_string());
    conn.mark_healthy(vec![tool("linux.a")]);
    assert_eq!(conn.state, ConnectionState::Healthy);
    assert_eq!(conn.tools.len(), 1);

    conn.mark_healthy(vec![tool("linux.b"), tool("linux.c")]);
    assert_eq!(conn.state, ConnectionState::Healthy);
    assert_eq!(conn.tools.len(), 2);
    assert_eq!(conn.tools[0].name, "linux.b");

    conn.mark_starting();
    assert_eq!(conn.state, ConnectionState::Starting);
    assert_eq!(conn.tools.len(), 2);

    conn.mark_restarting();
    assert_eq!(conn.state, ConnectionState::Restarting { attempt: 1 });
    assert!(conn.tools.is_empty());

    let mut fresh: DownstreamConnection<u8, ()> = DownstreamConnection::new("linux".to_string());
    fresh.mark_restarting();
    assert_eq!(fresh.state, ConnectionState::Restarting { attempt: 1 });
    fresh.mark_starting();
    assert_eq!(fresh.state, ConnectionState::Starting);
}

#[test]
fn the_transitions_are_those_of_the_table() {
    let restarting = |attempt: u32| ConnectionState::Restarting { attempt };
    assert_eq!(
        ConnectionState::Configured.next(ConnectionEvent::Started),
        ConnectionState::Starting
    );
    assert_eq!(
        ConnectionState::Starting.next(ConnectionEvent::Established),
        ConnectionState::Healthy
    );
    assert_eq!(ConnectionState::Starting.next(ConnectionEvent::GaveUp), ConnectionState::Failed);
    assert_eq!(ConnectionState::Healthy.next(ConnectionEvent::Lost), restarting(1));
    assert_eq!(restarting(4).next(ConnectionEvent::Lost), restarting(5));
    assert_eq!(restarting(5).next(ConnectionEvent::Lost), ConnectionState::Failed);
    assert_eq!(restarting(u32::MAX).next(ConnectionEvent::Lost), ConnectionState::Failed);
    assert_eq!(restarting(2).next(ConnectionEvent::Established), ConnectionState::Healthy);
    assert_eq!(restarting(2).next(ConnectionEvent::GaveUp), ConnectionState::Failed);
    assert_eq!(restarting(2).next(ConnectionEvent::Started), ConnectionState::Starting);
    assert_eq!(ConnectionState::Starting.next(ConnectionEvent::Lost), restarting(1));
    assert_eq!(ConnectionState::Configured.next(ConnectionEvent::Lost), restarting(1));
    assert_eq!(
        ConnectionState::Configured.next(ConnectionEvent::Established),
        ConnectionState::Healthy
    );
    assert_eq!(ConnectionState::Healthy.next(ConnectionEvent::Started), ConnectionState::Starting);
}
