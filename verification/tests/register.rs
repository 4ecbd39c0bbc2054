use neurond::config::{RegistrationConfig, ServerConfig};
use neurond::json::Json;
use neurond::registration::heartbeat::{
    heartbeat_report, heartbeat_step, heartbeat_url, node_payload, HeartbeatAction,
    HeartbeatEvent, HeartbeatReport, HeartbeatState, HEARTBEAT_TIMEOUT_SECS,
};
use neurond::registration::register::{
    deregister_url, hostname_from, register_url, registration_result, RegisterPayload,
    DEREGISTER_TIMEOUT_SECS, REGISTER_TIMEOUT_SECS,
};

#[test]
fn test_register_payload_serializes() {
    let payload = RegisterPayload {
        node_id: "test-id".to_string(),
        hostname: "testhost".to_string(),
        ip_address: "192.168.1.1".to_string(),
        port: 8443,
        capabilities: vec!["linux".to_string()],
    };
    let json = payload.to_json();
    assert_eq!(json.get("node_id"), Some(&Json::Str("test-id".to_string())));
    assert_eq!(json.get("hostname"), Some(&Json::Str("testhost".to_string())));
    assert_eq!(
        json.get("port"),
        Some(&Json::Number(serde_json::Number::from(8443u64)))
    );
    assert_eq!(
        json.get("capabilities"),
        Some(&Json::Array(vec![Json::Str("linux".to_string())]))
    );
    assert_eq!(
        json.to_text(),
        "{\"capabilities\":[\"linux\"],\"hostname\":\"testhost\",\"ip_address\":\"192.168.1.1\",\"node_id\":\"test-id\",\"port\":8443}"
    );
}

#[test]
fn test_register_url_construction() {
    let base = "https://cortexd.example.com:8443/";
    let url = register_url(base);
    assert_eq!(url, "https://cortexd.example.com:8443/api/v1/nodes/register");
}

#[test]
fn endpoint_urls_drop_every_slash_at_the_end() {
    assert_eq!(register_url("http://o///"), "http://o/api/v1/nodes/register");
    assert_eq!(register_url("http://o"), "http://o/api/v1/nodes/register");
    assert_eq!(register_url(""), "/api/v1/nodes/register");
    assert_eq!(register_url("///"), "/api/v1/nodes/register");
    assert_eq!(deregister_url("http://o/"), "http://o/api/v1/nodes/deregister");
    assert_eq!(heartbeat_url("http://o/a/"), "http://o/a/api/v1/nodes/heartbeat");
}

#[test]
fn the_payload_is_made_of_the_configuration_and_the_status() {
    let registration = RegistrationConfig {
        cortexd_url: "http://o".to_string(),
        node_id: "n-1".to_string(),
        heartbeat_interval_secs: 30,
    };
    let server = ServerConfig { bind: "10.0.0.1".to_string(), port: 9000 };
    let status = vec![
        ("linux".to_string(), "healthy".to_string()),
        ("redis".to_string(), "failed".to_string()),
    ];
    let payload =
        RegisterPayload::for_node(&registration, &server, Some("box".to_string()), &status);
    assert_eq!(payload.node_id, "n-1");
    assert_eq!(payload.hostname, "box");
    assert_eq!(payload.ip_address, "10.0.0.1");
    assert_eq!(payload.port, 9000);
    assert_eq!(payload.capabilities, vec!["linux".to_string(), "redis".to_string()]);

    let nameless = RegisterPayload::for_node(&registration, &server, None, &vec![]);
    assert_eq!(nameless.hostname, "unknown");
    assert!(nameless.capabilities.is_empty());

    assert_eq!(hostname_from(Some("  box\n".to_string())), Some("box".to_string()));
    assert_eq!(hostname_from(None), None);
    assert_eq!(server.bind_address(), "10.0.0.1:9000");
}

#[test]
fn a_registration_fails_unless_the_status_is_a_success() {
    assert_eq!(registration_result(true, "200 OK", ""), Ok(()));
    assert_eq!(
        registration_result(false, "503 Service Unavailable", "try later"),
        Err("Registration failed: 503 Service Unavailable \u{2014} try later".to_string())
    );
    assert_eq!(REGISTER_TIMEOUT_SECS, 10);
    assert_eq!(DEREGISTER_TIMEOUT_SECS, 5);
    assert_eq!(HEARTBEAT_TIMEOUT_SECS, 5);
}

#[test]
fn test_heartbeat_shutdown() {
    assert_eq!(
        heartbeat_step(HeartbeatState::Waiting, HeartbeatEvent::Cancelled),
        (HeartbeatState::Stopped, HeartbeatAction::Stop)
    );
    for event in [
        HeartbeatEvent::Tick,
        HeartbeatEvent::Cancelled,
        HeartbeatEvent::Reported(HeartbeatReport::Accepted),
    ] {
        assert_eq!(
            heartbeat_step(HeartbeatState::Stopped, event),
            (HeartbeatState::Stopped, HeartbeatAction::Stop)
        );
    }
}

#[test]
fn no_report_stops_the_heartbeat() {
    assert_eq!(
        heartbeat_step(HeartbeatState::Waiting, HeartbeatEvent::Tick),
        (HeartbeatState::Waiting, HeartbeatAction::Send)
    );
    for answer in [Some(true), Some(false), None] {
        let report = heartbeat_report(answer);
        assert_eq!(
            heartbeat_step(HeartbeatState::Waiting, HeartbeatEvent::Reported(report)),
            (HeartbeatState::Waiting, HeartbeatAction::Wait)
        );
    }
    assert_eq!(heartbeat_report(Some(true)), HeartbeatReport::Accepted);
    assert_eq!(heartbeat_report(Some(false)), HeartbeatReport::Rejected);
    assert_eq!(heartbeat_report(None), HeartbeatReport::Unreachable);
    assert_eq!(
        node_payload("n-1"),
        Json::Object(vec![("node_id".to_string(), Json::Str("n-1".to_string()))])
    );
}
