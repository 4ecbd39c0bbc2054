use neurond::config::{DownstreamServer, DownstreamTransport};
use neurond::engine::provider::{Tool, ToolType};
use neurond::federation::manager::{FederationManager, GatewayError};
use neurond::federation::transport::ConnectOutcome;
use neurond::json::Json;
use neurond::upstream::server::ProxyEngine;
use std::sync::Arc;

#[test]
fn test_proxy_engine_info() {
    let mgr: Arc<FederationManager<u32, ()>> = Arc::new(FederationManager::new());
    let engine = ProxyEngine::new(mgr);
    let info = engine.get_info();
    assert_eq!(info.name, "neurond");
}

#[test]
fn test_proxy_engine_list_tools_empty() {
    let mgr: Arc<FederationManager<u32, ()>> = Arc::new(FederationManager::new());
    let engine = ProxyEngine::new(mgr);
    let tools = engine.list_tools();
    assert!(tools.is_empty());
}

#[test]
fn test_proxy_engine_route_unknown_tool() {
    let mgr: Arc<FederationManager<u32, ()>> = Arc::new(FederationManager::new());
    let result = mgr.route_tool_call("unknown.tool", Json::Object(vec![]));
    assert!(result.is_err());
}

#[test]
fn the_identity_is_fixed() {
    let mgr: Arc<FederationManager<u32, ()>> = Arc::new(FederationManager::new());
    let engine = ProxyEngine::new(mgr);
    let info = engine.get_info();
    assert_eq!(info.title, Some("neurond Federation Proxy".to_string()));
    assert_eq!(info.version, "0.1.0");
    assert_eq!(
        info.description,
        Some("Routes tool calls to downstream MCP servers".to_string())
    );
    assert_eq!(
        info.instructions,
        Some(
            "neurond federation proxy \u{2014} routes tool calls to downstream MCP servers"
                .to_string()
        )
    );
}

#[test]
fn the_handler_serves_the_catalog_and_routes_through_the_federation() {
    let mut mgr: FederationManager<u32, ()> = FederationManager::new();
    mgr.add_downstream(
        &DownstreamServer {
            namespace: "linux".to_string(),
            transport: DownstreamTransport::Localhost { url: "http://h/mcp".to_string() },
            expose: vec![],
            healthcheck_interval_secs: 30,
        },
        ConnectOutcome::Connected {
            client: 3,
            tools: vec![Tool {
                name: "system.cpu".to_string(),
                description: "cpu".to_string(),
                input_schema: Json::Object(vec![]),
                tool_type: ToolType::Observable,
            }],
        },
    );
    let engine = ProxyEngine::new(Arc::new(mgr));
    let copy = engine.clone();
    let tools = copy.list_tools();
    assert_eq!(tools.len(), 1);
    assert_eq!(tools[0].name, "linux.system.cpu");

    let call = engine.call_tool("linux.system.cpu", None).unwrap();
    assert_eq!(call.tool, "system.cpu");
    assert_eq!(call.arguments, Some(Json::Object(vec![])));

    let given = Json::Object(vec![("core".to_string(), Json::Bool(true))]);
    let call = engine.call_tool("linux.system.cpu", Some(given.clone())).unwrap();
    assert_eq!(call.arguments, Some(given));

    assert_eq!(
        engine.call_tool("redis.get", None).unwrap_err(),
        GatewayError::NotFound { tool: "redis.get".to_string() }
    );
}
