use neurond::engine::provider::{Tool, ToolType};
use neurond::federation::namespace::{
    namespace_tools, prefix_tool_name, resolve_namespace, strip_namespace,
};
use neurond::json::Json;

#[test]
fn test_prefix_tool_name() {
    assert_eq!(prefix_tool_name("linux", "system.cpu"), "linux.system.cpu");
    assert_eq!(prefix_tool_name("redis", "get"), "redis.get");
}

#[test]
fn test_strip_namespace() {
    assert_eq!(
        strip_namespace("linux", "linux.system.cpu"),
        Some("system.cpu".to_string())
    );
    assert_eq!(strip_namespace("linux", "redis.get"), None);
    assert_eq!(strip_namespace("linux", "linux"), None); // no trailing dot
}

#[test]
fn test_namespace_tools() {
    let tools = vec![Tool {
        name: "system.cpu".into(),
        description: "Get CPU usage".into(),
        input_schema: Json::Object(vec![("type".to_string(), Json::Str("object".to_string()))]),
        tool_type: ToolType::Observable,
    }];
    let namespaced = namespace_tools("linux", &tools);
    assert_eq!(namespaced[0].name, "linux.system.cpu");
}

#[test]
fn test_resolve_namespace() {
    let namespaces = vec!["linux".to_string(), "redis".to_string()];
    let (ns, local) = resolve_namespace(&namespaces, "linux.system.cpu").unwrap();
    assert_eq!(ns, "linux");
    assert_eq!(local, "system.cpu");

    let (ns, local) = resolve_namespace(&namespaces, "redis.get").unwrap();
    assert_eq!(ns, "redis");
    assert_eq!(local, "get");

    assert!(resolve_namespace(&namespaces, "unknown.tool").is_none());
}

#[test]
fn resolve_prefers_the_longest_namespace() {
    let namespaces = vec!["linux".to_string(), "linux.docker".to_string()];
    let (ns, local) = resolve_namespace(&namespaces, "linux.docker.status").unwrap();
    assert_eq!(ns, "linux.docker");
    assert_eq!(local, "status");

    let namespaces = vec!["linux.docker".to_string(), "linux".to_string()];
    let (ns, local) = resolve_namespace(&namespaces, "linux.docker.status").unwrap();
    assert_eq!(ns, "linux.docker");
    assert_eq!(local, "status");

    let (ns, local) = resolve_namespace(&namespaces, "linux.system.cpu").unwrap();
    assert_eq!(ns, "linux");
    assert_eq!(local, "system.cpu");
}

#[test]
fn strip_handles_edges() {
    assert_eq!(strip_namespace("linux", "linux."), Some(String::new()));
    assert_eq!(strip_namespace("", ".x"), Some("x".to_string()));
    assert_eq!(strip_namespace("linux", "linuxx.cpu"), None);
    assert_eq!(strip_namespace("linux", "lin"), None);
    assert_eq!(strip_namespace("größe", "größe.maß"), Some("maß".to_string()));
}
