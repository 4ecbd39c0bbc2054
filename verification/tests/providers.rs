use neurond::engine::provider::{ProviderError, ToolType};
use neurond::json::Json;
use neurond::providers::log::{LogProvider, LogQuery};
use neurond::providers::process::{ProcessProvider, ProcessQuery, SortKey};
use neurond::providers::service::{ServiceProvider, ServiceQuery};
use neurond::providers::system::{SystemProvider, SystemQuery};

fn object(entries: Vec<(&str, Json)>) -> Json {
    Json::Object(entries.into_iter().map(|(k, v)| (k.to_string(), v)).collect())
}

fn text(s: &str) -> Json {
    Json::Str(s.to_string())
}

fn number(n: u64) -> Json {
    Json::Number(serde_json::Number::from(n))
}

#[test]
fn test_log_provider_namespace() {
    let provider = LogProvider;
    assert_eq!(provider.namespace(), "log");
}

#[test]
fn test_log_provider_tools() {
    let provider = LogProvider;
    let tools = provider.tools();
    assert_eq!(tools.len(), 2);
    let names: Vec<_> = tools.iter().map(|t| t.name.as_str()).collect();
    assert!(names.contains(&"log.tail"));
    assert!(names.contains(&"log.search"));
}

#[test]
fn test_process_provider_namespace() {
    let provider = ProcessProvider;
    assert_eq!(provider.namespace(), "process");
}

#[test]
fn test_process_provider_tools() {
    let provider = ProcessProvider;
    let tools = provider.tools();
    assert_eq!(tools.len(), 2);
    let names: Vec<_> = tools.iter().map(|t| t.name.as_str()).collect();
    assert!(names.contains(&"process.list"));
    assert!(names.contains(&"process.top"));
}

#[test]
fn test_service_provider_namespace() {
    let provider = ServiceProvider;
    assert_eq!(provider.namespace(), "service");
}

#[test]
fn test_service_provider_tools() {
    let provider = ServiceProvider;
    let tools = provider.tools();
    assert_eq!(tools.len(), 3);
    let names: Vec<_> = tools.iter().map(|t| t.name.as_str()).collect();
    assert!(names.contains(&"service.list"));
    assert!(names.contains(&"service.status"));
    assert!(names.contains(&"service.logs"));
}

#[test]
fn test_system_provider_namespace() {
    let provider = SystemProvider;
    assert_eq!(provider.namespace(), "system");
}

#[test]
fn test_system_provider_tools() {
    let provider = SystemProvider;
    let tools = provider.tools();
    assert_eq!(tools.len(), 5);
    let names: Vec<_> = tools.iter().map(|t| t.name.as_str()).collect();
    assert!(names.contains(&"system.info"));
    assert!(names.contains(&"system.cpu"));
    assert!(names.contains(&"system.memory"));
    assert!(names.contains(&"system.disk"));
    assert!(names.contains(&"system.uptime"));
    assert!(tools.iter().all(|t| t.tool_type == ToolType::Observable));
}

#[test]
fn test_system_provider_call_not_found() {
    let provider = SystemProvider;
    let res = provider.request("system.doesnotexist");
    assert!(matches!(res, Err(ProviderError::NotFound(_))));
    assert_eq!(
        res,
        Err(ProviderError::NotFound("system.doesnotexist".to_string()))
    );
}

#[test]
fn every_tool_is_named_under_its_provider() {
    let catalogs = vec![
        (SystemProvider.namespace(), SystemProvider.tools()),
        (ServiceProvider.namespace(), ServiceProvider.tools()),
        (ProcessProvider.namespace(), ProcessProvider.tools()),
        (LogProvider.namespace(), LogProvider.tools()),
    ];
    for (namespace, tools) in catalogs {
        assert!(!namespace.is_empty());
        assert!(!namespace.contains('.'));
        for tool in tools {
            assert_eq!(tool.name.split('.').next(), Some(namespace));
            assert!(!tool.description.is_empty());
            assert_eq!(tool.input_schema.get("type"), Some(&text("object")));
            assert!(tool.input_schema.get("properties").is_some());
        }
    }
}

#[test]
fn the_schemas_name_their_parameters() {
    let tools = ServiceProvider.tools();
    assert_eq!(
        tools[2].input_schema,
        object(vec![
            ("type", text("object")),
            (
                "properties",
                object(vec![
                    (
                        "name",
                        object(vec![
                            ("type", text("string")),
                            ("description", text("The unit name, e.g. nginx.service")),
                        ])
                    ),
                    (
                        "lines",
                        object(vec![
                            ("type", text("integer")),
                            ("description", text("Number of lines to return (default 50)")),
                        ])
                    ),
                ])
            ),
            ("required", Json::Array(vec![text("name")])),
        ])
    );
    assert_eq!(tools[0].input_schema.get("required"), None);
    assert_eq!(
        tools[1].description,
        "Unit detail: state, PID, memory, CPU, started_at"
    );

    let top = &ProcessProvider.tools()[1];
    let sort_by = top.input_schema.get("properties").unwrap().get("sort_by").unwrap();
    assert_eq!(sort_by.get("enum"), Some(&Json::Array(vec![text("cpu"), text("memory")])));

    let search = &LogProvider.tools()[1];
    assert_eq!(search.input_schema.get("required"), Some(&Json::Array(vec![text("keyword")])));
    let system = SystemProvider.tools();
    assert_eq!(
        system[0].input_schema,
        object(vec![("type", text("object")), ("properties", object(vec![]))])
    );
}

#[test]
fn a_system_call_asks_for_what_its_tool_reads() {
    let provider = SystemProvider;
    assert_eq!(provider.request("system.info"), Ok(SystemQuery::Info));
    assert_eq!(provider.request("system.cpu"), Ok(SystemQuery::Cpu));
    assert_eq!(provider.request("system.memory"), Ok(SystemQuery::Memory));
    assert_eq!(provider.request("system.disk"), Ok(SystemQuery::Disk));
    assert_eq!(provider.request("system.uptime"), Ok(SystemQuery::Uptime));
    assert_eq!(
        provider.request("system"),
        Err(ProviderError::NotFound("system".to_string()))
    );
}

#[test]
fn a_service_call_needs_its_unit() {
    let provider = ServiceProvider;
    let none = object(vec![]);
    assert_eq!(provider.request("service.list", &none), Ok(ServiceQuery::List));
    assert_eq!(
        provider.request("service.status", &none),
        Err(ProviderError::Execution("Missing required parameter: name".to_string()))
    );
    assert_eq!(
        provider.request("service.status", &object(vec![("name", number(3))])),
        Err(ProviderError::Execution("Missing required parameter: name".to_string()))
    );
    assert_eq!(
        provider.request("service.status", &object(vec![("name", text("nginx.service"))])),
        Ok(ServiceQuery::Status { name: "nginx.service".to_string() })
    );
    assert_eq!(
        provider.request("service.logs", &object(vec![("name", text("nginx.service"))])),
        Ok(ServiceQuery::Logs { name: "nginx.service".to_string(), lines: 50 })
    );
    assert_eq!(
        provider.request(
            "service.logs",
            &object(vec![("name", text("sshd")), ("lines", number(7))])
        ),
        Ok(ServiceQuery::Logs { name: "sshd".to_string(), lines: 7 })
    );
    assert_eq!(
        provider.request("service.logs", &Json::Null),
        Err(ProviderError::Execution("Missing required parameter: name".to_string()))
    );
    assert_eq!(
        provider.request("service.restart", &none),
        Err(ProviderError::NotFound("service.restart".to_string()))
    );
    assert_eq!(
        provider.logs("sshd", 7),
        object(vec![
            ("unit", text("sshd")),
            ("entries", Json::Array(vec![text("Journal stub for sshd (lines: 7)")])),
        ])
    );
    assert_eq!(
        provider.logs("a", 18446744073709551615).get("entries"),
        Some(&Json::Array(vec![text("Journal stub for a (lines: 18446744073709551615)")]))
    );
    assert_eq!(
        provider.logs("a", 0).get("entries"),
        Some(&Json::Array(vec![text("Journal stub for a (lines: 0)")]))
    );
}

#[test]
fn a_log_call_has_its_defaults() {
    let provider = LogProvider;
    assert_eq!(
        provider.request("log.tail", &object(vec![])),
        Ok(LogQuery::Tail { unit: None, lines: 50 })
    );
    assert_eq!(
        provider.request(
            "log.tail",
            &object(vec![("unit", text("sshd")), ("lines", number(5))])
        ),
        Ok(LogQuery::Tail { unit: Some("sshd".to_string()), lines: 5 })
    );
    assert_eq!(
        provider.request("log.tail", &object(vec![("lines", text("five"))])),
        Ok(LogQuery::Tail { unit: None, lines: 50 })
    );
    assert_eq!(
        provider.request("log.search", &object(vec![("since", text("yesterday"))])),
        Err(ProviderError::Execution("Missing required parameter: keyword".to_string()))
    );
    assert_eq!(
        provider.request(
            "log.search",
            &object(vec![
                ("keyword", text("oom")),
                ("since", text("yesterday")),
                ("priority", text("err")),
            ])
        ),
        Ok(LogQuery::Search {
            keyword: "oom".to_string(),
            since: Some("yesterday".to_string()),
            priority: Some("err".to_string()),
        })
    );
    assert_eq!(
        provider.request("log.follow", &object(vec![])),
        Err(ProviderError::NotFound("log.follow".to_string()))
    );
}

#[test]
fn a_process_call_orders_by_memory_unless_told_otherwise() {
    let provider = ProcessProvider;
    assert_eq!(provider.request("process.list", &Json::Null), Ok(ProcessQuery::List));
    assert_eq!(
        provider.request("process.top", &object(vec![])),
        Ok(ProcessQuery::Top { by: SortKey::Memory, limit: 10 })
    );
    assert_eq!(
        provider.request(
            "process.top",
            &object(vec![("sort_by", text("memory")), ("limit", number(3))])
        ),
        Ok(ProcessQuery::Top { by: SortKey::Memory, limit: 3 })
    );
    assert_eq!(
        provider.request("process.top", &object(vec![("sort_by", text("cpu"))])),
        Ok(ProcessQuery::Top { by: SortKey::Cpu, limit: 10 })
    );
    assert_eq!(
        provider.request("process.top", &object(vec![("sort_by", text("anything"))])),
        Ok(ProcessQuery::Top { by: SortKey::Cpu, limit: 10 })
    );
    assert_eq!(
        provider.request("process.kill", &object(vec![])),
        Err(ProviderError::NotFound("process.kill".to_string()))
    );
}
