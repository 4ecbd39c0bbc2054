use neurond::engine::provider::{Provider, ProviderError, Tool, ToolType};
use neurond::engine::registry::ProviderRegistry;
use neurond::json::Json;

struct MockSystemProvider;

impl Provider for MockSystemProvider {
    fn namespace(&self) -> &str {
        "system"
    }

    fn tools(&self) -> Vec<Tool> {
        vec![Tool {
            name: "system.info".to_string(),
            description: "Get system info".to_string(),
            input_schema: Json::Object(vec![]),
            tool_type: ToolType::Observable,
        }]
    }

    fn call(&self, tool: &str, _params: Json) -> Result<Json, ProviderError> {
        match tool {
            "system.info" => Ok(Json::Object(vec![(
                "os".to_string(),
                Json::Str("linux".to_string()),
            )])),
            _ => Err(ProviderError::NotFound(tool.to_string())),
        }
    }
}

#[test]
fn test_registry_list_tools() {
    let mut registry: ProviderRegistry<Box<dyn Provider>> = ProviderRegistry::new();
    registry.register(Box::new(MockSystemProvider));

    let tools = registry.list_tools();
    assert_eq!(tools.len(), 1, "Should list exactly 1 tool");
    assert_eq!(tools[0].name, "system.info");
}

#[test]
fn test_registry_call_tool() {
    let mut registry: ProviderRegistry<Box<dyn Provider>> = ProviderRegistry::new();
    registry.register(Box::new(MockSystemProvider));

    let result = registry.call_tool("system.info", Json::Object(vec![]));
    assert_eq!(
        result.unwrap(),
        Json::Object(vec![("os".to_string(), Json::Str("linux".to_string()))])
    );
}

#[test]
fn test_registry_call_unknown_tool() {
    let mut registry: ProviderRegistry<Box<dyn Provider>> = ProviderRegistry::new();
    registry.register(Box::new(MockSystemProvider));

    let result = registry.call_tool("system.unknown", Json::Object(vec![]));
    assert!(matches!(result, Err(ProviderError::NotFound(_))));

    let result = registry.call_tool("unknown.tool", Json::Object(vec![]));
    assert!(matches!(result, Err(ProviderError::NotFound(_))));
}

struct Named {
    namespace: &'static str,
    tools: Vec<&'static str>,
    answer: u64,
}

impl Provider for Named {
    fn namespace(&self) -> &str {
        self.namespace
    }

    fn tools(&self) -> Vec<Tool> {
        self.tools
            .iter()
            .map(|name| Tool {
                name: name.to_string(),
                description: String::new(),
                input_schema: Json::Object(vec![]),
                tool_type: ToolType::Actionable,
            })
            .collect()
    }

    fn call(&self, tool: &str, _params: Json) -> Result<Json, ProviderError> {
        if self.tools.contains(&tool) {
            Ok(Json::from_u64(self.answer))
        } else {
            Err(ProviderError::Execution(format!("{} cannot run {}", self.namespace, tool)))
        }
    }
}

fn names(tools: &[Tool]) -> Vec<String> {
    tools.iter().map(|t| t.name.clone()).collect()
}

#[test]
fn tools_are_listed_in_registration_order() {
    let mut registry = ProviderRegistry::new();
    registry.register(Named { namespace: "zeta", tools: vec!["zeta.a", "zeta.b"], answer: 1 });
    registry.register(Named { namespace: "alpha", tools: vec![], answer: 2 });
    registry.register(Named { namespace: "mid", tools: vec!["mid.x"], answer: 3 });
    assert_eq!(names(&registry.list_tools()), vec!["zeta.a", "zeta.b", "mid.x"]);
    for tool in registry.list_tools() {
        let head = tool.name.split('.').next().unwrap();
        assert!(["zeta", "alpha", "mid"].contains(&head));
    }
}

#[test]
fn a_namespace_has_one_provider_and_the_later_one_takes_its_place() {
    let mut registry = ProviderRegistry::new();
    registry.register(Named { namespace: "a", tools: vec!["a.one"], answer: 1 });
    registry.register(Named { namespace: "b", tools: vec!["b.one"], answer: 2 });
    registry.register(Named { namespace: "a", tools: vec!["a.two"], answer: 3 });
    assert_eq!(names(&registry.list_tools()), vec!["a.two", "b.one"]);
    assert_eq!(registry.call_tool("a.two", Json::Null), Ok(Json::from_u64(3)));
    assert_eq!(
        registry.call_tool("a.one", Json::Null),
        Err(ProviderError::Execution("a cannot run a.one".to_string()))
    );
}

#[test]
fn a_call_goes_to_the_provider_before_the_first_dot() {
    let mut registry = ProviderRegistry::new();
    registry.register(Named { namespace: "sys", tools: vec!["sys.a.b"], answer: 7 });
    assert_eq!(registry.call_tool("sys.a.b", Json::Null), Ok(Json::from_u64(7)));
    assert_eq!(
        registry.call_tool("sys.", Json::Null),
        Err(ProviderError::Execution("sys cannot run sys.".to_string()))
    );
    for name in ["sys", "", ".sys", "system.a", "sy.s.a", "SYS.a"] {
        assert_eq!(
            registry.call_tool(name, Json::Null),
            Err(ProviderError::NotFound(name.to_string()))
        );
    }
}

#[test]
fn a_failure_reads_as_a_sentence_and_as_a_value() {
    let not_found = ProviderError::NotFound("a.b".to_string());
    assert_eq!(not_found.message(), "Tool not found: a.b");
    assert_eq!(not_found.debug_text(), "NotFound(\"a.b\")");
    assert_eq!(not_found.debug_text(), format!("{:?}", not_found));
    let failed = ProviderError::Execution("it \"broke\"\n".to_string());
    assert_eq!(failed.message(), "Execution error: it \"broke\"\n");
    assert_eq!(failed.debug_text(), "Execution(\"it \\\"broke\\\"\\n\")");
    assert_eq!(failed.debug_text(), format!("{:?}", failed));
}
