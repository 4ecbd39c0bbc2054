use neurond::engine::provider::{Provider, ProviderError, Tool, ToolType};
use neurond::engine::registry::ProviderRegistry;
use neurond::json::Json;
use neurond::transport::mcp::{
    call_outcome, describe_tool, initialize_descriptor, is_blank, list_result, wrap_text,
    CallParams, ErrorCode, JsonRpcRequest, JsonRpcResponse, McpTransport,
};

struct TestProvider;

impl Provider for TestProvider {
    fn namespace(&self) -> &str {
        "test"
    }

    fn tools(&self) -> Vec<Tool> {
        vec![Tool {
            name: "test.echo".into(),
            description: "Echo parameters".into(),
            input_schema: Json::Object(vec![]),
            tool_type: ToolType::Observable,
        }]
    }

    fn call(&self, tool: &str, params: Json) -> Result<Json, ProviderError> {
        if tool == "test.echo" {
            Ok(params)
        } else {
            Err(ProviderError::NotFound(tool.into()))
        }
    }
}

fn one() -> Json {
    Json::Number(serde_json::Number::from(1u64))
}

#[test]
fn test_mcp_initialize() {
    let registry: ProviderRegistry<Box<dyn Provider>> = ProviderRegistry::new();
    let mcp = McpTransport::new(&registry);
    let req = JsonRpcRequest {
        jsonrpc: "2.0".into(),
        id: Some(one()),
        method: "initialize".into(),
        params: Json::Null,
    };
    let res = mcp.handle_request(req).unwrap();
    assert_eq!(res.id, one());
    assert!(res.error.is_none());
    let result = res.result.unwrap();
    assert_eq!(
        result.get("protocolVersion"),
        Some(&Json::Str("2024-11-05".to_string()))
    );
    assert_eq!(
        result.get("serverInfo").unwrap().get("name"),
        Some(&Json::Str("cortexd".to_string()))
    );
}

#[test]
fn test_mcp_tools_list() {
    let mut registry: ProviderRegistry<Box<dyn Provider>> = ProviderRegistry::new();
    registry.register(Box::new(TestProvider));
    let mcp = McpTransport::new(&registry);

    let req = JsonRpcRequest {
        jsonrpc: "2.0".into(),
        id: Some(one()),
        method: "tools/list".into(),
        params: Json::Null,
    };
    let res = mcp.handle_request(req).unwrap();
    let tools = match res.result.unwrap().get("tools") {
        Some(Json::Array(items)) => items.clone(),
        _ => panic!("tools is not an array"),
    };
    assert_eq!(tools.len(), 1);
    assert_eq!(tools[0].get("name"), Some(&Json::Str("test.echo".to_string())));
}

#[test]
fn test_mcp_tools_call() {
    let mut registry: ProviderRegistry<Box<dyn Provider>> = ProviderRegistry::new();
    registry.register(Box::new(TestProvider));
    let mcp = McpTransport::new(&registry);

    let req = JsonRpcRequest {
        jsonrpc: "2.0".into(),
        id: Some(one()),
        method: "tools/call".into(),
        params: Json::Object(vec![
            ("name".to_string(), Json::Str("test.echo".to_string())),
            (
                "arguments".to_string(),
                Json::Object(vec![("hello".to_string(), Json::Str("world".to_string()))]),
            ),
        ]),
    };

    let res = mcp.handle_request(req).unwrap();
    let content = match res.result.unwrap().get("content") {
        Some(Json::Array(items)) => items.clone(),
        _ => panic!("content is not an array"),
    };
    assert_eq!(content[0].get("type"), Some(&Json::Str("text".to_string())));
    assert_eq!(
        content[0].get("text"),
        Some(&Json::Str("{\"hello\":\"world\"}".to_string()))
    );
}

struct InfoProvider;

impl Provider for InfoProvider {
    fn namespace(&self) -> &str {
        "system"
    }

    fn tools(&self) -> Vec<Tool> {
        vec![Tool {
            name: "system.info".into(),
            description: "Get system info".into(),
            input_schema: Json::Object(vec![("type".to_string(), text("object"))]),
            tool_type: ToolType::Observable,
        }]
    }

    fn call(&self, tool: &str, params: Json) -> Result<Json, ProviderError> {
        match tool {
            "system.info" => Ok(object(vec![("asked", params), ("os", text("linux"))])),
            "system.fail" => Err(ProviderError::Execution("disk on fire".to_string())),
            _ => Err(ProviderError::NotFound(tool.to_string())),
        }
    }
}

fn text(s: &str) -> Json {
    Json::Str(s.to_string())
}

fn object(entries: Vec<(&str, Json)>) -> Json {
    Json::Object(entries.into_iter().map(|(k, v)| (k.to_string(), v)).collect())
}

fn request(id: Option<Json>, method: &str, params: Json) -> JsonRpcRequest {
    JsonRpcRequest { jsonrpc: "2.0".to_string(), id, method: method.to_string(), params }
}

fn envelope(text_of_item: &str, is_error: bool) -> Json {
    object(vec![
        (
            "content",
            Json::Array(vec![object(vec![("type", text("text")), ("text", text(text_of_item))])]),
        ),
        ("isError", Json::Bool(is_error)),
    ])
}

fn info_registry() -> ProviderRegistry<InfoProvider> {
    let mut registry = ProviderRegistry::new();
    registry.register(InfoProvider);
    registry
}

#[test]
fn a_call_through_the_protocol_gives_what_the_provider_gives() {
    let registry = info_registry();
    let mcp = McpTransport::new(&registry);

    let listed = mcp.handle_request(request(Some(one()), "tools/list", Json::Null)).unwrap();
    let listed = listed.result.unwrap();
    let name = match listed.get("tools") {
        Some(Json::Array(tools)) => tools[0].get("name").unwrap().as_str().unwrap().to_string(),
        _ => panic!("tools is not an array"),
    };
    assert_eq!(name, "system.info");

    let direct = InfoProvider.call(&name, Json::Object(vec![])).unwrap();
    let res = mcp
        .handle_request(request(Some(one()), "tools/call", object(vec![("name", text(&name))])))
        .unwrap();
    assert!(res.error.is_none());
    let result = res.result.unwrap();
    assert_eq!(result.get("isError"), Some(&Json::Bool(false)));
    let written = match result.get("content") {
        Some(Json::Array(items)) => items[0].get("text").unwrap().as_str().unwrap().to_string(),
        _ => panic!("content is not an array"),
    };
    assert_eq!(written, direct.to_text());
    assert_eq!(Json::parse(&written), Some(direct));
    assert_eq!(written, "{\"asked\":{},\"os\":\"linux\"}");
}

#[test]
fn a_notification_gets_no_response() {
    let registry = info_registry();
    let mcp = McpTransport::new(&registry);
    for method in ["initialize", "tools/list", "tools/call", "anything"] {
        assert!(mcp.handle_request(request(None, method, Json::Null)).is_none());
        assert!(mcp.answer_line(Ok(request(None, method, Json::Null))).is_none());
    }
}

#[test]
fn an_unknown_method_is_a_protocol_error() {
    let registry = info_registry();
    let mcp = McpTransport::new(&registry);
    let res = mcp.handle_request(request(Some(text("abc")), "tools/delete", Json::Null)).unwrap();
    assert_eq!(res.jsonrpc, "2.0");
    assert_eq!(res.id, text("abc"));
    assert!(res.result.is_none());
    let error = res.error.unwrap();
    assert_eq!(error.code, -32601);
    assert_eq!(error.message, "Method not found");
    assert!(error.data.is_none());
}

#[test]
fn malformed_parameters_are_a_protocol_error() {
    let registry = info_registry();
    let mcp = McpTransport::new(&registry);
    let cases = vec![
        (Json::Null, "Invalid params: invalid type: expected an object"),
        (Json::Array(vec![text("system.info")]), "Invalid params: invalid type: expected an object"),
        (object(vec![]), "Invalid params: missing field `name`"),
        (object(vec![("arguments", object(vec![]))]), "Invalid params: missing field `name`"),
        (
            object(vec![("name", one())]),
            "Invalid params: invalid type for field `name`: expected a string",
        ),
    ];
    for (params, message) in cases {
        let res = mcp.handle_request(request(Some(one()), "tools/call", params)).unwrap();
        assert_eq!(res.id, one());
        assert!(res.result.is_none());
        let error = res.error.unwrap();
        assert_eq!(error.code, -32602);
        assert_eq!(error.code, ErrorCode::InvalidParams.as_i32());
        assert_eq!(error.message, message);
    }
}

#[test]
fn a_tool_that_fails_is_reported_inside_a_successful_response() {
    let registry = info_registry();
    let mcp = McpTransport::new(&registry);
    let cases = vec![
        ("system.fail", "Execution(\"disk on fire\")"),
        ("system.nothing", "NotFound(\"system.nothing\")"),
        ("other.tool", "NotFound(\"other.tool\")"),
        ("nodot", "NotFound(\"nodot\")"),
    ];
    for (name, written) in cases {
        let res = mcp
            .handle_request(request(Some(one()), "tools/call", object(vec![("name", text(name))])))
            .unwrap();
        assert!(res.error.is_none());
        assert_eq!(res.result, Some(envelope(written, true)));
    }
}

#[test]
fn arguments_that_are_not_given_are_the_empty_object() {
    let mut registry: ProviderRegistry<Box<dyn Provider>> = ProviderRegistry::new();
    registry.register(Box::new(TestProvider));
    let mcp = McpTransport::new(&registry);
    let res = mcp
        .handle_request(request(Some(one()), "tools/call", object(vec![("name", text("test.echo"))])))
        .unwrap();
    assert_eq!(res.result, Some(envelope("{}", false)));

    let res = mcp
        .handle_request(request(
            Some(one()),
            "tools/call",
            object(vec![("name", text("test.echo")), ("arguments", Json::Null)]),
        ))
        .unwrap();
    assert_eq!(res.result, Some(envelope("null", false)));

    assert_eq!(
        CallParams::decode(&object(vec![("name", text("t")), ("extra", one())]))
            .map(|p| (p.name, p.arguments)),
        Ok(("t".to_string(), Json::Object(vec![])))
    );
}

#[test]
fn initialize_gives_the_fixed_descriptor() {
    let registry = info_registry();
    let mcp = McpTransport::new(&registry);
    let res = mcp.handle_request(request(Some(one()), "initialize", text("ignored"))).unwrap();
    assert_eq!(res.result, Some(initialize_descriptor()));
    assert_eq!(
        initialize_descriptor().to_text(),
        "{\"capabilities\":{\"tools\":{\"listChanged\":true}},\"protocolVersion\":\"2024-11-05\",\"serverInfo\":{\"name\":\"cortexd\",\"version\":\"0.1.0\"}}"
    );
}

#[test]
fn a_tool_is_listed_with_name_description_and_schema() {
    let tools = InfoProvider.tools();
    assert_eq!(
        describe_tool(&tools[0]),
        object(vec![
            ("name", text("system.info")),
            ("description", text("Get system info")),
            ("inputSchema", object(vec![("type", text("object"))])),
        ])
    );
    assert_eq!(
        list_result(&tools),
        object(vec![("tools", Json::Array(vec![describe_tool(&tools[0])]))])
    );
    assert_eq!(list_result(&vec![]), object(vec![("tools", Json::Array(vec![]))]));
    let registry = info_registry();
    let mcp = McpTransport::new(&registry);
    let res = mcp.handle_request(request(Some(one()), "tools/list", Json::Null)).unwrap();
    assert_eq!(res.result, Some(list_result(&tools)));
}

#[test]
fn the_envelope_carries_the_text_and_the_flag() {
    assert_eq!(wrap_text("hello".to_string(), false), envelope("hello", false));
    assert_eq!(call_outcome(&Ok(one())), envelope("1", false));
    assert_eq!(
        call_outcome(&Err(ProviderError::NotFound("a.b".to_string()))),
        envelope("NotFound(\"a.b\")", true)
    );
}

#[test]
fn a_line_that_is_no_request_gets_a_parse_error_without_an_id() {
    let registry = info_registry();
    let mcp = McpTransport::new(&registry);
    let res = mcp.answer_line(Err("expected value at line 1 column 1".to_string())).unwrap();
    assert_eq!(res.id, Json::Null);
    assert!(res.result.is_none());
    let error = res.error.unwrap();
    assert_eq!(error.code, -32700);
    assert_eq!(error.message, "Parse error: expected value at line 1 column 1");

    let answered = mcp.answer_line(Ok(request(Some(one()), "initialize", Json::Null))).unwrap();
    assert_eq!(answered.result, Some(initialize_descriptor()));
}

#[test]
fn a_blank_line_is_passed_over() {
    assert!(is_blank(""));
    assert!(is_blank("   "));
    assert!(is_blank("\t\r\n"));
    assert!(is_blank("\u{a0}\u{3000}"));
    assert!(!is_blank("{}"));
    assert!(!is_blank("  x  "));
    assert!(!is_blank("\u{200b}"));
    for sample in ["", " ", "a", " \u{85} ", "\u{feff}"] {
        assert_eq!(is_blank(sample), sample.trim().is_empty());
    }
}

#[test]
fn the_error_codes_are_those_of_json_rpc() {
    assert_eq!(ErrorCode::ParseError.as_i32(), -32700);
    assert_eq!(ErrorCode::InvalidRequest.as_i32(), -32600);
    assert_eq!(ErrorCode::MethodNotFound.as_i32(), -32601);
    assert_eq!(ErrorCode::InvalidParams.as_i32(), -32602);
    assert_eq!(ErrorCode::InternalError.as_i32(), -32603);
    let ok = JsonRpcResponse::success(one(), Json::Null);
    assert_eq!(ok.jsonrpc, "2.0");
    assert_eq!(ok.result, Some(Json::Null));
    assert!(ok.error.is_none());
    let failed = JsonRpcResponse::error(Json::Null, ErrorCode::InternalError, "boom".to_string());
    assert_eq!(failed.error.unwrap().code, -32603);
}
