//! The request/response protocol of a node agent: `initialize`, `tools/list`
//! and `tools/call` over messages of JSON-RPC 2.0.

use crate::engine::provider::{
    outcome_view, tool_views, Provider, ProviderError, ProviderFailure, Tool, ToolView,
};
use crate::engine::registry::ProviderRegistry;
use crate::json::{entry, json_text, optional_json, Json, JsonValue};
use crate::text::{char_is_space, chars_of, is_space, join, text_eq};
use vstd::prelude::*;

verus! {

/// The error codes of JSON-RPC 2.0.
#[derive(Debug, Clone, Copy, PartialEq, Eq, Structural)]
pub enum ErrorCode {
    ParseError,
    InvalidRequest,
    MethodNotFound,
    InvalidParams,
    InternalError,
}

impl ErrorCode {
    /// The number that stands for the code on the wire.
    pub open spec fn number(self) -> int {
        match self {
            ErrorCode::ParseError => -32700,
            ErrorCode::InvalidRequest => -32600,
            ErrorCode::MethodNotFound => -32601,
            ErrorCode::InvalidParams => -32602,
            ErrorCode::InternalError => -32603,
        }
    }

    /// The number that stands for the code on the wire.
    pub fn as_i32(self) -> (r: i32)
        ensures
            r == self.number(),
    {
        match self {
            ErrorCode::ParseError => -32700,
            ErrorCode::InvalidRequest => -32600,
            ErrorCode::MethodNotFound => -32601,
            ErrorCode::InvalidParams => -32602,
            ErrorCode::InternalError => -32603,
        }
    }
}

/// The parameters of `tools/call`.
#[derive(Debug)]
pub struct CallParams {
    pub name: String,
    pub arguments: Json,
}

/// A request. One without an `id` is a notification.
#[derive(Debug)]
pub struct JsonRpcRequest {
    pub jsonrpc: String,
    pub id: Option<Json>,
    pub method: String,
    pub params: Json,
}

/// The error of a response.
#[derive(Debug)]
pub struct JsonRpcError {
    pub code: i32,
    pub message: String,
    pub data: Option<Json>,
}

/// A response: it carries either a result or an error.
#[derive(Debug)]
pub struct JsonRpcResponse {
    pub jsonrpc: String,
    pub id: Json,
    pub result: Option<Json>,
    pub error: Option<JsonRpcError>,
}

/// The mathematical value of a [`JsonRpcError`].
pub ghost struct ErrorView {
    pub code: int,
    pub message: Seq<char>,
    pub data: Option<JsonValue>,
}

/// The mathematical value of a [`JsonRpcResponse`].
pub ghost struct ResponseView {
    pub jsonrpc: Seq<char>,
    pub id: JsonValue,
    pub result: Option<JsonValue>,
    pub error: Option<ErrorView>,
}

impl View for JsonRpcError {
    type V = ErrorView;

    open spec fn view(&self) -> ErrorView {
        ErrorView {
            code: self.code as int,
            message: self.message@,
            data: optional_json(self.data),
        }
    }
}

impl View for JsonRpcResponse {
    type V = ResponseView;

    open spec fn view(&self) -> ResponseView {
        ResponseView {
            jsonrpc: self.jsonrpc@,
            id: self.id@,
            result: optional_json(self.result),
            error: match self.error {
                Some(e) => Some(e@),
                None => None,
            },
        }
    }
}

/// The response that carries `result`.
pub open spec fn success_view(id: JsonValue, result: JsonValue) -> ResponseView {
    ResponseView { jsonrpc: "2.0"@, id, result: Some(result), error: None }
}

/// The response that carries the error `code` with `message`.
pub open spec fn error_view(id: JsonValue, code: ErrorCode, message: Seq<char>) -> ResponseView {
    ResponseView {
        jsonrpc: "2.0"@,
        id,
        result: None,
        error: Some(ErrorView { code: code.number(), message, data: None }),
    }
}

/// The fixed descriptor that answers `initialize`.
pub open spec fn initialize_result() -> JsonValue {
    JsonValue::Object(
        seq![
            ("protocolVersion"@, JsonValue::Str("2024-11-05"@)),
            (
                "capabilities"@,
                JsonValue::Object(
                    seq![
                        (
                            "tools"@,
                            JsonValue::Object(seq![("listChanged"@, JsonValue::Bool(true))]),
                        ),
                    ],
                ),
            ),
            (
                "serverInfo"@,
                JsonValue::Object(
                    seq![
                        ("name"@, JsonValue::Str("cortexd"@)),
                        ("version"@, JsonValue::Str("0.1.0"@)),
                    ],
                ),
            ),
        ],
    )
}

/// A tool as `tools/list` shows it: its name, description and input schema.
pub open spec fn tool_entry(tool: ToolView) -> JsonValue {
    JsonValue::Object(
        seq![
            ("name"@, JsonValue::Str(tool.name)),
            ("description"@, JsonValue::Str(tool.description)),
            ("inputSchema"@, tool.input_schema),
        ],
    )
}

/// The result of `tools/list` for the given tools.
pub open spec fn tools_result(tools: Seq<ToolView>) -> JsonValue {
    JsonValue::Object(
        seq![("tools"@, JsonValue::Array(tools.map_values(|t: ToolView| tool_entry(t))))],
    )
}

/// The content envelope: one text item, and whether the tool failed.
pub open spec fn envelope(text: Seq<char>, is_error: bool) -> JsonValue {
    JsonValue::Object(
        seq![
            (
                "content"@,
                JsonValue::Array(
                    seq![
                        JsonValue::Object(
                            seq![("type"@, JsonValue::Str("text"@)), ("text"@, JsonValue::Str(text))],
                        ),
                    ],
                ),
            ),
            ("isError"@, JsonValue::Bool(is_error)),
        ],
    )
}

/// The result of `tools/call` for what the call gave: the text of the value,
/// or the failure as `{:?}` writes it, flagged as an error.
pub open spec fn call_result(outcome: Result<JsonValue, ProviderFailure>) -> JsonValue {
    match outcome {
        Ok(value) => envelope(json_text(value), false),
        Err(e) => envelope(e.debug_text(), true),
    }
}

/// The name and arguments that the parameters of `tools/call` hold, or what
/// is wrong with them. The parameters are an object with a string under
/// `name`; `arguments`, where missing, are the empty object.
pub open spec fn decode_call_params(params: JsonValue) -> Result<(Seq<char>, JsonValue), Seq<char>> {
    match params {
        JsonValue::Object(_) => match params.field("name"@) {
            Some(JsonValue::Str(name)) => Ok(
                (
                    name,
                    match params.field("arguments"@) {
                        Some(arguments) => arguments,
                        None => JsonValue::Object(Seq::empty()),
                    },
                ),
            ),
            Some(_) => Err("invalid type for field `name`: expected a string"@),
            None => Err("missing field `name`"@),
        },
        _ => Err("invalid type: expected an object"@),
    }
}

/// The view of decoded parameters.
pub open spec fn decoded_view(r: Result<CallParams, String>) -> Result<(Seq<char>, JsonValue), Seq<char>> {
    match r {
        Ok(p) => Ok((p.name@, p.arguments@)),
        Err(msg) => Err(msg@),
    }
}

impl CallParams {
    /// Reads the parameters of `tools/call`.
    pub fn decode(params: &Json) -> (r: Result<CallParams, String>)
        ensures
            decoded_view(r) == decode_call_params(params@),
    {
        if !params.is_object() {
            return Err("invalid type: expected an object".to_owned());
        }
        match params.get("name") {
            None => Err("missing field `name`".to_owned()),
            Some(name) => match name.as_str() {
                None => Err("invalid type for field `name`: expected a string".to_owned()),
                Some(name) => {
                    let arguments = match params.get("arguments") {
                        Some(arguments) => arguments.clone(),
                        None => Json::empty_object(),
                    };
                    Ok(CallParams { name: name.to_owned(), arguments })
                },
            },
        }
    }
}

impl JsonRpcResponse {
    /// The response that carries `result`.
    pub fn success(id: Json, result: Json) -> (r: Self)
        ensures
            r@ == success_view(id@, result@),
    {
        JsonRpcResponse { jsonrpc: "2.0".to_owned(), id, result: Some(result), error: None }
    }

    /// The response that carries the error `code` with `message`.
    pub fn error(id: Json, code: ErrorCode, message: String) -> (r: Self)
        ensures
            r@ == error_view(id@, code, message@),
    {
        JsonRpcResponse {
            jsonrpc: "2.0".to_owned(),
            id,
            result: None,
            error: Some(JsonRpcError { code: code.as_i32(), message, data: None }),
        }
    }
}

/// The fixed descriptor that answers `initialize`.
pub fn initialize_descriptor() -> (r: Json)
    ensures
        r@ == initialize_result(),
{
    let list_changed = Json::object(vec![entry("listChanged", Json::Bool(true))]);
    assert(list_changed@->Object_0 =~= seq![("listChanged"@, JsonValue::Bool(true))]);
    let capabilities = Json::object(vec![entry("tools", list_changed)]);
    assert(capabilities@->Object_0 =~= seq![("tools"@, list_changed@)]);
    let server_info = Json::object(
        vec![entry("name", Json::text("cortexd")), entry("version", Json::text("0.1.0"))],
    );
    assert(server_info@->Object_0 =~= seq![
        ("name"@, JsonValue::Str("cortexd"@)),
        ("version"@, JsonValue::Str("0.1.0"@)),
    ]);
    let r = Json::object(
        vec![
            entry("protocolVersion", Json::text("2024-11-05")),
            entry("capabilities", capabilities),
            entry("serverInfo", server_info),
        ],
    );
    assert(r@->Object_0 =~= seq![
        ("protocolVersion"@, JsonValue::Str("2024-11-05"@)),
        ("capabilities"@, capabilities@),
        ("serverInfo"@, server_info@),
    ]);
    r
}

/// A tool as `tools/list` shows it.
pub fn describe_tool(tool: &Tool) -> (r: Json)
    ensures
        r@ == tool_entry(tool@),
{
    let r = Json::object(
        vec![
            entry("name", Json::text(tool.name.as_str())),
            entry("description", Json::text(tool.description.as_str())),
            entry("inputSchema", tool.input_schema.clone()),
        ],
    );
    assert(r@->Object_0 =~= tool_entry(tool@)->Object_0);
    r
}

/// The result of `tools/list` for the given tools.
pub fn list_result(tools: &Vec<Tool>) -> (r: Json)
    ensures
        r@ == tools_result(tool_views(tools@)),
{
    let mut items: Vec<Json> = Vec::new();
    let mut i: usize = 0;
    while i < tools.len()
        invariant
            i <= tools.len(),
            items.len() == i,
            forall|k: int| 0 <= k < i ==> items@[k]@ == tool_entry(tools@[k]@),
        decreases tools.len() - i,
    {
        items.push(describe_tool(&tools[i]));
        i += 1;
    }
    let list = Json::array(items);
    assert(list@->Array_0 =~= tool_views(tools@).map_values(|t: ToolView| tool_entry(t)));
    let r = Json::object(vec![entry("tools", list)]);
    assert(r@->Object_0 =~= tools_result(tool_views(tools@))->Object_0);
    r
}

/// The content envelope around `text`.
pub fn wrap_text(text: String, is_error: bool) -> (r: Json)
    ensures
        r@ == envelope(text@, is_error),
{
    let item = Json::object(vec![entry("type", Json::text("text")), entry("text", Json::Str(text))]);
    assert(item@->Object_0 =~= seq![("type"@, JsonValue::Str("text"@)), ("text"@, JsonValue::Str(text@))]);
    let content = Json::array(vec![item]);
    assert(content@->Array_0 =~= seq![item@]);
    let r = Json::object(vec![entry("content", content), entry("isError", Json::Bool(is_error))]);
    assert(r@->Object_0 =~= envelope(text@, is_error)->Object_0);
    r
}

/// The result of `tools/call` for what the call gave. A failure of the tool
/// is no protocol error: it is reported inside the envelope.
pub fn call_outcome(outcome: &Result<Json, ProviderError>) -> (r: Json)
    ensures
        r@ == call_result(outcome_view(*outcome)),
{
    match outcome {
        Ok(value) => wrap_text(value.to_text(), false),
        Err(e) => wrap_text(e.debug_text(), true),
    }
}

/// A line that holds nothing but white space.
pub open spec fn blank(line: Seq<char>) -> bool {
    forall|i: int| 0 <= i < line.len() ==> is_space(#[trigger] line[i])
}

/// Whether a line of input holds nothing but white space. The serving loop
/// passes over such a line.
pub fn is_blank(line: &str) -> (r: bool)
    ensures
        r == blank(line@),
{
    let chars = chars_of(line);
    let mut i: usize = 0;
    while i < chars.len()
        invariant
            i <= chars.len(),
            chars@ == line@,
            forall|k: int| 0 <= k < i ==> is_space(#[trigger] line@[k]),
        decreases chars.len() - i,
    {
        if !char_is_space(chars[i]) {
            return false;
        }
        i += 1;
    }
    true
}

/// The protocol engine over a registry of providers.
pub struct McpTransport<'a, P: Provider> {
    registry: &'a ProviderRegistry<P>,
}

impl<'a, P: Provider> McpTransport<'a, P> {
    /// The registry that the engine serves.
    pub closed spec fn registry(&self) -> &ProviderRegistry<P> {
        self.registry
    }

    /// Whether `response` answers a `tools/call` request: malformed parameters
    /// get a protocol error; a call gets the envelope of something that the
    /// registry may give for it.
    pub open spec fn answers_call(&self, id: JsonValue, params: JsonValue, response: ResponseView) -> bool {
        match decode_call_params(params) {
            Ok(call) => exists|outcome: Result<JsonValue, ProviderFailure>|
                #[trigger] self.registry().may_return(call.0, call.1, outcome) && response
                    == success_view(id, call_result(outcome)),
            Err(msg) => response == error_view(
                id,
                ErrorCode::InvalidParams,
                "Invalid params: "@ + msg,
            ),
        }
    }

    /// Whether `response` answers a request with the given `id`, `method` and
    /// `params`.
    pub open spec fn answers(
        &self,
        id: JsonValue,
        method: Seq<char>,
        params: JsonValue,
        response: ResponseView,
    ) -> bool {
        if method == "initialize"@ {
            response == success_view(id, initialize_result())
        } else if method == "tools/list"@ {
            exists|tools: Seq<ToolView>| #[trigger]
                self.registry().lists(tools) && response == success_view(id, tools_result(tools))
        } else if method == "tools/call"@ {
            self.answers_call(id, params, response)
        } else {
            response == error_view(id, ErrorCode::MethodNotFound, "Method not found"@)
        }
    }

    /// An engine over `registry`.
    pub fn new(registry: &'a ProviderRegistry<P>) -> (r: Self)
        ensures
            r.registry() == registry,
    {
        McpTransport { registry }
    }

    /// Whether `response` is what goes back for a line of input, given what
    /// reading the line as a request gave: the answer to the request, nothing
    /// for a notification, and a parse error without an `id` for a line that is
    /// no request.
    pub open spec fn replies(
        &self,
        parsed: Result<JsonRpcRequest, String>,
        response: Option<JsonRpcResponse>,
    ) -> bool {
        match parsed {
            Ok(req) => match req.id {
                None => response is None,
                Some(id) => response is Some && self.answers(
                    id@,
                    req.method@,
                    req.params@,
                    response->0@,
                ),
            },
            Err(reason) => response is Some && response->0@ == error_view(
                JsonValue::Null,
                ErrorCode::ParseError,
                "Parse error: "@ + reason@,
            ),
        }
    }

    /// What goes back for one line of input that is not blank, given what
    /// reading the line as a request gave. Each line is handled to its end
    /// before the next one is read, and gets at most one response.
    pub fn answer_line(&self, parsed: Result<JsonRpcRequest, String>) -> (r: Option<
        JsonRpcResponse,
    >)
        ensures
            self.replies(parsed, r),
    {
        match parsed {
            Ok(req) => self.handle_request(req),
            Err(reason) => Some(
                JsonRpcResponse::error(
                    Json::Null,
                    ErrorCode::ParseError,
                    join("Parse error: ", reason.as_str()),
                ),
            ),
        }
    }

    /// Handles one request. A notification gets no response; every other
    /// request gets exactly one, with the request's `id`.
    pub fn handle_request(&self, req: JsonRpcRequest) -> (r: Option<JsonRpcResponse>)
        ensures
            match req.id {
                None => r is None,
                Some(id) => r is Some && self.answers(id@, req.method@, req.params@, r->0@),
            },
    {
        let id = match req.id {
            None => {
                return None;
            },
            Some(id) => id,
        };
        let ghost id_view = id@;
        if text_eq(req.method.as_str(), "initialize") {
            let response = JsonRpcResponse::success(id, initialize_descriptor());
            assert(self.answers(id_view, req.method@, req.params@, response@));
            Some(response)
        } else if text_eq(req.method.as_str(), "tools/list") {
            let tools = self.registry.list_tools();
            let response = JsonRpcResponse::success(id, list_result(&tools));
            assert(self.registry().lists(tool_views(tools@)) && response@ == success_view(
                id_view,
                tools_result(tool_views(tools@)),
            ));
            assert(self.answers(id_view, req.method@, req.params@, response@));
            Some(response)
        } else if text_eq(req.method.as_str(), "tools/call") {
            match CallParams::decode(&req.params) {
                Ok(call_params) => {
                    let ghost name = call_params.name@;
                    let ghost arguments = call_params.arguments@;
                    let outcome = self.registry.call_tool(
                        call_params.name.as_str(),
                        call_params.arguments,
                    );
                    let response = JsonRpcResponse::success(id, call_outcome(&outcome));
                    let ghost call = decode_call_params(req.params@)->Ok_0;
                    assert(call == (name, arguments));
                    assert(self.registry().may_return(call.0, call.1, outcome_view(outcome))
                        && response@ == success_view(id_view, call_result(outcome_view(outcome))));
                    assert(self.answers_call(id_view, req.params@, response@));
                    Some(response)
                },
                Err(msg) => {
                    let response = JsonRpcResponse::error(
                        id,
                        ErrorCode::InvalidParams,
                        join("Invalid params: ", msg.as_str()),
                    );
                    assert(decode_call_params(req.params@) == Err::<(Seq<char>, JsonValue), Seq<char>>(msg@));
                    assert(self.answers_call(id_view, req.params@, response@));
                    Some(response)
                },
            }
        } else {
            let response = JsonRpcResponse::error(
                id,
                ErrorCode::MethodNotFound,
                "Method not found".to_owned(),
            );
            assert(self.answers(id_view, req.method@, req.params@, response@));
            Some(response)
        }
    }
}

/// A call through the protocol gives what the provider gives. Where the
/// provider that owns the tool can give nothing but `value` for the call, the
/// response to `tools/call` carries the text of `value` in its envelope, not
/// flagged as an error.
pub proof fn lemma_call_gives_the_providers_value<'a, P: Provider>(
    engine: McpTransport<'a, P>,
    id: JsonValue,
    params: JsonValue,
    name: Seq<char>,
    arguments: JsonValue,
    owner: int,
    value: JsonValue,
    response: ResponseView,
)
    requires
        decode_call_params(params) == Ok::<(Seq<char>, JsonValue), Seq<char>>((name, arguments)),
        engine.registry().owner(name) == Some(owner),
        forall|outcome: Result<JsonValue, ProviderFailure>|
            #[trigger] engine.registry()@[owner].provider.gives(name, arguments, outcome) ==> outcome
                == Ok::<JsonValue, ProviderFailure>(value),
        engine.answers(id, "tools/call"@, params, response),
    ensures
        response == success_view(id, envelope(json_text(value), false)),
{
    reveal_strlit("tools/call");
    reveal_strlit("tools/list");
    reveal_strlit("initialize");
    assert("tools/call"@[0] != "initialize"@[0]);
    assert("tools/call"@[6] != "tools/list"@[6]);
    assert(engine.answers_call(id, params, response));
    let outcome = choose|outcome: Result<JsonValue, ProviderFailure>|
        #[trigger] engine.registry().may_return(name, arguments, outcome) && response == success_view(
            id,
            call_result(outcome),
        );
    assert(engine.registry()@[owner].provider.gives(name, arguments, outcome));
}

/// A tool that no provider owns is reported as not found inside a successful
/// response: the envelope is flagged as an error, and no protocol error is
/// raised.
pub proof fn lemma_unowned_tool_is_reported_in_the_envelope<'a, P: Provider>(
    engine: McpTransport<'a, P>,
    id: JsonValue,
    params: JsonValue,
    name: Seq<char>,
    arguments: JsonValue,
    response: ResponseView,
)
    requires
        decode_call_params(params) == Ok::<(Seq<char>, JsonValue), Seq<char>>((name, arguments)),
        engine.registry().owner(name) is None,
        engine.answers(id, "tools/call"@, params, response),
    ensures
        response == success_view(id, envelope(ProviderFailure::NotFound(name).debug_text(), true)),
        response.error is None,
{
    reveal_strlit("tools/call");
    reveal_strlit("tools/list");
    reveal_strlit("initialize");
    assert("tools/call"@[0] != "initialize"@[0]);
    assert("tools/call"@[6] != "tools/list"@[6]);
    assert(engine.answers_call(id, params, response));
}

} // verus!
