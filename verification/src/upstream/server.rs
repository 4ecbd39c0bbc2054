//! The upstream handler: it answers with the aggregated catalog and routes
//! every call through the federation manager. It has no tools of its own.

use crate::engine::provider::{tool_views, Tool};
use crate::federation::manager::{catalog_of, FederationManager, GatewayError, RoutedCall};
use crate::json::{Json, JsonValue};
use std::sync::Arc;
use vstd::prelude::*;

verus! {

/// The name under which the gateway reports itself.
pub const SERVER_NAME: &'static str = "neurond";

/// The version that the gateway reports.
pub const SERVER_VERSION: &'static str = "0.1.0";

/// The identity that the gateway reports to its upstream caller.
#[derive(Debug)]
pub struct ServerInfo {
    pub name: String,
    pub title: Option<String>,
    pub version: String,
    pub description: Option<String>,
    pub instructions: Option<String>,
}

/// The arguments that are routed: the given ones, or the empty object where
/// none are given.
pub open spec fn routed_arguments(arguments: Option<Json>) -> JsonValue {
    match arguments {
        Some(given) => given@,
        None => JsonValue::Object(Seq::empty()),
    }
}

/// The handler that the gateway exposes upstream.
pub struct ProxyEngine<C, H> {
    federation: Arc<FederationManager<C, H>>,
}

impl<C, H> Clone for ProxyEngine<C, H> {
    fn clone(&self) -> (r: Self)
        ensures
            r.federation() == self.federation(),
    {
        ProxyEngine { federation: self.federation.clone() }
    }
}

impl<C, H> ProxyEngine<C, H> {
    /// The federation manager behind the handler.
    pub closed spec fn federation(&self) -> FederationManager<C, H> {
        *self.federation
    }

    /// A handler over `federation`.
    pub fn new(federation: Arc<FederationManager<C, H>>) -> (r: Self)
        ensures
            r.federation() == *federation,
    {
        ProxyEngine { federation }
    }

    /// The gateway's identity: fixed metadata.
    pub fn get_info(&self) -> (r: ServerInfo)
        ensures
            r.name@ == SERVER_NAME@,
            r.version@ == SERVER_VERSION@,
            r.title is Some && r.title->0@ == "neurond Federation Proxy"@,
            r.description is Some && r.description->0@
                == "Routes tool calls to downstream MCP servers"@,
            r.instructions is Some && r.instructions->0@
                == "neurond federation proxy \u{2014} routes tool calls to downstream MCP servers"@,
    {
        ServerInfo {
            name: SERVER_NAME.to_owned(),
            title: Some("neurond Federation Proxy".to_owned()),
            version: SERVER_VERSION.to_owned(),
            description: Some("Routes tool calls to downstream MCP servers".to_owned()),
            instructions: Some(
                "neurond federation proxy \u{2014} routes tool calls to downstream MCP servers"
                    .to_owned(),
            ),
        }
    }

    /// The aggregated catalog of the federation.
    pub fn list_tools(&self) -> (r: Vec<Tool>)
        ensures
            tool_views(r@) == catalog_of(self.federation()@),
    {
        self.federation.list_all_tools()
    }

    /// Routes a call through the federation. Arguments that are not given
    /// count as the empty object.
    pub fn call_tool(&self, name: &str, arguments: Option<Json>) -> (r: Result<
        RoutedCall,
        GatewayError,
    >)
        ensures
            self.federation().routes(name@, routed_arguments(arguments), r),
    {
        let arguments = match arguments {
            Some(given) => given,
            None => Json::empty_object(),
        };
        self.federation.route_tool_call(name, arguments)
    }
}

} // verus!
