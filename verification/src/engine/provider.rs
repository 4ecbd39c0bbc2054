//! Tools, and the contract between the dispatch engine and a capability
//! provider.

use crate::json::{Json, JsonValue};
use crate::text::{join, join3};
use vstd::prelude::*;

verus! {

/// Why a tool call gave no value.
#[derive(Debug, PartialEq, Eq)]
pub enum ProviderError {
    /// The tool ran and failed.
    Execution(String),
    /// No such tool is known.
    NotFound(String),
}

/// The mathematical value of a [`ProviderError`].
pub ghost enum ProviderFailure {
    Execution(Seq<char>),
    NotFound(Seq<char>),
}

/// The text that `{:?}` writes for a string slice: the string between double
/// quotes, with its special characters escaped.
pub uninterp spec fn debug_quoted(s: Seq<char>) -> Seq<char>;

/// `Debug` of `str`, through `format!`.
#[verifier::external_body]
fn quote_debug(s: &str) -> (r: String)
    ensures
        r@ == debug_quoted(s@),
{
    format!("{:?}", s)
}

impl View for ProviderError {
    type V = ProviderFailure;

    open spec fn view(&self) -> ProviderFailure {
        match self {
            ProviderError::Execution(msg) => ProviderFailure::Execution(msg@),
            ProviderError::NotFound(msg) => ProviderFailure::NotFound(msg@),
        }
    }
}

impl ProviderFailure {
    /// The sentence that reports the failure to a person.
    pub open spec fn message(self) -> Seq<char> {
        match self {
            ProviderFailure::Execution(msg) => "Execution error: "@ + msg,
            ProviderFailure::NotFound(msg) => "Tool not found: "@ + msg,
        }
    }

    /// The failure as `{:?}` writes it: the variant's name, and its message
    /// quoted in round brackets.
    pub open spec fn debug_text(self) -> Seq<char> {
        match self {
            ProviderFailure::Execution(msg) => "Execution("@ + debug_quoted(msg) + ")"@,
            ProviderFailure::NotFound(msg) => "NotFound("@ + debug_quoted(msg) + ")"@,
        }
    }
}

impl ProviderError {
    /// The sentence that reports the failure to a person.
    pub fn message(&self) -> (r: String)
        ensures
            r@ == self@.message(),
    {
        match self {
            ProviderError::Execution(msg) => join("Execution error: ", msg.as_str()),
            ProviderError::NotFound(msg) => join("Tool not found: ", msg.as_str()),
        }
    }

    /// The failure as `{:?}` writes it.
    pub fn debug_text(&self) -> (r: String)
        ensures
            r@ == self@.debug_text(),
    {
        match self {
            ProviderError::Execution(msg) => {
                let quoted = quote_debug(msg.as_str());
                join3("Execution(", quoted.as_str(), ")")
            },
            ProviderError::NotFound(msg) => {
                let quoted = quote_debug(msg.as_str());
                join3("NotFound(", quoted.as_str(), ")")
            },
        }
    }
}

/// The view of what a call gave: the value, or the failure.
pub open spec fn outcome_view(r: Result<Json, ProviderError>) -> Result<
    JsonValue,
    ProviderFailure,
> {
    match r {
        Ok(value) => Ok(value@),
        Err(e) => Err(e@),
    }
}

/// Whether a tool only observes the host or acts on it.
#[derive(Debug, Clone, Copy, PartialEq, Eq, Structural)]
pub enum ToolType {
    /// Read-only.
    Observable,
    /// Changes state.
    Actionable,
}

/// A named operation with a declared input schema.
#[derive(Debug)]
pub struct Tool {
    pub name: String,
    pub description: String,
    pub input_schema: Json,
    pub tool_type: ToolType,
}

/// The mathematical value of a [`Tool`].
pub ghost struct ToolView {
    pub name: Seq<char>,
    pub description: Seq<char>,
    pub input_schema: JsonValue,
    pub tool_type: ToolType,
}

impl View for Tool {
    type V = ToolView;

    open spec fn view(&self) -> ToolView {
        ToolView {
            name: self.name@,
            description: self.description@,
            input_schema: self.input_schema@,
            tool_type: self.tool_type,
        }
    }
}

impl Clone for Tool {
    fn clone(&self) -> (r: Self)
        ensures
            r@ == self@,
    {
        Tool {
            name: self.name.clone(),
            description: self.description.clone(),
            input_schema: self.input_schema.clone(),
            tool_type: self.tool_type,
        }
    }
}

/// The views of a sequence of tools, in order.
pub open spec fn tool_views(tools: Seq<Tool>) -> Seq<ToolView> {
    tools.map_values(|t: Tool| t@)
}

/// A namespace is not empty and holds no dot.
pub open spec fn valid_namespace(namespace: Seq<char>) -> bool {
    namespace.len() > 0 && !namespace.contains('.')
}

/// A tool name belongs to `namespace`: it is the namespace, a dot, and a
/// local name.
pub open spec fn owned_by(name: Seq<char>, namespace: Seq<char>) -> bool {
    name.len() > namespace.len() && name.take(namespace.len() as int) == namespace
        && name[namespace.len() as int] == '.'
}

/// One namespace's tools and the code that runs them.
///
/// What an implementation gives is described by three relations. Each admits
/// everything unless the implementation says more, so that a provider that
/// reads the host, or one that is not verified, promises nothing that it
/// may not keep.
pub trait Provider: Send + Sync {
    /// Whether `namespace` is something that `namespace` may give.
    open spec fn names(&self, namespace: Seq<char>) -> bool {
        true
    }

    /// Whether `tools` is something that `tools` may give.
    open spec fn offers(&self, tools: Seq<ToolView>) -> bool {
        true
    }

    /// Whether `outcome` is something that a call of `tool` with `params` may
    /// give.
    open spec fn gives(
        &self,
        tool: Seq<char>,
        params: JsonValue,
        outcome: Result<JsonValue, ProviderFailure>,
    ) -> bool {
        true
    }

    /// The namespace prefix: stable, not empty, without a dot.
    fn namespace(&self) -> (r: &str)
        ensures
            self.names(r@),
    ;

    /// All tools that this provider offers.
    fn tools(&self) -> (r: Vec<Tool>)
        ensures
            self.offers(tool_views(r@)),
    ;

    /// Runs the tool with the fully qualified name `tool`.
    fn call(&self, tool: &str, params: Json) -> (r: Result<Json, ProviderError>)
        ensures
            self.gives(tool@, params@, outcome_view(r)),
    ;
}

/// A boxed provider is the provider in the box.
impl<T: Provider + ?Sized> Provider for Box<T> {
    open spec fn names(&self, namespace: Seq<char>) -> bool {
        (**self).names(namespace)
    }

    open spec fn offers(&self, tools: Seq<ToolView>) -> bool {
        (**self).offers(tools)
    }

    open spec fn gives(
        &self,
        tool: Seq<char>,
        params: JsonValue,
        outcome: Result<JsonValue, ProviderFailure>,
    ) -> bool {
        (**self).gives(tool, params, outcome)
    }

    fn namespace(&self) -> (r: &str) {
        (**self).namespace()
    }

    fn tools(&self) -> (r: Vec<Tool>) {
        (**self).tools()
    }

    fn call(&self, tool: &str, params: Json) -> (r: Result<Json, ProviderError>) {
        (**self).call(tool, params)
    }
}

} // verus!
