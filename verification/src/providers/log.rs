//! The provider of the `log` namespace: the journal.

use crate::engine::provider::{
    owned_by, tool_views, valid_namespace, ProviderError, ProviderFailure, Tool, ToolView,
};
use crate::json::{entry, entry_views, Json, JsonValue};
use crate::providers::{
    get_number_or, get_string, make_object_schema, make_object_schema_requiring, make_observable,
    make_property, number_or, object_schema, object_schema_requiring, observable, property,
    string_at,
};
use crate::text::{optional_text, text_eq};
use vstd::prelude::*;

verus! {

/// The provider of the `log` namespace.
pub struct LogProvider;

/// What a call of a `log` tool asks for.
#[derive(Debug, PartialEq, Eq)]
pub enum LogQuery {
    /// The last `lines` entries, of one unit where one is given.
    Tail { unit: Option<String>, lines: u64 },
    /// The entries that hold `keyword`.
    Search { keyword: String, since: Option<String>, priority: Option<String> },
}

/// The mathematical value of a [`LogQuery`].
pub ghost enum LogAsk {
    Tail { unit: Option<Seq<char>>, lines: u64 },
    Search { keyword: Seq<char>, since: Option<Seq<char>>, priority: Option<Seq<char>> },
}

impl View for LogQuery {
    type V = LogAsk;

    open spec fn view(&self) -> LogAsk {
        match self {
            LogQuery::Tail { unit, lines } => LogAsk::Tail {
                unit: optional_text(*unit),
                lines: *lines,
            },
            LogQuery::Search { keyword, since, priority } => LogAsk::Search {
                keyword: keyword@,
                since: optional_text(*since),
                priority: optional_text(*priority),
            },
        }
    }
}

/// The view of a query or of the failure to make one.
pub open spec fn asked(r: Result<LogQuery, ProviderError>) -> Result<LogAsk, ProviderFailure> {
    match r {
        Ok(query) => Ok(query@),
        Err(e) => Err(e@),
    }
}

impl LogProvider {
    /// The parameters of `log.tail`.
    pub open spec fn tail_properties() -> Seq<(Seq<char>, JsonValue)> {
        seq![
            (
                "unit"@,
                property("string"@, "Optional unit name to filter by (e.g. nginx.service)"@),
            ),
            ("lines"@, property("integer"@, "Number of lines to tail (default 50)"@)),
        ]
    }

    /// The parameters of `log.search`.
    pub open spec fn search_properties() -> Seq<(Seq<char>, JsonValue)> {
        seq![
            ("keyword"@, property("string"@, "Keyword to search for in message body"@)),
            ("since"@, property("string"@, "Time range (e.g. '1 hour ago', 'yesterday')"@)),
            ("priority"@, property("string"@, "Min priority (e.g. 'err', 'warning', 'info')"@)),
        ]
    }

    /// The tools of the namespace.
    pub open spec fn catalog() -> Seq<ToolView> {
        seq![
            observable(
                "log.tail"@,
                "Last N journal entries, optionally filtered by unit"@,
                object_schema(Self::tail_properties()),
            ),
            observable(
                "log.search"@,
                "Search journal by keyword, time range, priority"@,
                object_schema_requiring(Self::search_properties(), "keyword"@),
            ),
        ]
    }

    /// What a call of `tool` with `params` asks for. The number of lines is 50
    /// where none is given; a search requires its keyword. A tool that the
    /// namespace does not have gives the `NotFound` failure that carries its
    /// name.
    pub open spec fn asks(tool: Seq<char>, params: JsonValue) -> Result<LogAsk, ProviderFailure> {
        if tool == "log.tail"@ {
            Ok(
                LogAsk::Tail {
                    unit: string_at(params, "unit"@),
                    lines: number_or(params, "lines"@, 50),
                },
            )
        } else if tool == "log.search"@ {
            match string_at(params, "keyword"@) {
                Some(keyword) => Ok(
                    LogAsk::Search {
                        keyword,
                        since: string_at(params, "since"@),
                        priority: string_at(params, "priority"@),
                    },
                ),
                None => Err(ProviderFailure::Execution("Missing required parameter: keyword"@)),
            }
        } else {
            Err(ProviderFailure::NotFound(tool))
        }
    }

    /// The namespace.
    pub fn namespace(&self) -> (r: &'static str)
        ensures
            r@ == "log"@,
    {
        "log"
    }

    /// The tools of the namespace.
    pub fn tools(&self) -> (r: Vec<Tool>)
        ensures
            tool_views(r@) == Self::catalog(),
    {
        let tail = vec![
            entry(
                "unit",
                make_property("string", "Optional unit name to filter by (e.g. nginx.service)"),
            ),
            entry("lines", make_property("integer", "Number of lines to tail (default 50)")),
        ];
        assert(entry_views(tail@) =~= Self::tail_properties());
        let search = vec![
            entry("keyword", make_property("string", "Keyword to search for in message body")),
            entry("since", make_property("string", "Time range (e.g. '1 hour ago', 'yesterday')")),
            entry(
                "priority",
                make_property("string", "Min priority (e.g. 'err', 'warning', 'info')"),
            ),
        ];
        assert(entry_views(search@) =~= Self::search_properties());
        let r = vec![
            make_observable(
                "log.tail",
                "Last N journal entries, optionally filtered by unit",
                make_object_schema(tail),
            ),
            make_observable(
                "log.search",
                "Search journal by keyword, time range, priority",
                make_object_schema_requiring(search, "keyword"),
            ),
        ];
        assert(tool_views(r@) =~= Self::catalog());
        r
    }

    /// What a call of `tool` with `params` asks for.
    pub fn request(&self, tool: &str, params: &Json) -> (r: Result<LogQuery, ProviderError>)
        ensures
            asked(r) == Self::asks(tool@, params@),
    {
        if text_eq(tool, "log.tail") {
            Ok(
                LogQuery::Tail {
                    unit: get_string(params, "unit"),
                    lines: get_number_or(params, "lines", 50),
                },
            )
        } else if text_eq(tool, "log.search") {
            match get_string(params, "keyword") {
                Some(keyword) => Ok(
                    LogQuery::Search {
                        keyword,
                        since: get_string(params, "since"),
                        priority: get_string(params, "priority"),
                    },
                ),
                None => Err(
                    ProviderError::Execution("Missing required parameter: keyword".to_owned()),
                ),
            }
        } else {
            Err(ProviderError::NotFound(tool.to_owned()))
        }
    }
}

/// The namespace is valid, and every tool of the catalog is named under it.
pub proof fn lemma_log_catalog_is_namespaced()
    ensures
        valid_namespace("log"@),
        forall|i: int|
            0 <= i < LogProvider::catalog().len() ==> owned_by(
                #[trigger] LogProvider::catalog()[i].name,
                "log"@,
            ),
{
    reveal_strlit("log");
    reveal_strlit("log.tail");
    reveal_strlit("log.search");
    let namespace = "log"@;
    assert(!namespace.contains('.')) by {
        assert forall|k: int| 0 <= k < namespace.len() implies namespace[k] != '.' by {}
    }
    assert("log.tail"@.take(3) =~= namespace);
    assert("log.search"@.take(3) =~= namespace);
}

} // verus!
