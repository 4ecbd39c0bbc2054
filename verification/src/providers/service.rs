//! The provider of the `service` namespace: the units of the service manager.

use crate::engine::provider::{
    owned_by, tool_views, valid_namespace, ProviderError, ProviderFailure, Tool, ToolView,
};
use crate::json::{entry, entry_views, Json, JsonValue};
use crate::providers::{
    get_number_or, get_string, make_object_schema, make_object_schema_requiring, make_observable,
    make_property, number_or, object_schema, object_schema_requiring, observable, property,
    string_at,
};
use crate::text::{decimal_digits, decimal_text, join3, text_eq};
use vstd::prelude::*;

verus! {

/// The provider of the `service` namespace.
pub struct ServiceProvider;

/// What a call of a `service` tool asks for.
#[derive(Debug, PartialEq, Eq)]
pub enum ServiceQuery {
    /// All service units.
    List,
    /// The status of one unit.
    Status { name: String },
    /// The last `lines` journal entries of one unit.
    Logs { name: String, lines: u64 },
}

/// The mathematical value of a [`ServiceQuery`].
pub ghost enum ServiceAsk {
    List,
    Status { name: Seq<char> },
    Logs { name: Seq<char>, lines: u64 },
}

impl View for ServiceQuery {
    type V = ServiceAsk;

    open spec fn view(&self) -> ServiceAsk {
        match self {
            ServiceQuery::List => ServiceAsk::List,
            ServiceQuery::Status { name } => ServiceAsk::Status { name: name@ },
            ServiceQuery::Logs { name, lines } => ServiceAsk::Logs { name: name@, lines: *lines },
        }
    }
}

/// The view of a query or of the failure to make one.
pub open spec fn asked(r: Result<ServiceQuery, ProviderError>) -> Result<
    ServiceAsk,
    ProviderFailure,
> {
    match r {
        Ok(query) => Ok(query@),
        Err(e) => Err(e@),
    }
}

impl ServiceProvider {
    /// The schema of the unit name parameter.
    pub open spec fn name_property() -> (Seq<char>, JsonValue) {
        ("name"@, property("string"@, "The unit name, e.g. nginx.service"@))
    }

    /// The tools of the namespace.
    pub open spec fn catalog() -> Seq<ToolView> {
        seq![
            observable(
                "service.list"@,
                "All systemd units with state, sub-state, description"@,
                object_schema(Seq::empty()),
            ),
            observable(
                "service.status"@,
                "Unit detail: state, PID, memory, CPU, started_at"@,
                object_schema_requiring(seq![Self::name_property()], "name"@),
            ),
            observable(
                "service.logs"@,
                "Recent journal entries for a unit (configurable lines)"@,
                object_schema_requiring(
                    seq![
                        Self::name_property(),
                        ("lines"@, property("integer"@, "Number of lines to return (default 50)"@)),
                    ],
                    "name"@,
                ),
            ),
        ]
    }

    /// What a call of `tool` with `params` asks for. A unit name is required
    /// where the tool is about one unit; the number of lines is 50 where none is
    /// given. A tool that the namespace does not have gives the `NotFound`
    /// failure that carries its name.
    pub open spec fn asks(tool: Seq<char>, params: JsonValue) -> Result<
        ServiceAsk,
        ProviderFailure,
    > {
        if tool == "service.list"@ {
            Ok(ServiceAsk::List)
        } else if tool == "service.status"@ {
            match string_at(params, "name"@) {
                Some(name) => Ok(ServiceAsk::Status { name }),
                None => Err(ProviderFailure::Execution("Missing required parameter: name"@)),
            }
        } else if tool == "service.logs"@ {
            match string_at(params, "name"@) {
                Some(name) => Ok(ServiceAsk::Logs { name, lines: number_or(params, "lines"@, 50) }),
                None => Err(ProviderFailure::Execution("Missing required parameter: name"@)),
            }
        } else {
            Err(ProviderFailure::NotFound(tool))
        }
    }

    /// What the journal of a unit reports: the unit, and one entry that says
    /// what was asked for.
    pub open spec fn logs_report(name: Seq<char>, lines: u64) -> JsonValue {
        JsonValue::Object(
            seq![
                ("unit"@, JsonValue::Str(name)),
                (
                    "entries"@,
                    JsonValue::Array(
                        seq![
                            JsonValue::Str(
                                "Journal stub for "@ + name + " (lines: "@ + decimal_digits(
                                    lines as nat,
                                ) + ")"@,
                            ),
                        ],
                    ),
                ),
            ],
        )
    }

    /// The namespace.
    pub fn namespace(&self) -> (r: &'static str)
        ensures
            r@ == "service"@,
    {
        "service"
    }

    /// The tools of the namespace.
    pub fn tools(&self) -> (r: Vec<Tool>)
        ensures
            tool_views(r@) == Self::catalog(),
    {
        let none: Vec<(String, Json)> = Vec::new();
        assert(entry_views(none@) =~= Seq::empty());
        let one = vec![entry("name", make_property("string", "The unit name, e.g. nginx.service"))];
        assert(entry_views(one@) =~= seq![Self::name_property()]);
        let two = vec![
            entry("name", make_property("string", "The unit name, e.g. nginx.service")),
            entry("lines", make_property("integer", "Number of lines to return (default 50)")),
        ];
        assert(entry_views(two@) =~= seq![
            Self::name_property(),
            ("lines"@, property("integer"@, "Number of lines to return (default 50)"@)),
        ]);
        let r = vec![
            make_observable(
                "service.list",
                "All systemd units with state, sub-state, description",
                make_object_schema(none),
            ),
            make_observable(
                "service.status",
                "Unit detail: state, PID, memory, CPU, started_at",
                make_object_schema_requiring(one, "name"),
            ),
            make_observable(
                "service.logs",
                "Recent journal entries for a unit (configurable lines)",
                make_object_schema_requiring(two, "name"),
            ),
        ];
        assert(tool_views(r@) =~= Self::catalog());
        r
    }

    /// What a call of `tool` with `params` asks for.
    pub fn request(&self, tool: &str, params: &Json) -> (r: Result<ServiceQuery, ProviderError>)
        ensures
            asked(r) == Self::asks(tool@, params@),
    {
        if text_eq(tool, "service.list") {
            Ok(ServiceQuery::List)
        } else if text_eq(tool, "service.status") {
            match get_string(params, "name") {
                Some(name) => Ok(ServiceQuery::Status { name }),
                None => Err(
                    ProviderError::Execution("Missing required parameter: name".to_owned()),
                ),
            }
        } else if text_eq(tool, "service.logs") {
            match get_string(params, "name") {
                Some(name) => Ok(
                    ServiceQuery::Logs { name, lines: get_number_or(params, "lines", 50) },
                ),
                None => Err(
                    ProviderError::Execution("Missing required parameter: name".to_owned()),
                ),
            }
        } else {
            Err(ProviderError::NotFound(tool.to_owned()))
        }
    }

    /// What the journal of a unit reports.
    pub fn logs(&self, name: &str, lines: u64) -> (r: Json)
        ensures
            r@ == Self::logs_report(name@, lines),
    {
        let mut line = join3("Journal stub for ", name, " (lines: ");
        line.append(decimal_text(lines).as_str());
        line.append(")");
        let entries = Json::array(vec![Json::Str(line)]);
        assert(entries@->Array_0 =~= seq![
            JsonValue::Str(
                "Journal stub for "@ + name@ + " (lines: "@ + decimal_digits(lines as nat) + ")"@,
            ),
        ]);
        let r = Json::object(vec![entry("unit", Json::text(name)), entry("entries", entries)]);
        assert(r@->Object_0 =~= Self::logs_report(name@, lines)->Object_0);
        r
    }
}

/// The namespace is valid, and every tool of the catalog is named under it.
pub proof fn lemma_service_catalog_is_namespaced()
    ensures
        valid_namespace("service"@),
        forall|i: int|
            0 <= i < ServiceProvider::catalog().len() ==> owned_by(
                #[trigger] ServiceProvider::catalog()[i].name,
                "service"@,
            ),
{
    reveal_strlit("service");
    reveal_strlit("service.list");
    reveal_strlit("service.status");
    reveal_strlit("service.logs");
    let namespace = "service"@;
    assert(!namespace.contains('.')) by {
        assert forall|k: int| 0 <= k < namespace.len() implies namespace[k] != '.' by {}
    }
    assert("service.list"@.take(7) =~= namespace);
    assert("service.status"@.take(7) =~= namespace);
    assert("service.logs"@.take(7) =~= namespace);
}

} // verus!
