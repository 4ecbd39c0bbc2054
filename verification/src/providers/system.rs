//! The provider of the `system` namespace: what the host is and how it fares.

use crate::engine::provider::{
    owned_by, tool_views, valid_namespace, ProviderError, ProviderFailure, Tool, ToolView,
};
use crate::providers::{make_object_schema, make_observable, object_schema, observable};
use crate::text::text_eq;
use vstd::prelude::*;

verus! {

/// The provider of the `system` namespace.
pub struct SystemProvider;

/// What a call of a `system` tool asks of the host.
#[derive(Debug, Clone, Copy, PartialEq, Eq, Structural)]
pub enum SystemQuery {
    /// Host name and kernel version.
    Info,
    /// Processor statistics.
    Cpu,
    /// Memory statistics.
    Memory,
    /// Disks.
    Disk,
    /// Uptime and load.
    Uptime,
}

impl SystemProvider {
    /// The tools of the namespace. None of them takes a parameter.
    pub open spec fn catalog() -> Seq<ToolView> {
        seq![
            observable(
                "system.info"@,
                "Hostname, OS, kernel version, arch, uptime, boot time"@,
                object_schema(Seq::empty()),
            ),
            observable(
                "system.cpu"@,
                "Core count, model, usage % total and per-core"@,
                object_schema(Seq::empty()),
            ),
            observable(
                "system.memory"@,
                "Total, used, available, swap (MB)"@,
                object_schema(Seq::empty()),
            ),
            observable(
                "system.disk"@,
                "Per-mount: device, total, used, available, use %"@,
                object_schema(Seq::empty()),
            ),
            observable(
                "system.uptime"@,
                "Uptime in seconds, idle time, load averages"@,
                object_schema(Seq::empty()),
            ),
        ]
    }

    /// What a call of `tool` asks of the host; the `NotFound` failure that
    /// carries the name for a tool that the namespace does not have.
    pub open spec fn asks(tool: Seq<char>) -> Result<SystemQuery, ProviderFailure> {
        if tool == "system.info"@ {
            Ok(SystemQuery::Info)
        } else if tool == "system.cpu"@ {
            Ok(SystemQuery::Cpu)
        } else if tool == "system.memory"@ {
            Ok(SystemQuery::Memory)
        } else if tool == "system.disk"@ {
            Ok(SystemQuery::Disk)
        } else if tool == "system.uptime"@ {
            Ok(SystemQuery::Uptime)
        } else {
            Err(ProviderFailure::NotFound(tool))
        }
    }

    /// The namespace.
    pub fn namespace(&self) -> (r: &'static str)
        ensures
            r@ == "system"@,
    {
        "system"
    }

    /// The tools of the namespace.
    pub fn tools(&self) -> (r: Vec<Tool>)
        ensures
            tool_views(r@) == Self::catalog(),
    {
        let r = vec![
            make_observable(
                "system.info",
                "Hostname, OS, kernel version, arch, uptime, boot time",
                make_object_schema(Vec::new()),
            ),
            make_observable(
                "system.cpu",
                "Core count, model, usage % total and per-core",
                make_object_schema(Vec::new()),
            ),
            make_observable(
                "system.memory",
                "Total, used, available, swap (MB)",
                make_object_schema(Vec::new()),
            ),
            make_observable(
                "system.disk",
                "Per-mount: device, total, used, available, use %",
                make_object_schema(Vec::new()),
            ),
            make_observable(
                "system.uptime",
                "Uptime in seconds, idle time, load averages",
                make_object_schema(Vec::new()),
            ),
        ];
        proof {
            let none = crate::json::entry_views(Seq::<(String, crate::json::Json)>::empty());
            assert(none =~= Seq::empty());
            assert(tool_views(r@) =~= Self::catalog());
        }
        r
    }

    /// What a call of `tool` asks of the host.
    pub fn request(&self, tool: &str) -> (r: Result<SystemQuery, ProviderError>)
        ensures
            match r {
                Ok(query) => Self::asks(tool@) == Ok::<SystemQuery, ProviderFailure>(query),
                Err(e) => Self::asks(tool@) == Err::<SystemQuery, ProviderFailure>(e@),
            },
    {
        if text_eq(tool, "system.info") {
            Ok(SystemQuery::Info)
        } else if text_eq(tool, "system.cpu") {
            Ok(SystemQuery::Cpu)
        } else if text_eq(tool, "system.memory") {
            Ok(SystemQuery::Memory)
        } else if text_eq(tool, "system.disk") {
            Ok(SystemQuery::Disk)
        } else if text_eq(tool, "system.uptime") {
            Ok(SystemQuery::Uptime)
        } else {
            Err(ProviderError::NotFound(tool.to_owned()))
        }
    }
}

/// The namespace is valid, and every tool of the catalog is named under it.
pub proof fn lemma_system_catalog_is_namespaced()
    ensures
        valid_namespace("system"@),
        forall|i: int|
            0 <= i < SystemProvider::catalog().len() ==> owned_by(
                #[trigger] SystemProvider::catalog()[i].name,
                "system"@,
            ),
{
    reveal_strlit("system");
    reveal_strlit("system.info");
    reveal_strlit("system.cpu");
    reveal_strlit("system.memory");
    reveal_strlit("system.disk");
    reveal_strlit("system.uptime");
    let namespace = "system"@;
    assert(!namespace.contains('.')) by {
        assert forall|k: int| 0 <= k < namespace.len() implies namespace[k] != '.' by {}
    }
    assert("system.info"@.take(6) =~= namespace);
    assert("system.cpu"@.take(6) =~= namespace);
    assert("system.memory"@.take(6) =~= namespace);
    assert("system.disk"@.take(6) =~= namespace);
    assert("system.uptime"@.take(6) =~= namespace);
}

} // verus!
