//! The provider of the `process` namespace: the processes of the host.

use crate::engine::provider::{
    owned_by, tool_views, valid_namespace, ProviderError, ProviderFailure, Tool, ToolView,
};
use crate::json::{entry, entry_views, Json, JsonValue};
use crate::providers::{
    get_number_or, get_string, make_object_schema, make_observable, make_property, number_or,
    object_schema, observable, property, string_at,
};
use crate::text::text_eq;
use vstd::prelude::*;

verus! {

/// The provider of the `process` namespace.
pub struct ProcessProvider;

/// The number by which the top processes are ordered.
#[derive(Debug, Clone, Copy, PartialEq, Eq, Structural)]
pub enum SortKey {
    /// Resident memory.
    Memory,
    /// Processor share.
    Cpu,
}

/// What a call of a `process` tool asks for.
#[derive(Debug, Clone, Copy, PartialEq, Eq, Structural)]
pub enum ProcessQuery {
    /// All processes.
    List,
    /// The first `limit` processes in the order of `by`, largest first.
    Top { by: SortKey, limit: u64 },
}

impl ProcessProvider {
    /// The schema of the parameter that names the order: one of two words.
    pub open spec fn sort_property() -> JsonValue {
        JsonValue::Object(
            seq![
                ("type"@, JsonValue::Str("string"@)),
                (
                    "enum"@,
                    JsonValue::Array(seq![JsonValue::Str("cpu"@), JsonValue::Str("memory"@)]),
                ),
                ("description"@, JsonValue::Str("Field to sort by (cpu or memory)"@)),
            ],
        )
    }

    /// The parameters of `process.top`.
    pub open spec fn top_properties() -> Seq<(Seq<char>, JsonValue)> {
        seq![
            ("sort_by"@, Self::sort_property()),
            ("limit"@, property("integer"@, "Number of processes to return (default 10)"@)),
        ]
    }

    /// The tools of the namespace.
    pub open spec fn catalog() -> Seq<ToolView> {
        seq![
            observable(
                "process.list"@,
                "All processes: PID, name, user, state, CPU%, mem MB, cmd"@,
                object_schema(Seq::empty()),
            ),
            observable(
                "process.top"@,
                "Top N processes sorted by CPU or memory"@,
                object_schema(Self::top_properties()),
            ),
        ]
    }

    /// The order that the parameters name: by memory where they name none or
    /// name `memory`, by processor share for any other word.
    pub open spec fn order(params: JsonValue) -> SortKey {
        match string_at(params, "sort_by"@) {
            Some(word) => if word == "memory"@ {
                SortKey::Memory
            } else {
                SortKey::Cpu
            },
            None => SortKey::Memory,
        }
    }

    /// What a call of `tool` with `params` asks for. The top list holds 10
    /// processes where no limit is given. A tool that the namespace does not have
    /// gives the `NotFound` failure that carries its name.
    pub open spec fn asks(tool: Seq<char>, params: JsonValue) -> Result<
        ProcessQuery,
        ProviderFailure,
    > {
        if tool == "process.list"@ {
            Ok(ProcessQuery::List)
        } else if tool == "process.top"@ {
            Ok(
                ProcessQuery::Top {
                    by: Self::order(params),
                    limit: number_or(params, "limit"@, 10),
                },
            )
        } else {
            Err(ProviderFailure::NotFound(tool))
        }
    }

    /// The namespace.
    pub fn namespace(&self) -> (r: &'static str)
        ensures
            r@ == "process"@,
    {
        "process"
    }

    /// The tools of the namespace.
    pub fn tools(&self) -> (r: Vec<Tool>)
        ensures
            tool_views(r@) == Self::catalog(),
    {
        let none: Vec<(String, Json)> = Vec::new();
        assert(entry_views(none@) =~= Seq::empty());
        let words = Json::array(vec![Json::text("cpu"), Json::text("memory")]);
        assert(words@->Array_0 =~= seq![JsonValue::Str("cpu"@), JsonValue::Str("memory"@)]);
        let sort_by = Json::object(
            vec![
                entry("type", Json::text("string")),
                entry("enum", words),
                entry("description", Json::text("Field to sort by (cpu or memory)")),
            ],
        );
        assert(sort_by@->Object_0 =~= Self::sort_property()->Object_0);
        let top = vec![
            entry("sort_by", sort_by),
            entry("limit", make_property("integer", "Number of processes to return (default 10)")),
        ];
        assert(entry_views(top@) =~= Self::top_properties());
        let r = vec![
            make_observable(
                "process.list",
                "All processes: PID, name, user, state, CPU%, mem MB, cmd",
                make_object_schema(none),
            ),
            make_observable(
                "process.top",
                "Top N processes sorted by CPU or memory",
                make_object_schema(top),
            ),
        ];
        assert(tool_views(r@) =~= Self::catalog());
        r
    }

    /// What a call of `tool` with `params` asks for.
    pub fn request(&self, tool: &str, params: &Json) -> (r: Result<ProcessQuery, ProviderError>)
        ensures
            match r {
                Ok(query) => Self::asks(tool@, params@) == Ok::<ProcessQuery, ProviderFailure>(
                    query,
                ),
                Err(e) => Self::asks(tool@, params@) == Err::<ProcessQuery, ProviderFailure>(
                    e@,
                ),
            },
    {
        if text_eq(tool, "process.list") {
            Ok(ProcessQuery::List)
        } else if text_eq(tool, "process.top") {
            let by = match get_string(params, "sort_by") {
                Some(word) => if text_eq(word.as_str(), "memory") {
                    SortKey::Memory
                } else {
                    SortKey::Cpu
                },
                None => SortKey::Memory,
            };
            Ok(ProcessQuery::Top { by, limit: get_number_or(params, "limit", 10) })
        } else {
            Err(ProviderError::NotFound(tool.to_owned()))
        }
    }
}

/// The process at `a` comes before the one at `b`: its key is larger, or the
/// keys are equal and it came first.
pub open spec fn before(keys: Seq<u64>, a: int, b: int) -> bool {
    keys[a] > keys[b] || (keys[a] == keys[b] && a < b)
}

/// The process at `i` is among the picks.
pub open spec fn picked(picks: Seq<usize>, i: int) -> bool {
    exists|a: int| 0 <= a < picks.len() && #[trigger] picks[a] == i
}

/// `picks` holds the places of the first `limit` processes in the order of
/// `keys`, largest key first: the picks are in that order, every process that
/// is not picked comes after every one that is, and fewer than `limit` are
/// picked only where all are.
pub open spec fn ranks(keys: Seq<u64>, limit: int, picks: Seq<usize>) -> bool {
    &&& picks.len() <= limit
    &&& forall|a: int| 0 <= a < picks.len() ==> (#[trigger] picks[a]) < keys.len()
    &&& forall|a: int, b: int|
        0 <= a < b < picks.len() ==> before(keys, picks[a] as int, picks[b] as int)
    &&& forall|i: int, a: int|
        0 <= i < keys.len() && 0 <= a < picks.len() && !picked(picks, i) ==> #[trigger] before(
            keys,
            picks[a] as int,
            i,
        )
    &&& picks.len() < limit ==> forall|i: int| 0 <= i < keys.len() ==> picked(picks, i)
}

/// The keys by which the processes are ordered: the resident memory, or, as
/// no processor share is measured, the same key for all.
pub open spec fn order_keys(rss_kb: Seq<u64>, by: SortKey) -> Seq<u64> {
    match by {
        SortKey::Memory => rss_kb,
        SortKey::Cpu => Seq::new(rss_kb.len(), |i: int| 0u64),
    }
}

/// The number of marks among the first `n`.
pub open spec fn marked(marks: Seq<bool>, n: int) -> int
    decreases n,
{
    if n <= 0 {
        0
    } else {
        marked(marks, n - 1) + if marks[n - 1] {
            1int
        } else {
            0int
        }
    }
}

/// There are no more marks than places, and as many where every place is
/// marked.
proof fn lemma_marked_bounds(marks: Seq<bool>, n: int)
    requires
        0 <= n <= marks.len(),
    ensures
        0 <= marked(marks, n) <= n,
        (forall|i: int| 0 <= i < n ==> marks[i]) ==> marked(marks, n) == n,
        (forall|i: int| 0 <= i < n ==> !marks[i]) ==> marked(marks, n) == 0,
    decreases n,
{
    if n > 0 {
        lemma_marked_bounds(marks, n - 1);
    }
}

/// Marking a place that was not marked makes one mark more.
proof fn lemma_marked_one_more(marks: Seq<bool>, at: int, n: int)
    requires
        0 <= at < marks.len(),
        0 <= n <= marks.len(),
        !marks[at],
    ensures
        marked(marks.update(at, true), n) == marked(marks, n) + if at < n {
            1int
        } else {
            0int
        },
    decreases n,
{
    if n > 0 {
        lemma_marked_one_more(marks, at, n - 1);
    }
}

/// The places of the first `limit` processes in the order of `keys`: as many
/// as the limit says, or all where there are fewer.
pub fn ranking(keys: &Vec<u64>, limit: u64) -> (r: Vec<usize>)
    ensures
        ranks(keys@, limit as int, r@),
        r@.len() == if limit <= keys@.len() {
            limit as int
        } else {
            keys@.len() as int
        },
{
    let n = keys.len();
    let mut taken: Vec<bool> = Vec::new();
    while taken.len() < n
        invariant
            taken.len() <= n,
            forall|i: int| 0 <= i < taken.len() ==> !taken@[i],
        decreases n - taken.len(),
    {
        taken.push(false);
    }
    let mut out: Vec<usize> = Vec::new();
    let mut count: u64 = 0;
    proof {
        lemma_marked_bounds(taken@, n as int);
    }
    while count < limit
        invariant
            count <= limit,
            n == keys.len(),
            taken.len() == n,
            out.len() == count,
            marked(taken@, n as int) == count,
            forall|a: int|
                0 <= a < out.len() ==> (#[trigger] out@[a]) < n && taken@[out@[a] as int],
            forall|i: int| 0 <= i < n && taken@[i] ==> picked(out@, i),
            forall|a: int, b: int|
                0 <= a < b < out.len() ==> before(keys@, out@[a] as int, out@[b] as int),
            forall|i: int, a: int|
                0 <= i < n && 0 <= a < out.len() && !taken@[i] ==> #[trigger] before(
                    keys@,
                    out@[a] as int,
                    i,
                ),
        ensures
            count < limit ==> count == n,
        decreases limit - count,
    {
        let mut best: Option<usize> = None;
        let mut i: usize = 0;
        while i < n
            invariant
                i <= n,
                n == keys.len(),
                taken.len() == n,
                match best {
                    Some(b) => {
                        &&& b < i
                        &&& !taken@[b as int]
                        &&& forall|j: int|
                            0 <= j < i && !taken@[j] && j != b ==> before(keys@, b as int, j)
                    },
                    None => forall|j: int| 0 <= j < i ==> taken@[j],
                },
            decreases n - i,
        {
            if !taken[i] {
                match best {
                    None => {
                        best = Some(i);
                    },
                    Some(b) => {
                        if keys[i] > keys[b] {
                            best = Some(i);
                        }
                    },
                }
            }
            i += 1;
        }
        match best {
            None => {
                proof {
                    lemma_marked_bounds(taken@, n as int);
                }
                break;
            },
            Some(b) => {
                let ghost before_out = out@;
                proof {
                    lemma_marked_one_more(taken@, b as int, n as int);
                }
                taken.set(b, true);
                out.push(b);
                count += 1;
                proof {
                    assert forall|i: int| 0 <= i < n && taken@[i] implies picked(out@, i) by {
                        if i == b {
                            assert(out@[out.len() - 1] == i);
                        } else {
                            assert(picked(before_out, i));
                            let a = choose|a: int| 0 <= a < before_out.len() && before_out[a] == i;
                            assert(out@[a] == i);
                        }
                    }
                }
            },
        }
    }
    proof {
        lemma_marked_bounds(taken@, n as int);
        assert forall|i: int, a: int|
            0 <= i < keys@.len() && 0 <= a < out@.len() && !picked(
                out@,
                i,
            ) implies #[trigger] before(keys@, out@[a] as int, i) by {
            if taken@[i] {
                assert(picked(out@, i));
            }
        }
        if out@.len() < limit {
            assert forall|i: int| 0 <= i < keys@.len() implies picked(out@, i) by {
                lemma_all_marked(taken@, n as int, i);
            }
        }
    }
    out
}

/// Where there are as many marks as places, every place is marked.
proof fn lemma_all_marked(marks: Seq<bool>, n: int, i: int)
    requires
        0 <= i < n <= marks.len(),
        marked(marks, n) == n,
    ensures
        marks[i],
    decreases n,
{
    lemma_marked_bounds(marks, n - 1);
    if i < n - 1 {
        lemma_all_marked(marks, n - 1, i);
    }
}

impl ProcessProvider {
    /// The places of the processes that the top list shows, in its order:
    /// the first `limit` by resident memory, largest first, or the first `limit`
    /// as they come.
    pub fn top(&self, rss_kb: &Vec<u64>, by: SortKey, limit: u64) -> (r: Vec<usize>)
        ensures
            ranks(order_keys(rss_kb@, by), limit as int, r@),
            r@.len() == if limit <= rss_kb@.len() {
                limit as int
            } else {
                rss_kb@.len() as int
            },
    {
        match by {
            SortKey::Memory => ranking(rss_kb, limit),
            SortKey::Cpu => {
                let mut keys: Vec<u64> = Vec::new();
                while keys.len() < rss_kb.len()
                    invariant
                        keys.len() <= rss_kb.len(),
                        forall|i: int| 0 <= i < keys.len() ==> keys@[i] == 0,
                    decreases rss_kb.len() - keys.len(),
                {
                    keys.push(0);
                }
                assert(keys@ =~= order_keys(rss_kb@, by));
                ranking(&keys, limit)
            },
        }
    }
}

/// A ranking picks no process twice.
pub proof fn lemma_ranking_is_distinct(
    keys: Seq<u64>,
    limit: int,
    picks: Seq<usize>,
    a: int,
    b: int,
)
    requires
        ranks(keys, limit, picks),
        0 <= a < b < picks.len(),
    ensures
        picks[a] != picks[b],
{
    assert(before(keys, picks[a] as int, picks[b] as int));
}

/// The ranking is determined: two rankings of the same keys with the same
/// limit are the same.
pub proof fn lemma_ranking_is_unique(keys: Seq<u64>, limit: int, x: Seq<usize>, y: Seq<usize>)
    requires
        ranks(keys, limit, x),
        ranks(keys, limit, y),
    ensures
        x == y,
{
    lemma_ranking_is_complete(keys, limit, x, y);
    lemma_ranking_is_complete(keys, limit, y, x);
    lemma_ranking_agrees(keys, limit, x, y, x.len() as int);
    assert(x =~= y);
}

/// Two rankings agree on their first `n` picks.
proof fn lemma_ranking_agrees(keys: Seq<u64>, limit: int, x: Seq<usize>, y: Seq<usize>, n: int)
    requires
        ranks(keys, limit, x),
        ranks(keys, limit, y),
        0 <= n <= x.len(),
        n <= y.len(),
    ensures
        forall|a: int| 0 <= a < n ==> x[a] == y[a],
    decreases n,
{
    if n > 0 {
        lemma_ranking_agrees(keys, limit, x, y, n - 1);
        let a = n - 1;
        if x[a] != y[a] {
            // Each of the two picks comes before the other one: within the other
            // ranking it can only be picked later, or not at all.
            lemma_later_or_absent(keys, limit, x, y, a);
            lemma_later_or_absent(keys, limit, y, x, a);
            assert(before(keys, y[a] as int, x[a] as int));
            assert(before(keys, x[a] as int, y[a] as int));
        }
    }
}

/// Where two rankings agree before `a` and differ at `a`, the pick of the
/// second at `a` comes before the pick of the first at `a`.
proof fn lemma_later_or_absent(keys: Seq<u64>, limit: int, x: Seq<usize>, y: Seq<usize>, a: int)
    requires
        ranks(keys, limit, x),
        ranks(keys, limit, y),
        0 <= a < x.len(),
        a < y.len(),
        forall|k: int| 0 <= k < a ==> x[k] == y[k],
        x[a] != y[a],
    ensures
        before(keys, y[a] as int, x[a] as int),
{
    let i = x[a] as int;
    if picked(y, i) {
        let at = choose|at: int| 0 <= at < y.len() && y[at] == i;
        if at < a {
            assert(x[at] == y[at]);
            assert(before(keys, x[at] as int, x[a] as int));
        } else {
            assert(before(keys, y[a] as int, y[at] as int));
        }
    } else {
        assert(before(keys, y[a] as int, i));
    }
}

/// Of two rankings of the same keys with the same limit, none is shorter
/// than the other: a shorter one would hold every process, and so a pick of
/// the longer one beyond its own length.
proof fn lemma_ranking_is_complete(keys: Seq<u64>, limit: int, x: Seq<usize>, y: Seq<usize>)
    requires
        ranks(keys, limit, x),
        ranks(keys, limit, y),
    ensures
        x.len() >= y.len(),
{
    if x.len() < y.len() {
        lemma_ranking_agrees(keys, limit, x, y, x.len() as int);
        let extra = y[x.len() as int] as int;
        assert(picked(x, extra));
        let at = choose|at: int| 0 <= at < x.len() && x[at] == extra;
        assert(y[at] == extra);
        assert(before(keys, y[at] as int, y[x.len() as int] as int));
    }
}

/// The namespace is valid, and every tool of the catalog is named under it.
pub proof fn lemma_process_catalog_is_namespaced()
    ensures
        valid_namespace("process"@),
        forall|i: int|
            0 <= i < ProcessProvider::catalog().len() ==> owned_by(
                #[trigger] ProcessProvider::catalog()[i].name,
                "process"@,
            ),
{
    reveal_strlit("process");
    reveal_strlit("process.list");
    reveal_strlit("process.top");
    let namespace = "process"@;
    assert(!namespace.contains('.')) by {
        assert forall|k: int| 0 <= k < namespace.len() implies namespace[k] != '.' by {}
    }
    assert("process.list"@.take(7) =~= namespace);
    assert("process.top"@.take(7) =~= namespace);
}

} // verus!
