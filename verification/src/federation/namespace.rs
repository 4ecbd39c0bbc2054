//! Namespacing of tool names: `<namespace>.<tool>`.

use crate::engine::provider::{owned_by, Tool, ToolView};
use crate::text::{chars_of, join3, optional_text, text_views};
use vstd::prelude::*;
use vstd::string::StrSliceExecFns;

verus! {

/// The name of `tool` under `namespace`: the namespace, a dot, the tool name.
pub open spec fn prefixed(namespace: Seq<char>, tool: Seq<char>) -> Seq<char> {
    namespace + seq!['.'] + tool
}

/// The tool name that `name` has under `namespace`: what follows the
/// namespace and its dot; `None` where `name` is not under the namespace.
pub open spec fn stripped(namespace: Seq<char>, name: Seq<char>) -> Option<Seq<char>> {
    if owned_by(name, namespace) {
        Some(name.skip(namespace.len() as int + 1))
    } else {
        None
    }
}

/// `tool` with its name put under `namespace`.
pub open spec fn namespaced(namespace: Seq<char>, tool: ToolView) -> ToolView {
    ToolView { name: prefixed(namespace, tool.name), ..tool }
}

/// `namespace` is the one among `namespaces` that `name` resolves to: the
/// longest one that the name is under.
pub open spec fn resolves_to(
    namespaces: Seq<Seq<char>>,
    name: Seq<char>,
    namespace: Seq<char>,
) -> bool {
    &&& namespaces.contains(namespace)
    &&& owned_by(name, namespace)
    &&& forall|i: int|
        0 <= i < namespaces.len() && owned_by(name, #[trigger] namespaces[i])
            ==> namespaces[i].len() <= namespace.len()
}

/// `name` is under none of `namespaces`.
pub open spec fn unresolved(namespaces: Seq<Seq<char>>, name: Seq<char>) -> bool {
    forall|i: int| 0 <= i < namespaces.len() ==> !owned_by(name, #[trigger] namespaces[i])
}

/// A prefixed name is under its namespace, and stripping gives the tool name
/// back.
pub proof fn lemma_strip_prefixed(namespace: Seq<char>, tool: Seq<char>)
    ensures
        owned_by(prefixed(namespace, tool), namespace),
        stripped(namespace, prefixed(namespace, tool)) == Some(tool),
{
    let name = prefixed(namespace, tool);
    assert(name.take(namespace.len() as int) =~= namespace);
    assert(name.skip(namespace.len() as int + 1) =~= tool);
}

/// A name resolves to at most one namespace: of two namespaces that a name is
/// under, the longer one starts with the shorter one, and two of one length
/// are equal.
pub proof fn lemma_resolution_unique(
    namespaces: Seq<Seq<char>>,
    name: Seq<char>,
    a: Seq<char>,
    b: Seq<char>,
)
    requires
        resolves_to(namespaces, name, a),
        resolves_to(namespaces, name, b),
    ensures
        a == b,
{
    let i = choose|i: int| 0 <= i < namespaces.len() && namespaces[i] == a;
    let j = choose|j: int| 0 <= j < namespaces.len() && namespaces[j] == b;
    assert(namespaces[i].len() <= b.len());
    assert(namespaces[j].len() <= a.len());
    assert(a =~= name.take(a.len() as int));
}

/// Puts a tool name under a namespace: `linux` and `system.cpu` give
/// `linux.system.cpu`.
pub fn prefix_tool_name(namespace: &str, tool_name: &str) -> (r: String)
    ensures
        r@ == prefixed(namespace@, tool_name@),
{
    proof {
        reveal_strlit(".");
        assert("."@ =~= seq!['.']);
    }
    join3(namespace, ".", tool_name)
}

/// Takes the namespace off a tool name: `linux` and `linux.system.cpu` give
/// `system.cpu`. `None` where the name is not under the namespace.
pub fn strip_namespace(namespace: &str, prefixed_name: &str) -> (r: Option<String>)
    ensures
        optional_text(r) == stripped(namespace@, prefixed_name@),
{
    let prefix = chars_of(namespace);
    let name = chars_of(prefixed_name);
    if name.len() <= prefix.len() {
        return None;
    }
    let mut i: usize = 0;
    while i < prefix.len()
        invariant
            i <= prefix.len() < name.len(),
            prefix@ == namespace@,
            name@ == prefixed_name@,
            forall|j: int| 0 <= j < i ==> name@[j] == prefix@[j],
        decreases prefix.len() - i,
    {
        if name[i] != prefix[i] {
            assert(name@.take(prefix.len() as int)[i as int] != prefix@[i as int]);
            return None;
        }
        i += 1;
    }
    assert(name@.take(prefix.len() as int) =~= prefix@);
    if name[prefix.len()] != '.' {
        return None;
    }
    let rest = prefixed_name.substring_char(prefix.len() + 1, name.len());
    assert(rest@ =~= prefixed_name@.skip(namespace@.len() as int + 1));
    Some(rest.to_owned())
}

/// Puts every tool of a downstream under the namespace. The tools themselves
/// are not changed but for their names.
pub fn namespace_tools(namespace: &str, tools: &[Tool]) -> (r: Vec<Tool>)
    ensures
        r.len() == tools.len(),
        forall|i: int| 0 <= i < r.len() ==> (#[trigger] r[i])@ == namespaced(namespace@, tools[i]@),
{
    let mut out: Vec<Tool> = Vec::new();
    let mut i: usize = 0;
    while i < tools.len()
        invariant
            i <= tools.len(),
            out.len() == i,
            forall|k: int| 0 <= k < i ==> (#[trigger] out[k])@ == namespaced(namespace@, tools[k]@),
        decreases tools.len() - i,
    {
        let tool = &tools[i];
        let mut renamed = tool.clone();
        renamed.name = prefix_tool_name(namespace, tool.name.as_str());
        out.push(renamed);
        i += 1;
    }
    out
}

/// Finds the namespace that a tool call belongs to, and the tool's own name.
/// Of several namespaces that the name is under, the longest wins, so that
/// `linux.docker` comes before `linux`.
pub fn resolve_namespace<'a>(namespaces: &'a [String], tool_name: &str) -> (r: Option<
    (&'a str, String),
>)
    ensures
        match r {
            Some((namespace, local)) => {
                &&& resolves_to(text_views(namespaces@), tool_name@, namespace@)
                &&& stripped(namespace@, tool_name@) == Some(local@)
            },
            None => unresolved(text_views(namespaces@), tool_name@),
        },
{
    let mut best: Option<(usize, String, usize)> = None;
    let mut i: usize = 0;
    while i < namespaces.len()
        invariant
            i <= namespaces.len(),
            match best {
                Some((at, local, length)) => {
                    &&& at < i
                    &&& length == namespaces[at as int]@.len()
                    &&& owned_by(tool_name@, namespaces[at as int]@)
                    &&& stripped(namespaces[at as int]@, tool_name@) == Some(local@)
                    &&& forall|k: int|
                        0 <= k < i && owned_by(tool_name@, #[trigger] namespaces[k]@)
                            ==> namespaces[k]@.len() <= length
                },
                None => forall|k: int|
                    0 <= k < i ==> !owned_by(tool_name@, #[trigger] namespaces[k]@),
            },
        decreases namespaces.len() - i,
    {
        let candidate = namespaces[i].as_str();
        match strip_namespace(candidate, tool_name) {
            Some(local) => {
                let length = candidate.unicode_len();
                let longer = match &best {
                    Some(found) => length > found.2,
                    None => true,
                };
                if longer {
                    best = Some((i, local, length));
                }
            },
            None => {},
        }
        i += 1;
    }
    match best {
        Some((at, local, _)) => {
            let namespace = namespaces[at].as_str();
            proof {
                let names = text_views(namespaces@);
                assert(names[at as int] == namespace@);
                assert forall|k: int|
                    0 <= k < names.len() && owned_by(
                        tool_name@,
                        #[trigger] names[k],
                    ) implies names[k].len() <= namespace@.len() by {
                    assert(names[k] == namespaces[k]@);
                }
            }
            Some((namespace, local))
        },
        None => {
            proof {
                let names = text_views(namespaces@);
                assert forall|k: int| 0 <= k < names.len() implies !owned_by(
                    tool_name@,
                    #[trigger] names[k],
                ) by {
                    assert(names[k] == namespaces[k]@);
                }
            }
            None
        },
    }
}

} // verus!
