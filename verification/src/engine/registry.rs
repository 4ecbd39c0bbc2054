//! The registry of providers, and the dispatch of a tool call to the provider
//! that owns the name.

use crate::engine::provider::{
    outcome_view, owned_by, tool_views, valid_namespace, Provider, ProviderError, ProviderFailure,
    Tool, ToolView,
};
use crate::json::{Json, JsonValue};
use crate::text::{chars_of, text_eq};
use vstd::prelude::*;
use vstd::string::StrSliceExecFns;

verus! {

/// `i` is the place of the first dot of `name`.
pub open spec fn first_dot_at(name: Seq<char>, i: int) -> bool {
    &&& 0 <= i < name.len()
    &&& name[i] == '.'
    &&& forall|j: int| 0 <= j < i ==> name[j] != '.'
}

/// The part of a tool name before its first dot; `None` where it has no dot.
pub open spec fn head_segment(name: Seq<char>) -> Option<Seq<char>> {
    if exists|i: int| first_dot_at(name, i) {
        Some(name.take(choose|i: int| first_dot_at(name, i)))
    } else {
        None
    }
}

/// `i` is the place of `namespace` among `namespaces`: the first one that
/// equals it.
pub open spec fn namespace_at(namespaces: Seq<Seq<char>>, namespace: Seq<char>, i: int) -> bool {
    &&& 0 <= i < namespaces.len()
    &&& namespaces[i] == namespace
    &&& forall|j: int| 0 <= j < i ==> namespaces[j] != namespace
}

/// The place of `namespace` among `namespaces`, if it is there.
pub open spec fn position(namespaces: Seq<Seq<char>>, namespace: Seq<char>) -> Option<int> {
    if exists|i: int| namespace_at(namespaces, namespace, i) {
        Some(choose|i: int| namespace_at(namespaces, namespace, i))
    } else {
        None
    }
}

/// The head segment of a tool name is one of `namespaces`.
pub open spec fn named_under(name: Seq<char>, namespaces: Seq<Seq<char>>) -> bool {
    exists|i: int| 0 <= i < namespaces.len() && head_segment(name) == Some(#[trigger] namespaces[i])
}

/// The first `n` of `parts`, one after the other.
pub open spec fn concat_upto(parts: Seq<Seq<ToolView>>, n: int) -> Seq<ToolView>
    decreases n,
{
    if n <= 0 {
        Seq::empty()
    } else {
        concat_upto(parts, n - 1) + parts[n - 1]
    }
}

/// A provider keeps to a namespace: the namespace is valid, and whatever
/// tools the provider offers are named under it.
pub open spec fn keeps_namespace<P: Provider>(provider: P, namespace: Seq<char>) -> bool {
    &&& valid_namespace(namespace)
    &&& forall|tools: Seq<ToolView>, k: int|
        #![trigger provider.offers(tools), tools[k]]
        provider.offers(tools) && 0 <= k < tools.len() ==> owned_by(tools[k].name, namespace)
}

/// A name owned by a valid namespace has that namespace as its head segment.
pub proof fn lemma_owned_head(name: Seq<char>, namespace: Seq<char>)
    requires
        valid_namespace(namespace),
        owned_by(name, namespace),
    ensures
        head_segment(name) == Some(namespace),
{
    let n = namespace.len() as int;
    assert forall|j: int| 0 <= j < n implies name[j] != '.' by {
        assert(name.take(n)[j] == namespace[j]);
        assert(namespace.contains(namespace[j]));
    }
    assert(first_dot_at(name, n));
    let w = choose|w: int| first_dot_at(name, w);
    assert(w == n);
}

/// A namespace that has no place among `namespaces` is at none of its places.
proof fn lemma_absent(namespaces: Seq<Seq<char>>, namespace: Seq<char>, i: int)
    requires
        forall|w: int| !namespace_at(namespaces, namespace, w),
        0 <= i < namespaces.len(),
    ensures
        namespaces[i] != namespace,
    decreases i,
{
    if namespaces[i] == namespace {
        if exists|j: int| 0 <= j < i && namespaces[j] == namespace {
            let j = choose|j: int| 0 <= j < i && namespaces[j] == namespace;
            lemma_absent(namespaces, namespace, j);
        } else {
            assert(namespace_at(namespaces, namespace, i));
        }
    }
}

/// Head segment of a tool name, computed.
fn split_head(name: &str) -> (r: Option<String>)
    ensures
        match r {
            Some(head) => head_segment(name@) == Some(head@),
            None => head_segment(name@) is None,
        },
{
    let chars = chars_of(name);
    let mut i: usize = 0;
    while i < chars.len()
        invariant
            i <= chars.len(),
            chars@ == name@,
            forall|j: int| 0 <= j < i ==> name@[j] != '.',
        decreases chars.len() - i,
    {
        if chars[i] == '.' {
            assert(first_dot_at(name@, i as int));
            let ghost w = choose|w: int| first_dot_at(name@, w);
            assert(w == i);
            let head = name.substring_char(0, i);
            return Some(head.to_owned());
        }
        i += 1;
    }
    assert(forall|w: int| !first_dot_at(name@, w));
    None
}

/// A provider, and the namespace that it was registered under.
pub struct Registered<P: Provider> {
    pub namespace: String,
    pub provider: P,
}

/// The providers of a node agent, one for each namespace, in the order in
/// which their namespaces were first registered.
pub struct ProviderRegistry<P: Provider> {
    entries: Vec<Registered<P>>,
}

impl<P: Provider> View for ProviderRegistry<P> {
    type V = Seq<Registered<P>>;

    closed spec fn view(&self) -> Seq<Registered<P>> {
        self.entries@
    }
}

impl<P: Provider> ProviderRegistry<P> {
    /// The namespaces of the registered providers, in order.
    pub open spec fn namespaces(&self) -> Seq<Seq<char>> {
        Seq::new(self@.len(), |i: int| self@[i].namespace@)
    }

    /// No namespace is registered twice, and each is one that its provider
    /// names.
    pub open spec fn wf(&self) -> bool {
        &&& forall|i: int, j: int|
            0 <= i < j < self@.len() ==> self@[i].namespace@ != self@[j].namespace@
        &&& forall|i: int|
            0 <= i < self@.len() ==> (#[trigger] self@[i]).provider.names(self@[i].namespace@)
    }

    #[verifier::type_invariant]
    spec fn well_formed(self) -> bool {
        self.wf()
    }

    /// Every provider keeps to the namespace that it is registered under.
    pub open spec fn sound(&self) -> bool {
        forall|i: int|
            0 <= i < self@.len() ==> keeps_namespace(
                (#[trigger] self@[i]).provider,
                self@[i].namespace@,
            )
    }

    /// Whether `tools` is a catalog that the registry may list: what the
    /// providers may offer, provider after provider in registration order.
    pub open spec fn lists(&self, tools: Seq<ToolView>) -> bool {
        exists|parts: Seq<Seq<ToolView>>| #[trigger] self.made_of(tools, parts)
    }

    /// `tools` is made of `parts`, one part from each provider.
    pub open spec fn made_of(&self, tools: Seq<ToolView>, parts: Seq<Seq<ToolView>>) -> bool {
        &&& parts.len() == self@.len()
        &&& forall|i: int| 0 <= i < parts.len() ==> (#[trigger] self@[i]).provider.offers(parts[i])
        &&& tools == concat_upto(parts, parts.len() as int)
    }

    /// The place of the provider that owns the tool name, if one does: the one
    /// registered under the name's head segment.
    pub open spec fn owner(&self, name: Seq<char>) -> Option<int> {
        match head_segment(name) {
            Some(head) => position(self.namespaces(), head),
            None => None,
        }
    }

    /// Whether `outcome` is something that a call of `name` with `params` may
    /// give: the `NotFound` failure that carries the name where no provider owns
    /// it, and else what the owning provider may give.
    pub open spec fn may_return(
        &self,
        name: Seq<char>,
        params: JsonValue,
        outcome: Result<JsonValue, ProviderFailure>,
    ) -> bool {
        match self.owner(name) {
            Some(i) => self@[i].provider.gives(name, params, outcome),
            None => outcome == Err::<JsonValue, ProviderFailure>(ProviderFailure::NotFound(name)),
        }
    }

    /// A registry without providers.
    pub fn new() -> (r: Self)
        ensures
            r@ == Seq::<Registered<P>>::empty(),
            r.wf(),
    {
        ProviderRegistry { entries: Vec::new() }
    }

    /// The place of the provider registered under `namespace`.
    fn find(&self, namespace: &str) -> (r: Option<usize>)
        ensures
            match r {
                Some(i) => position(self.namespaces(), namespace@) == Some(i as int),
                None => position(self.namespaces(), namespace@) is None,
            },
    {
        let mut i: usize = 0;
        while i < self.entries.len()
            invariant
                i <= self.entries.len(),
                forall|j: int| 0 <= j < i ==> self.namespaces()[j] != namespace@,
            decreases self.entries.len() - i,
        {
            if text_eq(self.entries[i].namespace.as_str(), namespace) {
                assert(namespace_at(self.namespaces(), namespace@, i as int));
                let ghost w = choose|w: int| namespace_at(self.namespaces(), namespace@, w);
                assert(w == i);
                return Some(i);
            }
            i += 1;
        }
        assert(forall|w: int| !namespace_at(self.namespaces(), namespace@, w));
        None
    }

    /// Registers a provider under the namespace that it names. A provider
    /// already registered under that namespace is replaced, in its place.
    pub fn register(&mut self, provider: P)
        ensures
            final(self).wf(),
            exists|namespace: Seq<char>| #[trigger]
                provider.names(namespace) && match position(old(self).namespaces(), namespace) {
                    Some(i) => final(self)@.len() == old(self)@.len()
                        && final(self)@[i].provider == provider
                        && final(self).namespaces() == old(self).namespaces()
                        && forall|j: int|
                        0 <= j < old(self)@.len() && j != i ==> final(self)@[j] == old(self)@[j],
                    None => final(self)@.len() == old(self)@.len() + 1
                        && final(self)@.last().provider == provider
                        && final(self).namespaces() == old(self).namespaces().push(namespace)
                        && forall|j: int|
                        0 <= j < old(self)@.len() ==> final(self)@[j] == old(self)@[j],
                },
    {
        proof {
            use_type_invariant(&*self);
        }
        let namespace = provider.namespace().to_owned();
        let found = self.find(namespace.as_str());
        let ghost before = self@;
        let ghost names = self.namespaces();
        let ghost key = namespace@;
        let mut entries: Vec<Registered<P>> = Vec::new();
        std::mem::swap(&mut self.entries, &mut entries);
        match found {
            Some(i) => {
                assert(namespace_at(names, key, i as int));
                entries.set(i, Registered { namespace, provider });
                assert forall|a: int, b: int|
                    0 <= a < b < entries@.len() implies entries@[a].namespace@
                    != entries@[b].namespace@ by {
                    assert(names[a] == before[a].namespace@);
                    assert(names[b] == before[b].namespace@);
                }
            },
            None => {
                assert(forall|w: int| !namespace_at(names, key, w));
                entries.push(Registered { namespace, provider });
                assert forall|a: int, b: int|
                    0 <= a < b < entries@.len() implies entries@[a].namespace@
                    != entries@[b].namespace@ by {
                    assert(names[a] == before[a].namespace@);
                    if b == before.len() {
                        lemma_absent(names, key, a);
                    } else {
                        assert(names[b] == before[b].namespace@);
                    }
                }
            },
        }
        std::mem::swap(&mut self.entries, &mut entries);
        proof {
            if found is Some {
                assert(self.namespaces() =~= names);
            } else {
                assert(self.namespaces() =~= names.push(key));
            }
            assert(provider.names(key));
        }
    }

    /// Every tool of every provider: providers in registration order, each
    /// provider's tools in its own order. Where every provider keeps to its
    /// namespace, each tool's name has its provider's namespace before its
    /// first dot.
    pub fn list_tools(&self) -> (r: Vec<Tool>)
        ensures
            self.wf(),
            self.lists(tool_views(r@)),
            self.sound() ==> forall|k: int|
                0 <= k < r.len() ==> named_under(#[trigger] r[k].name@, self.namespaces()),
    {
        proof {
            use_type_invariant(self);
        }
        let mut all_tools: Vec<Tool> = Vec::new();
        let ghost mut parts: Seq<Seq<ToolView>> = Seq::empty();
        let mut i: usize = 0;
        while i < self.entries.len()
            invariant
                i <= self.entries.len(),
                parts.len() == i,
                forall|j: int| 0 <= j < i ==> (#[trigger] self@[j]).provider.offers(parts[j]),
                tool_views(all_tools@) == concat_upto(parts, i as int),
            decreases self.entries.len() - i,
        {
            let mut tools = self.entries[i].provider.tools();
            let ghost before = all_tools@;
            let ghost added = tools@;
            let ghost old_parts = parts;
            all_tools.append(&mut tools);
            proof {
                parts = parts.push(tool_views(added));
                assert(tool_views(all_tools@) =~= tool_views(before) + tool_views(added));
                lemma_concat_same(old_parts, parts, i as int);
                assert forall|j: int| 0 <= j < i + 1 implies (#[trigger] self@[j]).provider.offers(
                    parts[j],
                ) by {
                    if j < i {
                        assert(parts[j] == old_parts[j]);
                    }
                }
            }
            i += 1;
        }
        proof {
            assert(self.made_of(tool_views(all_tools@), parts));
            if self.sound() {
                assert forall|k: int| 0 <= k < all_tools.len() implies named_under(
                    #[trigger] all_tools[k].name@,
                    self.namespaces(),
                ) by {
                    lemma_listed_tools_are_owned(*self, tool_views(all_tools@), k);
                    assert(tool_views(all_tools@)[k].name == all_tools[k].name@);
                }
            }
        }
        all_tools
    }

    /// Calls the tool with the fully qualified name `name`: the call goes to
    /// the provider registered under the part of the name before its first dot,
    /// and what that provider gives is handed back as it is.
    pub fn call_tool(&self, name: &str, params: Json) -> (r: Result<Json, ProviderError>)
        ensures
            self.may_return(name@, params@, outcome_view(r)),
    {
        match split_head(name) {
            None => Err(ProviderError::NotFound(name.to_owned())),
            Some(head) => {
                match self.find(head.as_str()) {
                    Some(i) => self.entries[i].provider.call(name, params),
                    None => Err(ProviderError::NotFound(name.to_owned())),
                }
            },
        }
    }
}

/// Whatever the first `n` providers offer, where each keeps to its
/// namespace, is named under the namespaces of the registry.
proof fn lemma_parts_are_owned<P: Provider>(
    registry: ProviderRegistry<P>,
    parts: Seq<Seq<ToolView>>,
    n: int,
    k: int,
)
    requires
        registry.sound(),
        0 <= n <= parts.len() == registry@.len(),
        forall|i: int| 0 <= i < parts.len() ==> (#[trigger] registry@[i]).provider.offers(parts[i]),
        0 <= k < concat_upto(parts, n).len(),
    ensures
        named_under(concat_upto(parts, n)[k].name, registry.namespaces()),
    decreases n,
{
    let before = concat_upto(parts, n - 1);
    if k < before.len() {
        lemma_parts_are_owned(registry, parts, n - 1, k);
    } else {
        let at = k - before.len();
        let entry = registry@[n - 1];
        assert(entry.provider.offers(parts[n - 1]));
        assert(keeps_namespace(entry.provider, entry.namespace@));
        assert(owned_by(parts[n - 1][at].name, entry.namespace@));
        lemma_owned_head(parts[n - 1][at].name, entry.namespace@);
        assert(registry.namespaces()[n - 1] == entry.namespace@);
    }
}

/// Every tool of every catalog that the registry may list has the namespace
/// of a registered provider before its first dot, where every provider keeps
/// to its namespace.
pub proof fn lemma_listed_tools_are_owned<P: Provider>(
    registry: ProviderRegistry<P>,
    tools: Seq<ToolView>,
    k: int,
)
    requires
        registry.sound(),
        registry.lists(tools),
        0 <= k < tools.len(),
    ensures
        named_under(tools[k].name, registry.namespaces()),
{
    let parts = choose|parts: Seq<Seq<ToolView>>| #[trigger] registry.made_of(tools, parts);
    lemma_parts_are_owned(registry, parts, parts.len() as int, k);
}

/// Two sequences of parts that agree on their first `n` give the same
/// concatenation of those.
proof fn lemma_concat_same(a: Seq<Seq<ToolView>>, b: Seq<Seq<ToolView>>, n: int)
    requires
        0 <= n <= a.len(),
        n <= b.len(),
        forall|i: int| 0 <= i < n ==> a[i] == b[i],
    ensures
        concat_upto(a, n) == concat_upto(b, n),
    decreases n,
{
    if n > 0 {
        lemma_concat_same(a, b, n - 1);
    }
}

} // verus!
