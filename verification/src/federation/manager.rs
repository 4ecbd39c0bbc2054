//! The gateway's collection of downstream connections: the aggregated
//! catalog, and the routing of a call to the downstream that owns it.

use crate::config::DownstreamServer;
use crate::engine::provider::{owned_by, tool_views, Tool, ToolView};
use crate::federation::connection::{ConnectionState, DownstreamConnection};
use crate::federation::namespace::{
    lemma_resolution_unique, lemma_strip_prefixed, namespace_tools, namespaced, resolve_namespace,
    resolves_to, stripped, unresolved,
};
use crate::federation::transport::ConnectOutcome;
use crate::json::{optional_json, Json, JsonValue};
use crate::text::{join, join3, text_eq, text_views};
use crate::transport::mcp::ErrorCode;
use vstd::prelude::*;

verus! {

/// Why the gateway did not hand back the result of a call.
#[derive(Debug, PartialEq, Eq)]
pub enum GatewayError {
    /// The tool name is under no configured namespace.
    NotFound { tool: String },
    /// The tool is known, but its downstream cannot be reached now.
    Unavailable { namespace: String },
    /// The downstream was reached and the call did not come back.
    Downstream { namespace: String, reason: String },
}

/// The mathematical value of a [`GatewayError`].
pub ghost enum GatewayFailure {
    NotFound { tool: Seq<char> },
    Unavailable { namespace: Seq<char> },
    Downstream { namespace: Seq<char>, reason: Seq<char> },
}

impl View for GatewayError {
    type V = GatewayFailure;

    open spec fn view(&self) -> GatewayFailure {
        match self {
            GatewayError::NotFound { tool } => GatewayFailure::NotFound { tool: tool@ },
            GatewayError::Unavailable { namespace } => GatewayFailure::Unavailable {
                namespace: namespace@,
            },
            GatewayError::Downstream { namespace, reason } => GatewayFailure::Downstream {
                namespace: namespace@,
                reason: reason@,
            },
        }
    }
}

impl GatewayFailure {
    /// The error code that the failure is reported under.
    pub open spec fn code(self) -> ErrorCode {
        match self {
            GatewayFailure::NotFound { .. } => ErrorCode::MethodNotFound,
            GatewayFailure::Unavailable { .. } => ErrorCode::InternalError,
            GatewayFailure::Downstream { .. } => ErrorCode::InternalError,
        }
    }

    /// The sentence that the failure is reported with.
    pub open spec fn message(self) -> Seq<char> {
        match self {
            GatewayFailure::NotFound { tool } => "No downstream registered for tool: "@ + tool,
            GatewayFailure::Unavailable { namespace } => "Downstream '"@ + namespace
                + "' is not healthy"@,
            GatewayFailure::Downstream { namespace, reason } => "Downstream '"@ + namespace
                + "' error: "@ + reason,
        }
    }
}

impl GatewayError {
    /// The error code that the failure is reported under.
    pub fn code(&self) -> (r: ErrorCode)
        ensures
            r == self@.code(),
    {
        match self {
            GatewayError::NotFound { .. } => ErrorCode::MethodNotFound,
            GatewayError::Unavailable { .. } => ErrorCode::InternalError,
            GatewayError::Downstream { .. } => ErrorCode::InternalError,
        }
    }

    /// The sentence that the failure is reported with.
    pub fn message(&self) -> (r: String)
        ensures
            r@ == self@.message(),
    {
        match self {
            GatewayError::NotFound { tool } => join(
                "No downstream registered for tool: ",
                tool.as_str(),
            ),
            GatewayError::Unavailable { namespace } => join3(
                "Downstream '",
                namespace.as_str(),
                "' is not healthy",
            ),
            GatewayError::Downstream { namespace, reason } => {
                let mut r = join3("Downstream '", namespace.as_str(), "' error: ");
                r.append(reason.as_str());
                r
            },
        }
    }
}

/// A call that the gateway has routed: the downstream to forward to, and what
/// to forward.
#[derive(Debug)]
pub struct RoutedCall {
    /// The place of the downstream in the gateway's collection.
    pub connection: usize,
    /// The namespace that the tool name was under.
    pub namespace: String,
    /// The tool's own name, without the namespace.
    pub tool: String,
    /// The arguments, where they are an object.
    pub arguments: Option<Json>,
}

/// The arguments that are forwarded: the given ones where they are an
/// object, none otherwise.
pub open spec fn forwarded(arguments: JsonValue) -> Option<JsonValue> {
    if arguments is Object {
        Some(arguments)
    } else {
        None
    }
}

/// The namespaces of the connections, in order.
pub open spec fn namespaces_of<C, H>(connections: Seq<DownstreamConnection<C, H>>) -> Seq<Seq<char>> {
    Seq::new(connections.len(), |i: int| connections[i].namespace@)
}

/// What the first `n` connections add to the catalog, in order.
pub open spec fn catalog_upto<C, H>(connections: Seq<DownstreamConnection<C, H>>, n: int) -> Seq<
    ToolView,
>
    decreases n,
{
    if n <= 0 {
        Seq::empty()
    } else {
        catalog_upto(connections, n - 1) + connections[n - 1].contribution()
    }
}

/// The aggregated catalog: the tools of every `Healthy` connection, connection
/// after connection.
pub open spec fn catalog_of<C, H>(connections: Seq<DownstreamConnection<C, H>>) -> Seq<ToolView> {
    catalog_upto(connections, connections.len() as int)
}

/// Where each tool of what the first `n` connections add to the catalog is
/// held: the place of its connection, and its place among that connection's
/// tools.
pub open spec fn places_upto<C, H>(connections: Seq<DownstreamConnection<C, H>>, n: int) -> Seq<
    (int, int),
>
    decreases n,
{
    if n <= 0 {
        Seq::empty()
    } else {
        places_upto(connections, n - 1) + if connections[n - 1].state == ConnectionState::Healthy {
            Seq::new(connections[n - 1].tools@.len(), |k: int| (n - 1, k))
        } else {
            Seq::empty()
        }
    }
}

/// Where each tool of the catalog is held.
pub open spec fn places_of<C, H>(connections: Seq<DownstreamConnection<C, H>>) -> Seq<(int, int)> {
    places_upto(connections, connections.len() as int)
}

/// The places as pairs of integers.
pub open spec fn place_views(places: Seq<(usize, usize)>) -> Seq<(int, int)> {
    Seq::new(places.len(), |k: int| (places[k].0 as int, places[k].1 as int))
}

/// The places go with the catalog: there is one place for each tool of the
/// catalog, and at that place a `Healthy` connection holds that tool.
pub proof fn lemma_places_hold_the_catalog<C, H>(
    connections: Seq<DownstreamConnection<C, H>>,
    n: int,
)
    requires
        0 <= n <= connections.len(),
    ensures
        places_upto(connections, n).len() == catalog_upto(connections, n).len(),
        forall|k: int|
            0 <= k < places_upto(connections, n).len() ==> {
                let place = #[trigger] places_upto(connections, n)[k];
                &&& 0 <= place.0 < n
                &&& connections[place.0].state == ConnectionState::Healthy
                &&& 0 <= place.1 < connections[place.0].tools@.len()
                &&& catalog_upto(connections, n)[k] == connections[place.0].tools@[place.1]@
            },
    decreases n,
{
    if n > 0 {
        lemma_places_hold_the_catalog(connections, n - 1);
        let before = places_upto(connections, n - 1);
        let last = connections[n - 1];
        assert forall|k: int| 0 <= k < places_upto(connections, n).len() implies {
            let place = #[trigger] places_upto(connections, n)[k];
            &&& 0 <= place.0 < n
            &&& connections[place.0].state == ConnectionState::Healthy
            &&& 0 <= place.1 < connections[place.0].tools@.len()
            &&& catalog_upto(connections, n)[k] == connections[place.0].tools@[place.1]@
        } by {
            if k < before.len() {
                assert(places_upto(connections, n)[k] == before[k]);
            } else {
                assert(places_upto(connections, n)[k] == (n - 1, k - before.len()));
                assert(catalog_upto(connections, n)[k] == tool_views(last.tools@)[k - before.len()]);
            }
        }
    }
}

/// `i` is the place of the connection that serves `namespace`: the first one
/// under that namespace that is ready to serve.
pub open spec fn serving_at<C, H>(
    connections: Seq<DownstreamConnection<C, H>>,
    namespace: Seq<char>,
    i: int,
) -> bool {
    &&& 0 <= i < connections.len()
    &&& connections[i].namespace@ == namespace
    &&& connections[i].serves()
    &&& forall|j: int|
        0 <= j < i ==> !((#[trigger] connections[j]).namespace@ == namespace && connections[j].serves())
}

/// No connection under `namespace` is ready to serve.
pub open spec fn unserved<C, H>(connections: Seq<DownstreamConnection<C, H>>, namespace: Seq<char>) -> bool {
    forall|i: int|
        0 <= i < connections.len() ==> !((#[trigger] connections[i]).namespace@ == namespace
            && connections[i].serves())
}

/// The connection that an attempt to reach a downstream leaves behind:
/// `Healthy` with the peer and the tools under the namespace, or `Failed`
/// with nothing.
pub open spec fn settled<C, H>(
    connection: DownstreamConnection<C, H>,
    namespace: Seq<char>,
    outcome: ConnectOutcome<C>,
) -> bool {
    &&& connection.namespace@ == namespace
    &&& connection.child is None
    &&& match outcome {
        ConnectOutcome::Connected { client, tools } => {
            &&& connection.state == ConnectionState::Healthy
            &&& connection.client == Some(client)
            &&& connection.tools@.len() == tools@.len()
            &&& forall|k: int|
                0 <= k < tools@.len() ==> (#[trigger] connection.tools@[k])@ == namespaced(
                    namespace,
                    tools@[k]@,
                )
        },
        _ => {
            &&& connection.state == ConnectionState::Failed
            &&& connection.client is None
            &&& connection.tools@.len() == 0
        },
    }
}

/// Every tool that the connection holds is named under its namespace.
pub open spec fn well_namespaced<C, H>(connection: DownstreamConnection<C, H>) -> bool {
    forall|k: int|
        0 <= k < connection.tools@.len() ==> owned_by(
            (#[trigger] connection.tools@[k]).name@,
            connection.namespace@,
        )
}

/// `i` is the place of a connection that adds `tool` to the catalog: it is
/// `Healthy` and holds the tool.
pub open spec fn adds<C, H>(connections: Seq<DownstreamConnection<C, H>>, i: int, tool: ToolView) -> bool {
    &&& 0 <= i < connections.len()
    &&& connections[i].state == ConnectionState::Healthy
    &&& tool_views(connections[i].tools@).contains(tool)
}

/// `tool` comes from a connection that is `Healthy`, holds it, and has it
/// under its namespace.
pub open spec fn served<C, H>(connections: Seq<DownstreamConnection<C, H>>, tool: ToolView) -> bool {
    exists|i: int| #[trigger] adds(connections, i, tool) && owned_by(tool.name, connections[i].namespace@)
}

/// A connection that an attempt left behind holds its tools under its
/// namespace.
pub proof fn lemma_settled_is_namespaced<C, H>(
    connection: DownstreamConnection<C, H>,
    namespace: Seq<char>,
    outcome: ConnectOutcome<C>,
)
    requires
        settled(connection, namespace, outcome),
    ensures
        well_namespaced(connection),
{
    assert forall|k: int| 0 <= k < connection.tools@.len() implies owned_by(
        (#[trigger] connection.tools@[k]).name@,
        connection.namespace@,
    ) by {
        match outcome {
            ConnectOutcome::Connected { client, tools } => {
                assert(connection.tools@[k]@ == namespaced(namespace, tools@[k]@));
                lemma_strip_prefixed(namespace, tools@[k].name@);
            },
            _ => {},
        }
    }
}

/// Every tool of the catalog comes from a connection that is `Healthy` and
/// holds it: a connection in another state adds nothing, whatever tools it
/// still holds.
pub proof fn lemma_catalog_is_of_healthy<C, H>(connections: Seq<DownstreamConnection<C, H>>, n: int, k: int)
    requires
        0 <= n <= connections.len(),
        0 <= k < catalog_upto(connections, n).len(),
    ensures
        exists|i: int| 0 <= i < n && #[trigger] adds(connections, i, catalog_upto(connections, n)[k]),
    decreases n,
{
    let before = catalog_upto(connections, n - 1);
    let tool = catalog_upto(connections, n)[k];
    if k < before.len() {
        lemma_catalog_is_of_healthy(connections, n - 1, k);
        let i = choose|i: int| 0 <= i < n - 1 && #[trigger] adds(connections, i, before[k]);
        assert(adds(connections, i, tool));
    } else {
        let last = connections[n - 1];
        assert(last.contribution()[k - before.len()] == tool);
        assert(tool_views(last.tools@)[k - before.len()] == tool);
        assert(adds(connections, n - 1, tool));
    }
}

/// Every tool of the catalog is named under the namespace of the connection
/// that it comes from, where every connection holds its tools under its
/// namespace.
pub proof fn lemma_catalog_is_namespaced<C, H>(connections: Seq<DownstreamConnection<C, H>>, k: int)
    requires
        forall|i: int| 0 <= i < connections.len() ==> well_namespaced(#[trigger] connections[i]),
        0 <= k < catalog_of(connections).len(),
    ensures
        served(connections, catalog_of(connections)[k]),
{
    let tool = catalog_of(connections)[k];
    lemma_catalog_is_of_healthy(connections, connections.len() as int, k);
    let i = choose|i: int| 0 <= i < connections.len() && #[trigger] adds(connections, i, tool);
    let views = tool_views(connections[i].tools@);
    let at = choose|at: int| 0 <= at < views.len() && views[at] == tool;
    assert(well_namespaced(connections[i]));
    assert(connections[i].tools@[at].name@ == tool.name);
}

/// Two namespaces are apart: they differ, and neither is under the other.
pub open spec fn apart(a: Seq<char>, b: Seq<char>) -> bool {
    a != b && !owned_by(a, b) && !owned_by(b, a)
}

/// No two of the tools have the same name.
pub open spec fn distinct_names(tools: Seq<ToolView>) -> bool {
    forall|a: int, b: int| 0 <= a < b < tools.len() ==> tools[a].name != tools[b].name
}

/// The namespaces of the connections are pairwise apart.
pub open spec fn namespaces_apart<C, H>(connections: Seq<DownstreamConnection<C, H>>) -> bool {
    forall|i: int, j: int|
        0 <= i < j < connections.len() ==> apart(
            (#[trigger] connections[i]).namespace@,
            (#[trigger] connections[j]).namespace@,
        )
}

/// Of two namespaces that one name is under, one is the other or is under
/// the other.
pub proof fn lemma_one_owner(name: Seq<char>, a: Seq<char>, b: Seq<char>)
    requires
        owned_by(name, a),
        owned_by(name, b),
    ensures
        !apart(a, b),
{
    if a.len() == b.len() {
        assert(a =~= b);
    } else if a.len() < b.len() {
        assert(b =~= name.take(b.len() as int));
        assert(b.take(a.len() as int) =~= name.take(a.len() as int));
        assert(owned_by(b, a));
    } else {
        assert(a =~= name.take(a.len() as int));
        assert(a.take(b.len() as int) =~= name.take(b.len() as int));
        assert(owned_by(a, b));
    }
}

/// No two tools of what the first `n` connections add to the catalog have the
/// same name, under the conditions of `lemma_catalog_names_are_distinct`.
proof fn lemma_catalog_names_upto<C, H>(
    connections: Seq<DownstreamConnection<C, H>>,
    n: int,
    a: int,
    b: int,
)
    requires
        forall|i: int| 0 <= i < connections.len() ==> well_namespaced(#[trigger] connections[i]),
        namespaces_apart(connections),
        forall|i: int|
            0 <= i < connections.len() ==> distinct_names(
                tool_views((#[trigger] connections[i]).tools@),
            ),
        0 <= n <= connections.len(),
        0 <= a < b < catalog_upto(connections, n).len(),
    ensures
        catalog_upto(connections, n)[a].name != catalog_upto(connections, n)[b].name,
    decreases n,
{
    let before = catalog_upto(connections, n - 1);
    let last = connections[n - 1];
    let whole = catalog_upto(connections, n);
    if b < before.len() {
        lemma_catalog_names_upto(connections, n - 1, a, b);
    } else if a >= before.len() {
        let views = tool_views(last.tools@);
        assert(distinct_names(views));
        assert(whole[a] == views[a - before.len()]);
        assert(whole[b] == views[b - before.len()]);
    } else {
        lemma_catalog_is_of_healthy(connections, n - 1, a);
        let i = choose|i: int| 0 <= i < n - 1 && #[trigger] adds(connections, i, before[a]);
        let earlier = tool_views(connections[i].tools@);
        let at = choose|at: int| 0 <= at < earlier.len() && earlier[at] == before[a];
        assert(well_namespaced(connections[i]));
        assert(connections[i].tools@[at].name@ == whole[a].name);
        let views = tool_views(last.tools@);
        let here = b - before.len();
        assert(whole[b] == views[here]);
        assert(well_namespaced(last));
        assert(last.tools@[here].name@ == whole[b].name);
        if whole[a].name == whole[b].name {
            lemma_one_owner(whole[a].name, connections[i].namespace@, last.namespace@);
            assert(apart(connections[i].namespace@, connections[n - 1].namespace@));
        }
    }
}

/// The names of the catalog are pairwise distinct, where the namespaces of
/// the connections are pairwise apart, every connection holds its tools under
/// its namespace, and no connection holds two tools of one name. Without these
/// conditions a name can occur twice: under a namespace that is configured
/// twice, or as `docker.status` under `linux` beside `status` under
/// `linux.docker`.
pub proof fn lemma_catalog_names_are_distinct<C, H>(connections: Seq<DownstreamConnection<C, H>>)
    requires
        forall|i: int| 0 <= i < connections.len() ==> well_namespaced(#[trigger] connections[i]),
        namespaces_apart(connections),
        forall|i: int|
            0 <= i < connections.len() ==> distinct_names(
                tool_views((#[trigger] connections[i]).tools@),
            ),
    ensures
        distinct_names(catalog_of(connections)),
{
    assert forall|a: int, b: int| 0 <= a < b < catalog_of(connections).len() implies catalog_of(
        connections,
    )[a].name != catalog_of(connections)[b].name by {
        lemma_catalog_names_upto(connections, connections.len() as int, a, b);
    }
}

/// A namespace maps to one connection, where the namespaces of the
/// connections are pairwise apart: the connection that serves a namespace is
/// the only one under it.
pub proof fn lemma_namespace_has_one_connection<C, H>(
    connections: Seq<DownstreamConnection<C, H>>,
    namespace: Seq<char>,
    i: int,
    j: int,
)
    requires
        namespaces_apart(connections),
        serving_at(connections, namespace, i),
        0 <= j < connections.len(),
        connections[j].namespace@ == namespace,
    ensures
        i == j,
{
    if i < j {
        assert(apart(connections[i].namespace@, connections[j].namespace@));
    } else if j < i {
        assert(apart(connections[j].namespace@, connections[i].namespace@));
    }
}

/// A connection that is not `Healthy` takes nothing from the catalog and adds
/// nothing to it.
pub proof fn lemma_unhealthy_adds_nothing<C, H>(
    connections: Seq<DownstreamConnection<C, H>>,
    connection: DownstreamConnection<C, H>,
)
    requires
        connection.state != ConnectionState::Healthy,
    ensures
        catalog_of(connections.push(connection)) == catalog_of(connections),
{
    let longer = connections.push(connection);
    lemma_catalog_prefix(connections, longer, connections.len() as int);
    assert(catalog_upto(longer, longer.len() as int) =~= catalog_upto(longer, longer.len() - 1));
}

/// Collections that agree on their first `n` connections have the same
/// catalog of those.
pub proof fn lemma_catalog_prefix<C, H>(
    a: Seq<DownstreamConnection<C, H>>,
    b: Seq<DownstreamConnection<C, H>>,
    n: int,
)
    requires
        0 <= n <= a.len(),
        n <= b.len(),
        forall|i: int| 0 <= i < n ==> a[i] == b[i],
    ensures
        catalog_upto(a, n) == catalog_upto(b, n),
    decreases n,
{
    if n > 0 {
        lemma_catalog_prefix(a, b, n - 1);
    }
}

/// All downstream connections of a gateway, in the order of their
/// configuration. A connection is never removed: one that failed stays, and
/// adds nothing to the catalog.
pub struct FederationManager<C, H> {
    downstreams: Vec<DownstreamConnection<C, H>>,
}

impl<C, H> View for FederationManager<C, H> {
    type V = Seq<DownstreamConnection<C, H>>;

    closed spec fn view(&self) -> Seq<DownstreamConnection<C, H>> {
        self.downstreams@
    }
}

impl<C, H> Default for FederationManager<C, H> {
    fn default() -> (r: Self)
        ensures
            r@.len() == 0,
            r.wf(),
    {
        FederationManager { downstreams: Vec::new() }
    }
}

impl<C, H> FederationManager<C, H> {
    /// Every connection holds its tools under its namespace.
    pub open spec fn wf(&self) -> bool {
        forall|i: int| 0 <= i < self@.len() ==> well_namespaced(#[trigger] self@[i])
    }

    #[verifier::type_invariant]
    spec fn well_formed(self) -> bool {
        self.wf()
    }

    /// Whether `r` is what routing the call of `tool_name` with `arguments`
    /// gives: a `NotFound` failure where the name is under no namespace; an
    /// `Unavailable` one where it resolves to a namespace that no connection
    /// serves; and else the call to forward, to the serving connection, with the
    /// tool's own name.
    pub open spec fn routes(
        &self,
        tool_name: Seq<char>,
        arguments: JsonValue,
        r: Result<RoutedCall, GatewayError>,
    ) -> bool {
        let namespaces = namespaces_of(self@);
        match r {
            Ok(call) => {
                &&& resolves_to(namespaces, tool_name, call.namespace@)
                &&& stripped(call.namespace@, tool_name) == Some(call.tool@)
                &&& serving_at(self@, call.namespace@, call.connection as int)
                &&& optional_json(call.arguments) == forwarded(arguments)
            },
            Err(GatewayError::NotFound { tool }) => {
                &&& unresolved(namespaces, tool_name)
                &&& tool@ == tool_name
            },
            Err(GatewayError::Unavailable { namespace }) => {
                &&& resolves_to(namespaces, tool_name, namespace@)
                &&& unserved(self@, namespace@)
            },
            Err(GatewayError::Downstream { .. }) => false,
        }
    }

    /// A gateway without downstreams.
    pub fn new() -> (r: Self)
        ensures
            r@.len() == 0,
            r.wf(),
    {
        FederationManager { downstreams: Vec::new() }
    }

    /// Takes in what the attempt to reach one configured downstream gave. The
    /// connection goes from `Configured` through `Starting` to `Healthy`, with
    /// the peer and with the tools under the namespace, or to `Failed`. Either
    /// way it is added to the collection, after the ones that are there.
    pub fn add_downstream(&mut self, config: &DownstreamServer, outcome: ConnectOutcome<C>)
        ensures
            final(self)@.len() == old(self)@.len() + 1,
            forall|i: int| 0 <= i < old(self)@.len() ==> final(self)@[i] == old(self)@[i],
            settled(final(self)@.last(), config.namespace@, outcome),
            final(self).wf(),
    {
        proof {
            use_type_invariant(&*self);
        }
        let ghost before = self@;
        let mut conn: DownstreamConnection<C, H> = DownstreamConnection::new(
            config.namespace.clone(),
        );
        conn.mark_starting();
        match outcome {
            ConnectOutcome::Connected { client, tools } => {
                let namespaced = namespace_tools(config.namespace.as_str(), tools.as_slice());
                conn.mark_healthy(namespaced);
                conn.client = Some(client);
            },
            ConnectOutcome::ConnectFailed { .. } => {
                conn.mark_failed();
            },
            ConnectOutcome::DiscoveryFailed { .. } => {
                conn.mark_failed();
            },
        }
        proof {
            lemma_settled_is_namespaced(conn, config.namespace@, outcome);
        }
        let mut downstreams: Vec<DownstreamConnection<C, H>> = Vec::new();
        std::mem::swap(&mut self.downstreams, &mut downstreams);
        downstreams.push(conn);
        assert forall|i: int| 0 <= i < downstreams@.len() implies well_namespaced(
            #[trigger] downstreams@[i],
        ) by {
            if i < before.len() {
                assert(downstreams@[i] == before[i]);
            }
        }
        std::mem::swap(&mut self.downstreams, &mut downstreams);
    }

    /// Takes in what the attempts to reach the configured downstreams gave, one
    /// entry after the other. A downstream that failed takes nothing from the
    /// ones after it: every entry leaves its connection.
    pub fn init_from_config(&mut self, attempts: Vec<(DownstreamServer, ConnectOutcome<C>)>)
        ensures
            final(self)@.len() == old(self)@.len() + attempts@.len(),
            forall|i: int| 0 <= i < old(self)@.len() ==> final(self)@[i] == old(self)@[i],
            forall|k: int|
                0 <= k < attempts@.len() ==> settled(
                    #[trigger] final(self)@[old(self)@.len() + k],
                    attempts@[k].0.namespace@,
                    attempts@[k].1,
                ),
    {
        let ghost before = self@;
        let ghost all = attempts@;
        for attempt in it: attempts
            invariant
                it.seq() == all,
                self@.len() == before.len() + it.index(),
                forall|i: int| 0 <= i < before.len() ==> self@[i] == before[i],
                forall|k: int|
                    0 <= k < it.index() ==> settled(
                        #[trigger] self@[before.len() + k],
                        all[k].0.namespace@,
                        all[k].1,
                    ),
        {
            let ghost so_far = self@;
            let ghost done = it.index();
            self.add_downstream(&attempt.0, attempt.1);
            proof {
                assert forall|k: int| 0 <= k < done + 1 implies settled(
                    #[trigger] self@[before.len() + k],
                    all[k].0.namespace@,
                    all[k].1,
                ) by {
                    if k < done {
                        assert(self@[before.len() + k] == so_far[before.len() + k]);
                    }
                }
            }
        }
    }

    /// The aggregated catalog: the tools of every connection that is `Healthy`
    /// now, connection after connection. A connection in any other state adds
    /// nothing, whatever it holds.
    pub fn list_all_tools(&self) -> (r: Vec<Tool>)
        ensures
            tool_views(r@) == catalog_of(self@),
            forall|k: int| 0 <= k < r@.len() ==> served(self@, (#[trigger] r@[k])@),
    {
        proof {
            use_type_invariant(self);
            assert forall|k: int| 0 <= k < catalog_of(self@).len() implies served(
                self@,
                #[trigger] catalog_of(self@)[k],
            ) by {
                lemma_catalog_is_namespaced(self@, k);
            }
        }
        let mut all_tools: Vec<Tool> = Vec::new();
        let mut i: usize = 0;
        while i < self.downstreams.len()
            invariant
                i <= self.downstreams.len(),
                tool_views(all_tools@) == catalog_upto(self@, i as int),
            decreases self.downstreams.len() - i,
        {
            let conn = &self.downstreams[i];
            if conn.state == ConnectionState::Healthy {
                let ghost before = all_tools@;
                let mut k: usize = 0;
                while k < conn.tools.len()
                    invariant
                        k <= conn.tools.len(),
                        tool_views(all_tools@) == tool_views(before) + tool_views(conn.tools@).take(
                            k as int,
                        ),
                    decreases conn.tools.len() - k,
                {
                    let ghost so_far = all_tools@;
                    all_tools.push(conn.tools[k].clone());
                    assert(tool_views(all_tools@) =~= tool_views(so_far).push(conn.tools@[k as int]@));
                    assert(tool_views(conn.tools@).take(k + 1) =~= tool_views(conn.tools@).take(
                        k as int,
                    ).push(conn.tools@[k as int]@));
                    k += 1;
                }
                assert(tool_views(conn.tools@).take(conn.tools@.len() as int) =~= tool_views(
                    conn.tools@,
                ));
            } else {
                assert(tool_views(all_tools@) + Seq::<ToolView>::empty() =~= tool_views(all_tools@));
            }
            i += 1;
        }
        assert forall|k: int| 0 <= k < all_tools@.len() implies served(
            self@,
            (#[trigger] all_tools@[k])@,
        ) by {
            assert(tool_views(all_tools@)[k] == all_tools@[k]@);
            assert(catalog_of(self@)[k] == all_tools@[k]@);
            assert(served(self@, catalog_of(self@)[k]));
        }
        all_tools
    }

    /// Where each tool of the aggregated catalog is held: for the tool at each
    /// place of what `list_all_tools` gives, the place of its connection and its
    /// place among the tools that the connection listed.
    pub fn catalog_places(&self) -> (r: Vec<(usize, usize)>)
        ensures
            place_views(r@) == places_of(self@),
            r@.len() == catalog_of(self@).len(),
            forall|k: int|
                0 <= k < r@.len() ==> {
                    let place = #[trigger] r@[k];
                    &&& place.0 < self@.len()
                    &&& self@[place.0 as int].state == ConnectionState::Healthy
                    &&& place.1 < self@[place.0 as int].tools@.len()
                    &&& catalog_of(self@)[k] == self@[place.0 as int].tools@[place.1 as int]@
                },
    {
        let mut places: Vec<(usize, usize)> = Vec::new();
        let mut i: usize = 0;
        assert(place_views(places@) =~= places_upto(self@, 0));
        while i < self.downstreams.len()
            invariant
                i <= self.downstreams.len(),
                place_views(places@) == places_upto(self@, i as int),
            decreases self.downstreams.len() - i,
        {
            let conn = &self.downstreams[i];
            if conn.state == ConnectionState::Healthy {
                let ghost before = places@;
                let ghost here = i as int;
                let mut k: usize = 0;
                assert(place_views(places@) =~= place_views(before) + Seq::new(
                    0,
                    |j: int| (here, j),
                ));
                while k < conn.tools.len()
                    invariant
                        k <= conn.tools.len(),
                        here == i,
                        place_views(places@) == place_views(before) + Seq::new(
                            k as nat,
                            |j: int| (here, j),
                        ),
                    decreases conn.tools.len() - k,
                {
                    let ghost so_far = places@;
                    places.push((i, k));
                    proof {
                        assert(place_views(places@) =~= place_views(so_far).push((here, k as int)));
                        assert(Seq::new((k + 1) as nat, |j: int| (here, j)) =~= Seq::new(
                            k as nat,
                            |j: int| (here, j),
                        ).push((here, k as int)));
                        assert(place_views(places@) =~= place_views(before) + Seq::new(
                            (k + 1) as nat,
                            |j: int| (here, j),
                        ));
                    }
                    k += 1;
                }
                assert(Seq::new(conn.tools@.len(), |j: int| (here, j)) =~= Seq::new(
                    conn.tools@.len(),
                    |k: int| (i + 1 - 1, k),
                ));
            } else {
                assert(place_views(places@) + Seq::<(int, int)>::empty() =~= place_views(places@));
            }
            i += 1;
        }
        proof {
            lemma_places_hold_the_catalog(self@, self@.len() as int);
            assert forall|k: int| 0 <= k < places@.len() implies {
                let place = #[trigger] places@[k];
                &&& place.0 < self@.len()
                &&& self@[place.0 as int].state == ConnectionState::Healthy
                &&& place.1 < self@[place.0 as int].tools@.len()
                &&& catalog_of(self@)[k] == self@[place.0 as int].tools@[place.1 as int]@
            } by {
                assert(place_views(places@)[k] == (places@[k].0 as int, places@[k].1 as int));
                assert(places_of(self@)[k] == place_views(places@)[k]);
            }
        }
        places
    }

    /// The namespace of every configured connection, whatever its state.
    pub fn namespaces(&self) -> (r: Vec<String>)
        ensures
            text_views(r@) == namespaces_of(self@),
    {
        let mut names: Vec<String> = Vec::new();
        let mut i: usize = 0;
        while i < self.downstreams.len()
            invariant
                i <= self.downstreams.len(),
                names.len() == i,
                forall|k: int| 0 <= k < i ==> names@[k]@ == self@[k].namespace@,
            decreases self.downstreams.len() - i,
        {
            names.push(self.downstreams[i].namespace.clone());
            i += 1;
        }
        assert(text_views(names@) =~= namespaces_of(self@));
        names
    }

    /// Routes the call of a tool by its qualified name. The namespace is the
    /// longest configured one that the name is under, and the name that is
    /// forwarded is the tool's own. Nothing is sent: the result says where to
    /// forward the call, or why it cannot be forwarded.
    pub fn route_tool_call(&self, tool_name: &str, arguments: Json) -> (r: Result<
        RoutedCall,
        GatewayError,
    >)
        ensures
            self.routes(tool_name@, arguments@, r),
    {
        let namespaces = self.namespaces();
        let resolved = resolve_namespace(namespaces.as_slice(), tool_name);
        let (target, local) = match resolved {
            None => {
                return Err(GatewayError::NotFound { tool: tool_name.to_owned() });
            },
            Some((target, local)) => (target, local),
        };
        let mut i: usize = 0;
        while i < self.downstreams.len()
            invariant
                i <= self.downstreams.len(),
                resolves_to(namespaces_of(self@), tool_name@, target@),
                stripped(target@, tool_name@) == Some(local@),
                forall|j: int|
                    0 <= j < i ==> !((#[trigger] self@[j]).namespace@ == target@ && self@[j].serves()),
            decreases self.downstreams.len() - i,
        {
            let conn = &self.downstreams[i];
            if text_eq(conn.namespace.as_str(), target) && conn.is_healthy() {
                let forwarded = if arguments.is_object() {
                    Some(arguments)
                } else {
                    None
                };
                return Ok(
                    RoutedCall {
                        connection: i,
                        namespace: target.to_owned(),
                        tool: local,
                        arguments: forwarded,
                    },
                );
            }
            i += 1;
        }
        Err(GatewayError::Unavailable { namespace: target.to_owned() })
    }

    /// The peer of the connection at `connection`, through which a routed call
    /// is forwarded; `None` where there is no such connection, or where it has no
    /// peer.
    pub fn peer(&self, connection: usize) -> (r: Option<&C>)
        ensures
            match r {
                Some(client) => connection < self@.len() && self@[connection as int].client == Some(
                    *client,
                ),
                None => connection >= self@.len() || self@[connection as int].client is None,
            },
    {
        if connection < self.downstreams.len() {
            self.downstreams[connection].client.as_ref()
        } else {
            None
        }
    }

    /// The state of every connection, by its namespace.
    pub fn status_summary(&self) -> (r: Vec<(String, String)>)
        ensures
            r@.len() == self@.len(),
            forall|i: int|
                0 <= i < r@.len() ==> (#[trigger] r@[i]).0@ == self@[i].namespace@ && r@[i].1@
                    == self@[i].state.label_spec(),
    {
        let mut summary: Vec<(String, String)> = Vec::new();
        let mut i: usize = 0;
        while i < self.downstreams.len()
            invariant
                i <= self.downstreams.len(),
                summary.len() == i,
                forall|k: int|
                    0 <= k < i ==> (#[trigger] summary@[k]).0@ == self@[k].namespace@ && summary@[k].1@
                        == self@[k].state.label_spec(),
            decreases self.downstreams.len() - i,
        {
            let conn = &self.downstreams[i];
            summary.push((conn.namespace.clone(), conn.state.label().to_owned()));
            i += 1;
        }
        summary
    }
}

/// Routing is determined: what two routings of one call give agrees in
/// kind, in the namespace, in the tool's name, in the connection and in the
/// arguments.
pub proof fn lemma_routing_is_determined<C, H>(
    manager: FederationManager<C, H>,
    tool_name: Seq<char>,
    arguments: JsonValue,
    a: Result<RoutedCall, GatewayError>,
    b: Result<RoutedCall, GatewayError>,
)
    requires
        manager.routes(tool_name, arguments, a),
        manager.routes(tool_name, arguments, b),
    ensures
        match (a, b) {
            (Ok(x), Ok(y)) => {
                &&& x.namespace@ == y.namespace@
                &&& x.tool@ == y.tool@
                &&& x.connection == y.connection
                &&& optional_json(x.arguments)
                    == optional_json(y.arguments)
            },
            (Err(x), Err(y)) => x@ == y@,
            _ => false,
        },
{
    let namespaces = namespaces_of(manager@);
    match (a, b) {
        (Ok(x), Ok(y)) => {
            lemma_resolution_unique(namespaces, tool_name, x.namespace@, y.namespace@);
        },
        (Ok(x), Err(GatewayError::NotFound { .. })) => {
            lemma_resolved_is_not_unresolved(namespaces, tool_name, x.namespace@);
        },
        (Err(GatewayError::NotFound { .. }), Ok(y)) => {
            lemma_resolved_is_not_unresolved(namespaces, tool_name, y.namespace@);
        },
        (Ok(x), Err(GatewayError::Unavailable { namespace })) => {
            lemma_resolution_unique(namespaces, tool_name, x.namespace@, namespace@);
        },
        (Err(GatewayError::Unavailable { namespace }), Ok(y)) => {
            lemma_resolution_unique(namespaces, tool_name, namespace@, y.namespace@);
        },
        (Err(GatewayError::NotFound { .. }), Err(GatewayError::Unavailable { namespace })) => {
            lemma_resolved_is_not_unresolved(namespaces, tool_name, namespace@);
        },
        (Err(GatewayError::Unavailable { namespace }), Err(GatewayError::NotFound { .. })) => {
            lemma_resolved_is_not_unresolved(namespaces, tool_name, namespace@);
        },
        (Err(GatewayError::Unavailable { namespace: x }), Err(GatewayError::Unavailable { namespace: y })) => {
            lemma_resolution_unique(namespaces, tool_name, x@, y@);
        },
        _ => {},
    }
}

/// A name that resolves to a namespace is not unresolved.
proof fn lemma_resolved_is_not_unresolved(
    namespaces: Seq<Seq<char>>,
    tool_name: Seq<char>,
    namespace: Seq<char>,
)
    requires
        resolves_to(namespaces, tool_name, namespace),
    ensures
        !unresolved(namespaces, tool_name),
{
    let i = choose|i: int| 0 <= i < namespaces.len() && namespaces[i] == namespace;
    assert(owned_by(tool_name, namespaces[i]));
}

/// A name under no configured namespace is not found: routing gives the
/// `NotFound` failure and nothing to forward.
pub proof fn lemma_unknown_namespace_is_not_found<C, H>(
    manager: FederationManager<C, H>,
    tool_name: Seq<char>,
    arguments: JsonValue,
    r: Result<RoutedCall, GatewayError>,
)
    requires
        unresolved(namespaces_of(manager@), tool_name),
        manager.routes(tool_name, arguments, r),
    ensures
        r is Err,
        r->Err_0@ == (GatewayFailure::NotFound { tool: tool_name }),
        r->Err_0@.code() == ErrorCode::MethodNotFound,
{
    match r {
        Ok(call) => {
            lemma_resolved_is_not_unresolved(namespaces_of(manager@), tool_name, call.namespace@);
        },
        Err(GatewayError::Unavailable { namespace }) => {
            lemma_resolved_is_not_unresolved(namespaces_of(manager@), tool_name, namespace@);
        },
        _ => {},
    }
}

/// A name under a configured namespace that no connection serves is
/// unavailable: routing gives the `Unavailable` failure, which is not the
/// `NotFound` one and is reported under another code.
pub proof fn lemma_unserved_namespace_is_unavailable<C, H>(
    manager: FederationManager<C, H>,
    tool_name: Seq<char>,
    arguments: JsonValue,
    namespace: Seq<char>,
    r: Result<RoutedCall, GatewayError>,
)
    requires
        resolves_to(namespaces_of(manager@), tool_name, namespace),
        unserved(manager@, namespace),
        manager.routes(tool_name, arguments, r),
    ensures
        r is Err,
        r->Err_0@ == (GatewayFailure::Unavailable { namespace }),
        !(r->Err_0@ is NotFound),
        r->Err_0@.code() != (GatewayFailure::NotFound { tool: tool_name }).code(),
{
    let namespaces = namespaces_of(manager@);
    match r {
        Ok(call) => {
            lemma_resolution_unique(namespaces, tool_name, namespace, call.namespace@);
            assert(manager@[call.connection as int].serves());
        },
        Err(GatewayError::NotFound { .. }) => {
            lemma_resolved_is_not_unresolved(namespaces, tool_name, namespace);
        },
        Err(GatewayError::Unavailable { namespace: other }) => {
            lemma_resolution_unique(namespaces, tool_name, namespace, other@);
        },
        _ => {},
    }
}

/// A gateway without downstreams has an empty catalog and finds no tool.
pub proof fn lemma_empty_gateway<C, H>(
    manager: FederationManager<C, H>,
    tool_name: Seq<char>,
    arguments: JsonValue,
    r: Result<RoutedCall, GatewayError>,
)
    requires
        manager@.len() == 0,
        manager.routes(tool_name, arguments, r),
    ensures
        namespaces_of(manager@).len() == 0,
        catalog_of(manager@).len() == 0,
        r is Err,
        r->Err_0@ == (GatewayFailure::NotFound { tool: tool_name }),
{
    lemma_unknown_namespace_is_not_found(manager, tool_name, arguments, r);
}

/// What the gateway hands back once the forwarded call has come back: the
/// downstream's result as it is, or a failure that names the downstream and
/// carries the transport's reason.
pub fn complete_tool_call<R>(namespace: &str, outcome: Result<R, String>) -> (r: Result<
    R,
    GatewayError,
>)
    ensures
        match outcome {
            Ok(result) => r == Ok::<R, GatewayError>(result),
            Err(reason) => r is Err && r->Err_0@ == (GatewayFailure::Downstream {
                namespace: namespace@,
                reason: reason@,
            }),
        },
{
    match outcome {
        Ok(result) => Ok(result),
        Err(reason) => Err(GatewayError::Downstream { namespace: namespace.to_owned(), reason }),
    }
}

} // verus!
