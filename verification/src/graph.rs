//! The travel graph: a directed multigraph whose nodes are systems and whose
//! edges are either permanent gates or ephemeral wormholes.
//!
//! The graph itself is stored in petgraph's `Graph`, kept behind a small set
//! of trusted wrappers; everything built on top of them — construction,
//! filtering, pathfinding glue — is verified against the two content views
//! `graph_nodes` and `graph_edges`.

use petgraph::graph::EdgeIndex;
use petgraph::graph::NodeIndex;
use vstd::prelude::*;

use crate::capacity::jump_mass_of;
use crate::capacity::wormhole_jump_mass;
use crate::error::criticalerror;
use crate::error::ErrorCategory;
use crate::error::ErrorStatus;
use crate::eve_scout::EveScoutRefresh;
use crate::eve_scout::EveScoutWormhole;
use crate::eve_scout::EveScoutWormholeView;
use crate::nevereq::NeverEq;
use crate::system::System;
use crate::system::SystemView;
use crate::text::clone_opt_string;
use crate::text::dec_str;
use crate::text::u64_to_dec;
use crate::tripwire::SystemOrClass;
use crate::tripwire::TripwireRefresh;
use crate::tripwire::TripwireWormhole;
use crate::tripwire::TripwireWormholeView;
use crate::tripwire::WormholeLife;
use crate::tripwire::WormholeMass;

verus! {

/// The payload of one wormhole edge. `signature` is the label on the side
/// the edge leaves from, `other_signature` the label on the side it enters.
#[derive(Debug, Clone)]
pub struct WormholeAttributes {
    pub signature: Option<String>,
    pub other_signature: Option<String>,
    pub wormhole_type: Option<String>,
    pub life: WormholeLife,
    pub mass: WormholeMass,
    pub jump_mass: Option<u32>,
}

/// The mathematical value of a wormhole edge payload.
pub struct WormholeAttributesView {
    pub signature: Option<Seq<char>>,
    pub other_signature: Option<Seq<char>>,
    pub wormhole_type: Option<Seq<char>>,
    pub life: WormholeLife,
    pub mass: WormholeMass,
    pub jump_mass: Option<u32>,
}

impl DeepView for WormholeAttributes {
    type V = WormholeAttributesView;

    open spec fn deep_view(&self) -> WormholeAttributesView {
        WormholeAttributesView {
            signature: self.signature.deep_view(),
            other_signature: self.other_signature.deep_view(),
            wormhole_type: self.wormhole_type.deep_view(),
            life: self.life,
            mass: self.mass,
            jump_mass: self.jump_mass,
        }
    }
}

/// What one directed edge of the graph is.
#[derive(Debug, Clone)]
pub enum Connection {
    Wormhole(WormholeAttributes),
    Gate,
}

/// The mathematical value of an edge payload.
pub enum ConnectionView {
    Wormhole(WormholeAttributesView),
    Gate,
}

impl DeepView for Connection {
    type V = ConnectionView;

    open spec fn deep_view(&self) -> ConnectionView {
        match self {
            Connection::Wormhole(w) => ConnectionView::Wormhole(w.deep_view()),
            Connection::Gate => ConnectionView::Gate,
        }
    }
}

#[verifier::external_type_specification]
#[verifier::external_body]
#[verifier::reject_recursive_types(N)]
#[verifier::reject_recursive_types(E)]
#[verifier::reject_recursive_types(Ty)]
#[verifier::reject_recursive_types(Ix)]
pub struct ExGraph<N, E, Ty, Ix>(petgraph::graph::Graph<N, E, Ty, Ix>);

#[verifier::external_type_specification]
#[verifier::external_body]
pub struct ExDirected(petgraph::Directed);

/// The graph type everything here works on. The node index type is `usize`,
/// so petgraph's index-capacity limit cannot be hit.
pub type RouteGraph = petgraph::graph::Graph<System, Connection, petgraph::Directed, usize>;

/// The systems held by the graph, in insertion order; node `i` of the graph
/// is the system at index `i`.
pub uninterp spec fn graph_nodes(g: RouteGraph) -> Seq<SystemView>;

/// The directed edges held by the graph, in insertion order, each as
/// `(from node index, to node index, payload)`.
pub uninterp spec fn graph_edges(g: RouteGraph) -> Seq<(usize, usize, ConnectionView)>;

/// Every edge's endpoints lie inside the node list.
pub open spec fn graph_wf(g: RouteGraph) -> bool {
    forall|k: int|
        0 <= k < graph_edges(g).len() ==> (#[trigger] graph_edges(g)[k]).0 < graph_nodes(g).len()
            && graph_edges(g)[k].1 < graph_nodes(g).len()
}

/// Relies on petgraph's `Graph::new`: the graph starts with no nodes and no
/// edges.
#[verifier::external_body]
pub fn graph_new() -> (g: RouteGraph)
    ensures
        graph_nodes(g) == Seq::<SystemView>::empty(),
        graph_edges(g) == Seq::<(usize, usize, ConnectionView)>::empty(),
{
    petgraph::graph::Graph::default()
}

/// Relies on petgraph's `Graph::add_node`: the node is appended to the node
/// list and its index returned; edges are untouched.
#[verifier::external_body]
pub fn graph_add_node(g: &mut RouteGraph, s: System) -> (i: usize)
    ensures
        graph_nodes(*final(g)) == graph_nodes(*old(g)).push(s.deep_view()),
        graph_edges(*final(g)) == graph_edges(*old(g)),
        i == graph_nodes(*old(g)).len(),
{
    g.add_node(s).index()
}

/// Relies on petgraph's `Graph::add_edge`: the edge is appended to the edge
/// list; nodes are untouched. Parallel edges are permitted.
#[verifier::external_body]
pub fn graph_add_edge(g: &mut RouteGraph, a: usize, b: usize, c: Connection)
    requires
        a < graph_nodes(*old(g)).len(),
        b < graph_nodes(*old(g)).len(),
    ensures
        graph_nodes(*final(g)) == graph_nodes(*old(g)),
        graph_edges(*final(g)) == graph_edges(*old(g)).push((a, b, c.deep_view())),
{
    g.add_edge(NodeIndex::new(a), NodeIndex::new(b), c);
}

/// Relies on petgraph's `Graph::node_count`.
#[verifier::external_body]
pub fn graph_node_count(g: &RouteGraph) -> (n: usize)
    ensures
        n == graph_nodes(*g).len(),
{
    g.node_count()
}

/// Relies on petgraph's `Graph::edge_count`.
#[verifier::external_body]
pub fn graph_edge_count(g: &RouteGraph) -> (n: usize)
    ensures
        n == graph_edges(*g).len(),
{
    g.edge_count()
}

/// Relies on petgraph's `Graph::node_weight`: node `i` carries the `i`-th
/// system.
#[verifier::external_body]
pub fn graph_node(g: &RouteGraph, i: usize) -> (s: System)
    requires
        i < graph_nodes(*g).len(),
    ensures
        s.deep_view() == graph_nodes(*g)[i as int],
{
    g.node_weight(NodeIndex::new(i)).unwrap().clone()
}

/// Relies on petgraph's `Graph::edge_endpoints` and `Graph::edge_weight`:
/// edge `k` is the `k`-th inserted edge.
#[verifier::external_body]
pub fn graph_edge(g: &RouteGraph, k: usize) -> (e: (usize, usize, Connection))
    requires
        k < graph_edges(*g).len(),
    ensures
        (e.0, e.1, e.2.deep_view()) == graph_edges(*g)[k as int],
{
    let idx = EdgeIndex::new(k);
    let (a, b) = g.edge_endpoints(idx).unwrap();
    (a.index(), b.index(), g.edge_weight(idx).unwrap().clone())
}

/// The node index under which a system id can be looked up: the last
/// occurrence wins, as it does in a map filled in insertion order.
pub open spec fn last_index_of_id(ss: Seq<SystemView>, id: u32) -> Option<usize>
    decreases ss.len(),
{
    if ss.len() == 0 {
        Option::None
    } else if ss.last().id == id {
        Option::Some((ss.len() - 1) as usize)
    } else {
        last_index_of_id(ss.drop_last(), id)
    }
}

pub proof fn lemma_last_index_of_id_range(ss: Seq<SystemView>, id: u32)
    requires
        ss.len() <= usize::MAX,
    ensures
        last_index_of_id(ss, id) matches Some(i) ==> i < ss.len() && ss[i as int].id == id,
    decreases ss.len(),
{
    if ss.len() == 0 {
    } else if ss.last().id == id {
        assert(ss[ss.len() - 1] == ss.last());
    } else {
        lemma_last_index_of_id_range(ss.drop_last(), id);
        match last_index_of_id(ss.drop_last(), id) {
            Option::Some(i) => {
                assert(i < ss.drop_last().len() && ss.drop_last()[i as int].id == id);
                assert(ss.drop_last()[i as int] == ss[i as int]);
            },
            Option::None => {
            },
        }
    }
}

pub proof fn lemma_last_index_of_id_some(ss: Seq<SystemView>, id: u32)
    requires
        ss.len() <= usize::MAX,
        exists|j: int| 0 <= j < ss.len() && (#[trigger] ss[j]).id == id,
    ensures
        last_index_of_id(ss, id) is Some,
    decreases ss.len(),
{
    if ss.len() > 0 && ss.last().id != id {
        let j = choose|j: int| 0 <= j < ss.len() && (#[trigger] ss[j]).id == id;
        assert(ss.drop_last()[j] == ss[j]);
        lemma_last_index_of_id_some(ss.drop_last(), id);
    }
}

/// The node index of a system id in a system list.
pub fn last_index_of(sde: &Vec<System>, id: u32) -> (r: Option<usize>)
    ensures
        r == last_index_of_id(sde.deep_view(), id),
{
    let ghost dv = sde.deep_view();
    let mut k = sde.len();
    proof {
        assert(dv.take(sde.len() as int) =~= dv);
    }
    while k > 0
        invariant
            k <= sde.len(),
            dv == sde.deep_view(),
            last_index_of_id(dv, id) == last_index_of_id(dv.take(k as int), id),
        decreases k,
    {
        k = k - 1;
        proof {
            assert(dv.take(k + 1).drop_last() =~= dv.take(k as int));
            assert(dv.take(k + 1).last() == dv[k as int]);
        }
        if sde[k].id == id {
            return Some(k);
        }
    }
    proof {
        assert(dv.take(0) =~= Seq::<SystemView>::empty());
    }
    None
}

/// The two directed gate edges for each neighbour of the system at node
/// `i1`, or the first neighbour id that no node carries.
pub open spec fn gate_edges_for(ss: Seq<SystemView>, i1: usize, nbs: Seq<u32>) -> Result<
    Seq<(usize, usize, ConnectionView)>,
    u32,
>
    decreases nbs.len(),
{
    if nbs.len() == 0 {
        Result::Ok(Seq::empty())
    } else {
        match last_index_of_id(ss, nbs[0]) {
            Option::None => Result::Err(nbs[0]),
            Option::Some(i2) => match gate_edges_for(ss, i1, nbs.drop_first()) {
                Result::Err(e) => Result::Err(e),
                Result::Ok(rest) => Result::Ok(
                    seq![(i1, i2, ConnectionView::Gate), (i2, i1, ConnectionView::Gate)] + rest,
                ),
            },
        }
    }
}

/// All gate edges of the systems `rem`, with node indices taken from `ss`.
pub open spec fn gate_edges_from(ss: Seq<SystemView>, rem: Seq<SystemView>) -> Result<
    Seq<(usize, usize, ConnectionView)>,
    u32,
>
    decreases rem.len(),
{
    if rem.len() == 0 {
        Result::Ok(Seq::empty())
    } else {
        match last_index_of_id(ss, rem[0].id) {
            Option::None => Result::Err(rem[0].id),
            Option::Some(i1) => match gate_edges_for(ss, i1, rem[0].neighbours) {
                Result::Err(e) => Result::Err(e),
                Result::Ok(head) => match gate_edges_from(ss, rem.drop_first()) {
                    Result::Err(e) => Result::Err(e),
                    Result::Ok(rest) => Result::Ok(head + rest),
                },
            },
        }
    }
}

/// Every gate edge of the static topology, both directions of every listed
/// neighbour link.
pub open spec fn gate_edges(ss: Seq<SystemView>) -> Result<
    Seq<(usize, usize, ConnectionView)>,
    u32,
> {
    gate_edges_from(ss, ss)
}

/// The edge payload of one direction of an ephemeral wormhole record.
pub open spec fn wormhole_attrs(w: TripwireWormholeView, forward: bool) -> WormholeAttributesView {
    WormholeAttributesView {
        signature: if forward {
            w.from_signature
        } else {
            w.to_signature
        },
        other_signature: if forward {
            w.to_signature
        } else {
            w.from_signature
        },
        wormhole_type: w.wormhole_type,
        life: w.life,
        mass: w.mass,
        jump_mass: match w.wormhole_type {
            Option::None => Option::None,
            Option::Some(t) => jump_mass_of(t),
        },
    }
}

/// The directed edges contributed by the stateful feed's wormholes: two per
/// record whose destination is a specific system, endpoints swapped,
/// signature labels swapped, all other attributes identical. A record whose
/// endpoint is not a known node is a consistency fault.
pub open spec fn tripwire_edges(ss: Seq<SystemView>, whs: Seq<TripwireWormholeView>) -> Result<
    Seq<(usize, usize, ConnectionView)>,
    u32,
>
    decreases whs.len(),
{
    if whs.len() == 0 {
        Result::Ok(Seq::empty())
    } else {
        let w = whs[0];
        let head: Result<Seq<(usize, usize, ConnectionView)>, u32> = match w.to_system {
            SystemOrClass::SpecificSystem(to_id) => match last_index_of_id(ss, w.from_system) {
                Option::None => Result::Err(w.from_system),
                Option::Some(i1) => match last_index_of_id(ss, to_id) {
                    Option::None => Result::Err(to_id),
                    Option::Some(i2) => Result::Ok(
                        seq![
                            (i1, i2, ConnectionView::Wormhole(wormhole_attrs(w, true))),
                            (i2, i1, ConnectionView::Wormhole(wormhole_attrs(w, false))),
                        ],
                    ),
                },
            },
            _ => Result::Ok(Seq::empty()),
        };
        match head {
            Result::Err(e) => Result::Err(e),
            Result::Ok(h) => match tripwire_edges(ss, whs.drop_first()) {
                Result::Err(e) => Result::Err(e),
                Result::Ok(rest) => Result::Ok(h + rest),
            },
        }
    }
}

/// The edge payload of one direction of a public-signature record.
pub open spec fn scout_attrs(w: EveScoutWormholeView, forward: bool) -> WormholeAttributesView {
    WormholeAttributesView {
        signature: Option::Some(
            if forward {
                w.in_signature
            } else {
                w.out_signature
            },
        ),
        other_signature: Option::Some(
            if forward {
                w.out_signature
            } else {
                w.in_signature
            },
        ),
        wormhole_type: Option::Some(w.wh_type),
        life: WormholeLife::Stable,
        mass: WormholeMass::Stable,
        jump_mass: jump_mass_of(w.wh_type),
    }
}

/// The directed edges contributed by the public-signature feed: two per
/// record, endpoints and signature labels swapped, always stable.
pub open spec fn scout_edges(ss: Seq<SystemView>, whs: Seq<EveScoutWormholeView>) -> Result<
    Seq<(usize, usize, ConnectionView)>,
    u32,
>
    decreases whs.len(),
{
    if whs.len() == 0 {
        Result::Ok(Seq::empty())
    } else {
        let w = whs[0];
        match last_index_of_id(ss, w.in_system_id) {
            Option::None => Result::Err(w.in_system_id),
            Option::Some(i1) => match last_index_of_id(ss, w.out_system_id) {
                Option::None => Result::Err(w.out_system_id),
                Option::Some(i2) => match scout_edges(ss, whs.drop_first()) {
                    Result::Err(e) => Result::Err(e),
                    Result::Ok(rest) => Result::Ok(
                        seq![
                            (i1, i2, ConnectionView::Wormhole(scout_attrs(w, true))),
                            (i2, i1, ConnectionView::Wormhole(scout_attrs(w, false))),
                        ] + rest,
                    ),
                },
            },
        }
    }
}

/// Every accepted record of the stateful feed produces exactly two directed
/// edges, endpoints swapped, signature labels swapped, and identical type,
/// life, mass and capacity on both; a record whose destination is not a
/// specific system produces none.
pub proof fn lemma_symmetric_edge_pair(ss: Seq<SystemView>, w: TripwireWormholeView)
    ensures
        match tripwire_edges(ss, seq![w]) {
            Result::Ok(es) => es.len() == 0 || (es.len() == 2 && es[0].0 == es[1].1 && es[0].1
                == es[1].0 && es[0].2 == ConnectionView::Wormhole(wormhole_attrs(w, true))
                && es[1].2 == ConnectionView::Wormhole(wormhole_attrs(w, false))),
            Result::Err(_) => true,
        },
        wormhole_attrs(w, true).wormhole_type == wormhole_attrs(w, false).wormhole_type,
        wormhole_attrs(w, true).life == wormhole_attrs(w, false).life,
        wormhole_attrs(w, true).mass == wormhole_attrs(w, false).mass,
        wormhole_attrs(w, true).jump_mass == wormhole_attrs(w, false).jump_mass,
        wormhole_attrs(w, true).signature == wormhole_attrs(w, false).other_signature,
        wormhole_attrs(w, true).other_signature == wormhole_attrs(w, false).signature,
{
    assert(seq![w].drop_first() =~= Seq::<TripwireWormholeView>::empty());
    assert(tripwire_edges(ss, Seq::<TripwireWormholeView>::empty()) == Result::<
        Seq<(usize, usize, ConnectionView)>,
        u32,
    >::Ok(Seq::empty()));
    match tripwire_edges(ss, seq![w]) {
        Result::Ok(es) => {
            match w.to_system {
                SystemOrClass::SpecificSystem(to_id) => {
                    match last_index_of_id(ss, w.from_system) {
                        Option::Some(i1) => match last_index_of_id(ss, to_id) {
                            Option::Some(i2) => {
                                let pair = seq![
                                    (i1, i2, ConnectionView::Wormhole(wormhole_attrs(w, true))),
                                    (i2, i1, ConnectionView::Wormhole(wormhole_attrs(w, false))),
                                ];
                                assert(es =~= pair);
                            },
                            Option::None => {
                            },
                        },
                        Option::None => {
                        },
                    }
                },
                _ => {
                    assert(es =~= Seq::<(usize, usize, ConnectionView)>::empty());
                },
            }
        },
        Result::Err(_) => {
        },
    }
}

/// Every record of the public-signature feed produces exactly two directed
/// edges, endpoints swapped, signature labels swapped, and identical type,
/// life, mass and capacity on both.
pub proof fn lemma_scout_edge_pair(ss: Seq<SystemView>, w: EveScoutWormholeView)
    ensures
        match scout_edges(ss, seq![w]) {
            Result::Ok(es) => es.len() == 2 && es[0].0 == es[1].1 && es[0].1 == es[1].0 && es[0].2
                == ConnectionView::Wormhole(scout_attrs(w, true)) && es[1].2
                == ConnectionView::Wormhole(scout_attrs(w, false)),
            Result::Err(_) => true,
        },
        scout_attrs(w, true).wormhole_type == scout_attrs(w, false).wormhole_type,
        scout_attrs(w, true).life == scout_attrs(w, false).life,
        scout_attrs(w, true).mass == scout_attrs(w, false).mass,
        scout_attrs(w, true).jump_mass == scout_attrs(w, false).jump_mass,
        scout_attrs(w, true).signature == scout_attrs(w, false).other_signature,
        scout_attrs(w, true).other_signature == scout_attrs(w, false).signature,
{
    assert(seq![w].drop_first() =~= Seq::<EveScoutWormholeView>::empty());
    assert(scout_edges(ss, Seq::<EveScoutWormholeView>::empty()) == Result::<
        Seq<(usize, usize, ConnectionView)>,
        u32,
    >::Ok(Seq::empty()));
    match scout_edges(ss, seq![w]) {
        Result::Ok(es) => {
            match last_index_of_id(ss, w.in_system_id) {
                Option::Some(i1) => match last_index_of_id(ss, w.out_system_id) {
                    Option::Some(i2) => {
                        let pair = seq![
                            (i1, i2, ConnectionView::Wormhole(scout_attrs(w, true))),
                            (i2, i1, ConnectionView::Wormhole(scout_attrs(w, false))),
                        ];
                        assert(es =~= pair);
                    },
                    Option::None => {
                    },
                },
                Option::None => {
                },
            }
        },
        Result::Err(_) => {
        },
    }
}

/// The message with which the builder reports a gate to a system that the
/// static topology does not list.
pub open spec fn gate_missing_msg(id: u32) -> Seq<char> {
    "Gate to system "@ + dec_str(id as nat) + " missing from static data"@
}

/// The message with which the builder reports a wormhole endpoint that the
/// static topology does not list.
pub open spec fn wormhole_missing_msg(id: u32) -> Seq<char> {
    "Wormhole system "@ + dec_str(id as nat) + " missing from static data"@
}

fn gate_missing_error(id: u32) -> (r: ErrorStatus)
    ensures
        r.category == ErrorCategory::Critical,
        r.description@ == gate_missing_msg(id),
{
    criticalerror(
        String::from_str("Gate to system ").concat(u64_to_dec(id as u64).as_str()).concat(
            " missing from static data",
        ),
    )
}

fn wormhole_missing_error(id: u32) -> (r: ErrorStatus)
    ensures
        r.category == ErrorCategory::Critical,
        r.description@ == wormhole_missing_msg(id),
{
    criticalerror(
        String::from_str("Wormhole system ").concat(u64_to_dec(id as u64).as_str()).concat(
            " missing from static data",
        ),
    )
}

proof fn lemma_wf_push(es: Seq<(usize, usize, ConnectionView)>, n: int, e: (usize, usize, ConnectionView))
    requires
        forall|k: int| 0 <= k < es.len() ==> (#[trigger] es[k]).0 < n && es[k].1 < n,
        e.0 < n,
        e.1 < n,
    ensures
        forall|k: int|
            0 <= k < es.push(e).len() ==> (#[trigger] es.push(e)[k]).0 < n && es.push(e)[k].1 < n,
{
    assert forall|k: int|
        0 <= k < es.push(e).len() implies (#[trigger] es.push(e)[k]).0 < n && es.push(e)[k].1
        < n by {
        if k < es.len() {
            assert(es.push(e)[k] == es[k]);
        } else {
            assert(es.push(e)[k] == e);
        }
    }
}

/// Some edge leads directly from node `a` to node `b`.
pub open spec fn edge_connects(
    es: Seq<(usize, usize, ConnectionView)>,
    a: usize,
    b: usize,
) -> bool {
    exists|k: int| 0 <= k < es.len() && (#[trigger] es[k]).0 == a && es[k].1 == b
}

/// `p` walks from `from` to `to` along the edges `es`, one hop per step.
pub open spec fn is_path(
    es: Seq<(usize, usize, ConnectionView)>,
    p: Seq<usize>,
    from: usize,
    to: usize,
) -> bool {
    &&& p.len() >= 1
    &&& p[0] == from
    &&& p[p.len() - 1] == to
    &&& forall|k: int| 0 <= k < p.len() - 1 ==> edge_connects(es, #[trigger] p[k], p[k + 1])
}

fn add_gates_for(g: &mut RouteGraph, sde: &Vec<System>, i1: usize, nbs: &Vec<u32>) -> (r: Result<
    (),
    ErrorStatus,
>)
    requires
        graph_nodes(*old(g)) == sde.deep_view(),
        graph_wf(*old(g)),
        i1 < graph_nodes(*old(g)).len(),
    ensures
        graph_nodes(*final(g)) == graph_nodes(*old(g)),
        graph_wf(*final(g)),
        match gate_edges_for(sde.deep_view(), i1, nbs.deep_view()) {
            Result::Ok(es) => r is Ok && graph_edges(*final(g)) == graph_edges(*old(g)) + es,
            Result::Err(id) => r matches Err(e) && e.category == ErrorCategory::Critical
                && e.description@ == gate_missing_msg(id),
        },
{
    let ghost sv = sde.deep_view();
    let ghost nbv = nbs.deep_view();
    let ghost base = graph_edges(*g);
    let ghost mut added: Seq<(usize, usize, ConnectionView)> = Seq::empty();
    let m = nbs.len();
    let mut k: usize = 0;
    proof {
        assert(sde.len() <= usize::MAX);
        assert(nbv.skip(0) =~= nbv);
        assert(base + added =~= base);
    }
    while k < m
        invariant
            0 <= k <= m,
            m == nbs.len(),
            sv == sde.deep_view(),
            nbv == nbs.deep_view(),
            i1 < sv.len(),
            graph_nodes(*g) == sv,
            graph_nodes(*old(g)) == sv,
            sv.len() <= usize::MAX,
            graph_wf(*g),
            graph_edges(*g) == base + added,
            base == graph_edges(*old(g)),
            gate_edges_for(sv, i1, nbv) == (match gate_edges_for(sv, i1, nbv.skip(k as int)) {
                Result::Ok(rest) => Result::<_, u32>::Ok(added + rest),
                Result::Err(e) => Result::Err(e),
            }),
        decreases m - k,
    {
        proof {
            assert(nbv.skip(k as int)[0] == nbv[k as int]);
            assert(nbv.skip(k as int).drop_first() =~= nbv.skip(k + 1));
        }
        let nb = nbs[k];
        match last_index_of(sde, nb) {
            Option::None => {
                proof {
                    assert(gate_edges_for(sv, i1, nbv.skip(k as int)) == Result::<
                        Seq<(usize, usize, ConnectionView)>,
                        u32,
                    >::Err(nb));
                }
                return Err(gate_missing_error(nb));
            },
            Option::Some(i2) => {
                proof {
                    lemma_last_index_of_id_range(sv, nb);
                }
                graph_add_edge(g, i1, i2, Connection::Gate);
                graph_add_edge(g, i2, i1, Connection::Gate);
                proof {
                    let e1 = (i1, i2, ConnectionView::Gate);
                    let e2 = (i2, i1, ConnectionView::Gate);
                    lemma_wf_push(base + added, sv.len() as int, e1);
                    lemma_wf_push((base + added).push(e1), sv.len() as int, e2);
                    let added_before = added;
                    added = added + seq![e1, e2];
                    assert(graph_edges(*g) =~= base + added);
                    let tail = gate_edges_for(sv, i1, nbv.skip(k + 1));
                    if tail is Ok {
                        assert(added_before + (seq![e1, e2] + tail->Ok_0) =~= added + tail->Ok_0);
                    }
                }
            },
        }
        k = k + 1;
    }
    proof {
        assert(nbv.skip(m as int) =~= Seq::<u32>::empty());
        assert(added + Seq::<(usize, usize, ConnectionView)>::empty() =~= added);
    }
    Ok(())
}

fn add_gate_edges(g: &mut RouteGraph, sde: &Vec<System>) -> (r: Result<(), ErrorStatus>)
    requires
        graph_nodes(*old(g)) == sde.deep_view(),
        graph_wf(*old(g)),
    ensures
        graph_nodes(*final(g)) == graph_nodes(*old(g)),
        graph_wf(*final(g)),
        match gate_edges(sde.deep_view()) {
            Result::Ok(es) => r is Ok && graph_edges(*final(g)) == graph_edges(*old(g)) + es,
            Result::Err(id) => r matches Err(e) && e.category == ErrorCategory::Critical
                && e.description@ == gate_missing_msg(id),
        },
{
    let ghost sv = sde.deep_view();
    let ghost base = graph_edges(*g);
    let ghost mut added: Seq<(usize, usize, ConnectionView)> = Seq::empty();
    let n = sde.len();
    let mut i: usize = 0;
    proof {
        assert(sde.len() <= usize::MAX);
        assert(sv.skip(0) =~= sv);
        assert(base + added =~= base);
    }
    while i < n
        invariant
            0 <= i <= n,
            n == sde.len(),
            sv == sde.deep_view(),
            graph_nodes(*g) == sv,
            graph_nodes(*old(g)) == sv,
            sv.len() <= usize::MAX,
            graph_wf(*g),
            graph_edges(*g) == base + added,
            base == graph_edges(*old(g)),
            gate_edges(sv) == (match gate_edges_from(sv, sv.skip(i as int)) {
                Result::Ok(rest) => Result::<_, u32>::Ok(added + rest),
                Result::Err(e) => Result::Err(e),
            }),
        decreases n - i,
    {
        proof {
            assert(sv.skip(i as int)[0] == sv[i as int]);
            assert(sv.skip(i as int).drop_first() =~= sv.skip(i + 1));
        }
        let s = &sde[i];
        let i1 = match last_index_of(sde, s.id) {
            Option::Some(v) => v,
            Option::None => {
                proof {
                    assert(sv[i as int].id == s.id);
                    lemma_last_index_of_id_some(sv, s.id);
                    assert(false);
                }
                return Err(gate_missing_error(s.id));
            },
        };
        proof {
            lemma_last_index_of_id_range(sv, s.id);
            assert(s.neighbours.deep_view() == sv[i as int].neighbours);
        }
        let ghost added_before = added;
        match add_gates_for(g, sde, i1, &s.neighbours) {
            Err(e) => {
                return Err(e);
            },
            Ok(_) => {
                proof {
                    let head = gate_edges_for(sv, i1, s.neighbours.deep_view())->Ok_0;
                    added = added + head;
                    assert(graph_edges(*g) =~= base + added);
                    let tail = gate_edges_from(sv, sv.skip(i + 1));
                    if tail is Ok {
                        assert(added_before + (head + tail->Ok_0) =~= added + tail->Ok_0);
                    }
                }
            },
        }
        i = i + 1;
    }
    proof {
        assert(sv.skip(n as int) =~= Seq::<SystemView>::empty());
        assert(added + Seq::<(usize, usize, ConnectionView)>::empty() =~= added);
    }
    Ok(())
}

fn add_tripwire_edges(
    g: &mut RouteGraph,
    sde: &Vec<System>,
    whs: &Vec<TripwireWormhole>,
) -> (r: Result<(), ErrorStatus>)
    requires
        graph_nodes(*old(g)) == sde.deep_view(),
        graph_wf(*old(g)),
    ensures
        graph_nodes(*final(g)) == graph_nodes(*old(g)),
        graph_wf(*final(g)),
        match tripwire_edges(sde.deep_view(), whs.deep_view()) {
            Result::Ok(es) => r is Ok && graph_edges(*final(g)) == graph_edges(*old(g)) + es,
            Result::Err(id) => r matches Err(e) && e.category == ErrorCategory::Critical
                && e.description@ == wormhole_missing_msg(id),
        },
{
    let ghost sv = sde.deep_view();
    let ghost wv = whs.deep_view();
    let ghost base = graph_edges(*g);
    let ghost mut added: Seq<(usize, usize, ConnectionView)> = Seq::empty();
    let m = whs.len();
    let mut j: usize = 0;
    proof {
        assert(sde.len() <= usize::MAX);
        assert(wv.skip(0) =~= wv);
        assert(base + added =~= base);
    }
    while j < m
        invariant
            0 <= j <= m,
            m == whs.len(),
            sv == sde.deep_view(),
            wv == whs.deep_view(),
            graph_nodes(*g) == sv,
            graph_nodes(*old(g)) == sv,
            sv.len() <= usize::MAX,
            graph_wf(*g),
            graph_edges(*g) == base + added,
            base == graph_edges(*old(g)),
            tripwire_edges(sv, wv) == (match tripwire_edges(sv, wv.skip(j as int)) {
                Result::Ok(rest) => Result::<_, u32>::Ok(added + rest),
                Result::Err(e) => Result::Err(e),
            }),
        decreases m - j,
    {
        proof {
            assert(wv.skip(j as int)[0] == wv[j as int]);
            assert(wv.skip(j as int).drop_first() =~= wv.skip(j + 1));
        }
        let wh = &whs[j];
        let ghost w = wv[j as int];
        match wh.to_system {
            SystemOrClass::SpecificSystem(to_id) => {
                let i1 = match last_index_of(sde, wh.from_system) {
                    Option::Some(v) => v,
                    Option::None => {
                        return Err(wormhole_missing_error(wh.from_system));
                    },
                };
                let i2 = match last_index_of(sde, to_id) {
                    Option::Some(v) => v,
                    Option::None => {
                        return Err(wormhole_missing_error(to_id));
                    },
                };
                proof {
                    lemma_last_index_of_id_range(sv, wh.from_system);
                    lemma_last_index_of_id_range(sv, to_id);
                }
                let jm = match &wh.wormhole_type {
                    Option::None => Option::None,
                    Option::Some(t) => wormhole_jump_mass(t.as_str()),
                };
                let c1 = Connection::Wormhole(
                    WormholeAttributes {
                        signature: clone_opt_string(&wh.from_signature),
                        other_signature: clone_opt_string(&wh.to_signature),
                        wormhole_type: clone_opt_string(&wh.wormhole_type),
                        life: wh.life,
                        mass: wh.mass,
                        jump_mass: jm,
                    },
                );
                let c2 = Connection::Wormhole(
                    WormholeAttributes {
                        signature: clone_opt_string(&wh.to_signature),
                        other_signature: clone_opt_string(&wh.from_signature),
                        wormhole_type: clone_opt_string(&wh.wormhole_type),
                        life: wh.life,
                        mass: wh.mass,
                        jump_mass: jm,
                    },
                );
                proof {
                    assert(c1.deep_view() == ConnectionView::Wormhole(wormhole_attrs(w, true)));
                    assert(c2.deep_view() == ConnectionView::Wormhole(wormhole_attrs(w, false)));
                }
                graph_add_edge(g, i1, i2, c1);
                graph_add_edge(g, i2, i1, c2);
                proof {
                    let e1 = (i1, i2, ConnectionView::Wormhole(wormhole_attrs(w, true)));
                    let e2 = (i2, i1, ConnectionView::Wormhole(wormhole_attrs(w, false)));
                    lemma_wf_push(base + added, sv.len() as int, e1);
                    lemma_wf_push((base + added).push(e1), sv.len() as int, e2);
                    let added_before = added;
                    added = added + seq![e1, e2];
                    assert(graph_edges(*g) =~= base + added);
                    let tail = tripwire_edges(sv, wv.skip(j + 1));
                    if tail is Ok {
                        assert(added_before + (seq![e1, e2] + tail->Ok_0) =~= added + tail->Ok_0);
                    }
                }
            },
            _ => {
                proof {
                    let tail = tripwire_edges(sv, wv.skip(j + 1));
                    if tail is Ok {
                        assert(Seq::<(usize, usize, ConnectionView)>::empty() + tail->Ok_0
                            =~= tail->Ok_0);
                    }
                }
            },
        }
        j = j + 1;
    }
    proof {
        assert(wv.skip(m as int) =~= Seq::<TripwireWormholeView>::empty());
        assert(added + Seq::<(usize, usize, ConnectionView)>::empty() =~= added);
    }
    Ok(())
}

fn add_scout_edges(
    g: &mut RouteGraph,
    sde: &Vec<System>,
    whs: &Vec<EveScoutWormhole>,
) -> (r: Result<(), ErrorStatus>)
    requires
        graph_nodes(*old(g)) == sde.deep_view(),
        graph_wf(*old(g)),
    ensures
        graph_nodes(*final(g)) == graph_nodes(*old(g)),
        graph_wf(*final(g)),
        match scout_edges(sde.deep_view(), whs.deep_view()) {
            Result::Ok(es) => r is Ok && graph_edges(*final(g)) == graph_edges(*old(g)) + es,
            Result::Err(id) => r matches Err(e) && e.category == ErrorCategory::Critical
                && e.description@ == wormhole_missing_msg(id),
        },
{
    let ghost sv = sde.deep_view();
    let ghost wv = whs.deep_view();
    let ghost base = graph_edges(*g);
    let ghost mut added: Seq<(usize, usize, ConnectionView)> = Seq::empty();
    let m = whs.len();
    let mut j: usize = 0;
    proof {
        assert(sde.len() <= usize::MAX);
        assert(wv.skip(0) =~= wv);
        assert(base + added =~= base);
    }
    while j < m
        invariant
            0 <= j <= m,
            m == whs.len(),
            sv == sde.deep_view(),
            wv == whs.deep_view(),
            graph_nodes(*g) == sv,
            graph_nodes(*old(g)) == sv,
            sv.len() <= usize::MAX,
            graph_wf(*g),
            graph_edges(*g) == base + added,
            base == graph_edges(*old(g)),
            scout_edges(sv, wv) == (match scout_edges(sv, wv.skip(j as int)) {
                Result::Ok(rest) => Result::<_, u32>::Ok(added + rest),
                Result::Err(e) => Result::Err(e),
            }),
        decreases m - j,
    {
        proof {
            assert(wv.skip(j as int)[0] == wv[j as int]);
            assert(wv.skip(j as int).drop_first() =~= wv.skip(j + 1));
        }
        let wh = &whs[j];
        let ghost w = wv[j as int];
        let i1 = match last_index_of(sde, wh.in_system_id) {
            Option::Some(v) => v,
            Option::None => {
                return Err(wormhole_missing_error(wh.in_system_id));
            },
        };
        let i2 = match last_index_of(sde, wh.out_system_id) {
            Option::Some(v) => v,
            Option::None => {
                return Err(wormhole_missing_error(wh.out_system_id));
            },
        };
        proof {
            lemma_last_index_of_id_range(sv, wh.in_system_id);
            lemma_last_index_of_id_range(sv, wh.out_system_id);
        }
        let jm = wormhole_jump_mass(wh.wh_type.as_str());
        let c1 = Connection::Wormhole(
            WormholeAttributes {
                signature: Option::Some(wh.in_signature.clone()),
                other_signature: Option::Some(wh.out_signature.clone()),
                wormhole_type: Option::Some(wh.wh_type.clone()),
                life: WormholeLife::Stable,
                mass: WormholeMass::Stable,
                jump_mass: jm,
            },
        );
        let c2 = Connection::Wormhole(
            WormholeAttributes {
                signature: Option::Some(wh.out_signature.clone()),
                other_signature: Option::Some(wh.in_signature.clone()),
                wormhole_type: Option::Some(wh.wh_type.clone()),
                life: WormholeLife::Stable,
                mass: WormholeMass::Stable,
                jump_mass: jm,
            },
        );
        proof {
            assert(c1.deep_view() == ConnectionView::Wormhole(scout_attrs(w, true)));
            assert(c2.deep_view() == ConnectionView::Wormhole(scout_attrs(w, false)));
        }
        graph_add_edge(g, i1, i2, c1);
        graph_add_edge(g, i2, i1, c2);
        proof {
            let e1 = (i1, i2, ConnectionView::Wormhole(scout_attrs(w, true)));
            let e2 = (i2, i1, ConnectionView::Wormhole(scout_attrs(w, false)));
            lemma_wf_push(base + added, sv.len() as int, e1);
            lemma_wf_push((base + added).push(e1), sv.len() as int, e2);
            let added_before = added;
            added = added + seq![e1, e2];
            assert(graph_edges(*g) =~= base + added);
            let tail = scout_edges(sv, wv.skip(j + 1));
            if tail is Ok {
                assert(added_before + (seq![e1, e2] + tail->Ok_0) =~= added + tail->Ok_0);
            }
        }
        j = j + 1;
    }
    proof {
        assert(wv.skip(m as int) =~= Seq::<EveScoutWormholeView>::empty());
        assert(added + Seq::<(usize, usize, ConnectionView)>::empty() =~= added);
    }
    Ok(())
}

/// The graph builder: one node per system of the static topology, two gate
/// edges per listed neighbour link, and two wormhole edges per ephemeral
/// record of each feed snapshot. Purely a function of its inputs; a link
/// referencing an id with no node is a critical consistency fault.
pub fn get_graph(
    sde: Vec<System>,
    tripwire_refresh: Option<TripwireRefresh>,
    eve_scout_refresh: Option<EveScoutRefresh>,
) -> (r: Result<NeverEq<RouteGraph>, ErrorStatus>)
    ensures
        ({
            let sv = sde.deep_view();
            let tv = (match tripwire_refresh {
                Option::Some(t) => t.wormholes.deep_view(),
                Option::None => Seq::empty(),
            });
            let ev = (match eve_scout_refresh {
                Option::Some(e) => e.wormholes.deep_view(),
                Option::None => Seq::empty(),
            });
            match gate_edges(sv) {
                Result::Err(id) => r matches Err(e) && e.category == ErrorCategory::Critical
                    && e.description@ == gate_missing_msg(id),
                Result::Ok(ges) => match tripwire_edges(sv, tv) {
                    Result::Err(id) => r matches Err(e) && e.category == ErrorCategory::Critical
                        && e.description@ == wormhole_missing_msg(id),
                    Result::Ok(tes) => match scout_edges(sv, ev) {
                        Result::Err(id) => r matches Err(e) && e.category
                            == ErrorCategory::Critical && e.description@ == wormhole_missing_msg(
                            id,
                        ),
                        Result::Ok(ses) => r matches Ok(out) && graph_nodes(out.value) == sv
                            && graph_edges(out.value) == ges + tes + ses && graph_wf(out.value),
                    },
                },
            }
        }),
{
    let ghost sv = sde.deep_view();
    let mut graph = graph_new();
    let n = sde.len();
    let mut i: usize = 0;
    proof {
        assert(sv.take(0) =~= Seq::<SystemView>::empty());
    }
    while i < n
        invariant
            0 <= i <= n,
            n == sde.len(),
            sv == sde.deep_view(),
            graph_nodes(graph) == sv.take(i as int),
            graph_edges(graph) == Seq::<(usize, usize, ConnectionView)>::empty(),
        decreases n - i,
    {
        let dup = sde[i].duplicate();
        graph_add_node(&mut graph, dup);
        proof {
            assert(sv.take(i as int).push(sv[i as int]) =~= sv.take(i + 1));
        }
        i = i + 1;
    }
    proof {
        assert(sv.take(n as int) =~= sv);
        assert(graph_wf(graph));
    }
    let ghost e0 = graph_edges(graph);
    match add_gate_edges(&mut graph, &sde) {
        Err(e) => {
            return Err(e);
        },
        Ok(_) => {
        },
    }
    let ghost ges = gate_edges(sv)->Ok_0;
    proof {
        assert(e0 + ges =~= ges);
    }
    match &tripwire_refresh {
        Option::Some(t) => match add_tripwire_edges(&mut graph, &sde, &t.wormholes) {
            Err(e) => {
                return Err(e);
            },
            Ok(_) => {
            },
        },
        Option::None => {
            proof {
                let tes = tripwire_edges(sv, Seq::<TripwireWormholeView>::empty())->Ok_0;
                assert(graph_edges(graph) + tes =~= graph_edges(graph));
            }
        },
    }
    let ghost tv = (match tripwire_refresh {
        Option::Some(t) => t.wormholes.deep_view(),
        Option::None => Seq::<TripwireWormholeView>::empty(),
    });
    let ghost tes = tripwire_edges(sv, tv)->Ok_0;
    match &eve_scout_refresh {
        Option::Some(e) => match add_scout_edges(&mut graph, &sde, &e.wormholes) {
            Err(e) => {
                return Err(e);
            },
            Ok(_) => {
            },
        },
        Option::None => {
            proof {
                let ses = scout_edges(sv, Seq::<EveScoutWormholeView>::empty())->Ok_0;
                assert(graph_edges(graph) + ses =~= graph_edges(graph));
            }
        },
    }
    let ghost ev = (match eve_scout_refresh {
        Option::Some(e) => e.wormholes.deep_view(),
        Option::None => Seq::<EveScoutWormholeView>::empty(),
    });
    let ghost ses = scout_edges(sv, ev)->Ok_0;
    proof {
        assert(graph_edges(graph) =~= ges + tes + ses);
    }
    Ok(NeverEq { value: graph })
}

/// Relies on petgraph's `algo::astar` with unit edge cost and zero (hence
/// admissible) heuristic: it finds a path exactly when one exists, and the
/// path found has the minimum number of hops.
#[verifier::external_body]
pub fn shortest_path(g: &RouteGraph, from: usize, to: usize) -> (r: Option<Vec<usize>>)
    requires
        from < graph_nodes(*g).len(),
        to < graph_nodes(*g).len(),
    ensures
        match r {
            Some(p) => {
                &&& is_path(graph_edges(*g), p@, from, to)
                &&& forall|q: Seq<usize>|
                    is_path(graph_edges(*g), q, from, to) ==> p@.len() <= q.len()
                &&& forall|k: int| 0 <= k < p@.len() ==> #[trigger] p@[k] < graph_nodes(*g).len()
            },
            None => forall|q: Seq<usize>| !is_path(graph_edges(*g), q, from, to),
        },
{
    let (_, p) = petgraph::algo::astar(
        &*g,
        NodeIndex::new(from),
        |n| n == NodeIndex::new(to),
        |_| 1usize,
        |_| 0usize,
    )?;
    Some(p.into_iter().map(|n| n.index()).collect())
}

} // verus!
