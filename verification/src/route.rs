//! Filtering and pathfinding.
//!
//! `filter_graph` is a pure projection of the travel graph: it keeps the
//! systems and connections that pass every active predicate, never touching
//! the source graph. `find_route` runs a minimum-hop search over the
//! filtered graph and reconstructs the ordered (system, connection) route,
//! treating an ambiguous pair of parallel edges on the chosen path as a
//! consistency fault rather than resolving it silently.

use vstd::prelude::*;

use crate::error::criticalerror;
use crate::error::routingerror;
use crate::error::ErrorCategory;
use crate::error::ErrorStatus;
use crate::graph::graph_add_edge;
use crate::graph::graph_add_node;
use crate::graph::graph_edge;
use crate::graph::graph_edge_count;
use crate::graph::graph_edges;
use crate::graph::graph_new;
use crate::graph::graph_node;
use crate::graph::graph_node_count;
use crate::graph::graph_nodes;
use crate::graph::graph_wf;
use crate::graph::is_path;
use crate::graph::shortest_path;
use crate::graph::Connection;
use crate::graph::ConnectionView;
use crate::graph::RouteGraph;
use crate::graph::WormholeAttributesView;
use crate::system::System;
use crate::system::SystemClass;
use crate::system::SystemView;
use crate::tripwire::WormholeLife;
use crate::tripwire::WormholeMass;

verus! {

/// Everything the user can exclude from routing: an explicit avoid-list,
/// class-based system exclusions, attribute-based connection exclusions, and
/// the size of the ship that every traversed wormhole must admit.
#[derive(Debug, Clone)]
pub struct RouteFilter {
    pub avoid_systems: Vec<System>,
    pub ship_size: u32,
    pub exclude_lowsec: bool,
    pub exclude_nullsec: bool,
    pub exclude_voc: bool,
    pub exclude_eol: bool,
}

/// The mathematical value of a filter.
pub struct RouteFilterView {
    pub avoid_systems: Seq<SystemView>,
    pub ship_size: u32,
    pub exclude_lowsec: bool,
    pub exclude_nullsec: bool,
    pub exclude_voc: bool,
    pub exclude_eol: bool,
}

impl DeepView for RouteFilter {
    type V = RouteFilterView;

    open spec fn deep_view(&self) -> RouteFilterView {
        RouteFilterView {
            avoid_systems: self.avoid_systems.deep_view(),
            ship_size: self.ship_size,
            exclude_lowsec: self.exclude_lowsec,
            exclude_nullsec: self.exclude_nullsec,
            exclude_voc: self.exclude_voc,
            exclude_eol: self.exclude_eol,
        }
    }
}

/// Whether the avoid-list names the system id.
pub open spec fn avoid_contains(avoid: Seq<SystemView>, id: u32) -> bool {
    exists|k: int| 0 <= k < avoid.len() && (#[trigger] avoid[k]).id == id
}

/// The node predicate: a system is kept unless it is on the avoid-list or
/// its class is excluded by a toggle.
pub open spec fn keep_system(f: RouteFilterView, s: SystemView) -> bool {
    &&& !avoid_contains(f.avoid_systems, s.id)
    &&& !(f.exclude_lowsec && s.class == SystemClass::Lowsec)
    &&& !(f.exclude_nullsec && s.class == SystemClass::Nullsec)
}

/// The edge predicate: gates always pass; a wormhole is kept unless its mass
/// or life state is excluded by a toggle, or it has a defined capacity
/// smaller than the selected ship size. A wormhole with no defined capacity
/// is never excluded by the capacity rule.
pub open spec fn keep_connection(f: RouteFilterView, c: ConnectionView) -> bool {
    match c {
        ConnectionView::Gate => true,
        ConnectionView::Wormhole(w) => {
            &&& !(f.exclude_voc && w.mass == WormholeMass::VOC)
            &&& !(f.exclude_eol && w.life == WormholeLife::EOL)
            &&& (match w.jump_mass {
                Option::Some(c) => f.ship_size <= c,
                Option::None => true,
            })
        },
    }
}

/// The systems that survive filtering, in their original order.
pub open spec fn filtered_systems(ss: Seq<SystemView>, f: RouteFilterView) -> Seq<SystemView>
    decreases ss.len(),
{
    if ss.len() == 0 {
        Seq::empty()
    } else {
        let rest = filtered_systems(ss.drop_last(), f);
        if keep_system(f, ss.last()) {
            rest.push(ss.last())
        } else {
            rest
        }
    }
}

pub proof fn lemma_filtered_systems_len(ss: Seq<SystemView>, f: RouteFilterView)
    ensures
        filtered_systems(ss, f).len() <= ss.len(),
    decreases ss.len(),
{
    if ss.len() > 0 {
        lemma_filtered_systems_len(ss.drop_last(), f);
    }
}

/// Where a kept node lands in the filtered graph: the number of kept nodes
/// before it.
pub open spec fn remap_index(ss: Seq<SystemView>, f: RouteFilterView, i: int) -> int {
    filtered_systems(ss.take(i), f).len() as int
}

/// The edges that survive filtering: both endpoints kept, the connection
/// kept, endpoints renumbered into the filtered node list.
pub open spec fn filtered_edges(
    ss: Seq<SystemView>,
    es: Seq<(usize, usize, ConnectionView)>,
    f: RouteFilterView,
) -> Seq<(usize, usize, ConnectionView)>
    decreases es.len(),
{
    if es.len() == 0 {
        Seq::empty()
    } else {
        let rest = filtered_edges(ss, es.drop_last(), f);
        let e = es.last();
        if e.0 < ss.len() && e.1 < ss.len() && keep_system(f, ss[e.0 as int]) && keep_system(
            f,
            ss[e.1 as int],
        ) && keep_connection(f, e.2) {
            rest.push(
                (
                    remap_index(ss, f, e.0 as int) as usize,
                    remap_index(ss, f, e.1 as int) as usize,
                    e.2,
                ),
            )
        } else {
            rest
        }
    }
}

/// The capacity rule: among connections not excluded by the mass or life
/// toggles, a wormhole with a defined capacity is retained exactly when the
/// selected ship size does not exceed it.
pub proof fn lemma_capacity_rule(f: RouteFilterView, w: WormholeAttributesView, c: u32)
    requires
        w.jump_mass == Option::Some(c),
        !(f.exclude_voc && w.mass == WormholeMass::VOC),
        !(f.exclude_eol && w.life == WormholeLife::EOL),
    ensures
        keep_connection(f, ConnectionView::Wormhole(w)) <==> f.ship_size <= c,
{
}

/// A wormhole with no defined capacity is never excluded by the capacity
/// rule, whatever the selected ship size.
pub proof fn lemma_undefined_capacity_kept(f: RouteFilterView, w: WormholeAttributesView)
    requires
        w.jump_mass is None,
        !(f.exclude_voc && w.mass == WormholeMass::VOC),
        !(f.exclude_eol && w.life == WormholeLife::EOL),
    ensures
        keep_connection(f, ConnectionView::Wormhole(w)),
{
}

proof fn lemma_contains_push<T>(s: Seq<T>, x: T, v: T)
    ensures
        s.push(x).contains(v) <==> (s.contains(v) || v == x),
{
    if s.push(x).contains(v) {
        let i = choose|i: int| 0 <= i < s.push(x).len() && s.push(x)[i] == v;
        if i < s.len() {
            assert(s[i] == v);
        }
    }
    if s.contains(v) {
        let i = choose|i: int| 0 <= i < s.len() && s[i] == v;
        assert(s.push(x)[i] == v);
    }
    if v == x {
        assert(s.push(x)[s.len() as int] == v);
    }
}

proof fn lemma_remap(ss: Seq<SystemView>, f: RouteFilterView, i: int)
    requires
        0 <= i < ss.len(),
        keep_system(f, ss[i]),
    ensures
        0 <= remap_index(ss, f, i) < filtered_systems(ss, f).len(),
        filtered_systems(ss, f)[remap_index(ss, f, i)] == ss[i],
    decreases ss.len(),
{
    if i == ss.len() - 1 {
        assert(ss.take(i) =~= ss.drop_last());
        assert(ss.last() == ss[i]);
    } else {
        lemma_remap(ss.drop_last(), f, i);
        assert(ss.drop_last().take(i) =~= ss.take(i));
        assert(ss.drop_last()[i] == ss[i]);
    }
}

/// Filtering is monotonic and exact on systems: the filtered graph holds a
/// system exactly when the source graph holds it and it passes the node
/// predicate. In particular the filtered node set is a subset of the
/// source's.
pub proof fn lemma_filter_nodes_exact(ss: Seq<SystemView>, f: RouteFilterView)
    ensures
        forall|s: SystemView| #[trigger]
            filtered_systems(ss, f).contains(s) <==> (ss.contains(s) && keep_system(f, s)),
    decreases ss.len(),
{
    if ss.len() == 0 {
        assert forall|s: SystemView| #[trigger]
            filtered_systems(ss, f).contains(s) <==> (ss.contains(s) && keep_system(
                f,
                s,
            )) by {
            assert(!filtered_systems(ss, f).contains(s));
            assert(!ss.contains(s));
        }
    } else {
        lemma_filter_nodes_exact(ss.drop_last(), f);
        let prev = ss.drop_last();
        let fprev = filtered_systems(prev, f);
        assert forall|s: SystemView| #[trigger]
            filtered_systems(ss, f).contains(s) <==> (ss.contains(s) && keep_system(
                f,
                s,
            )) by {
            lemma_contains_push(prev, ss.last(), s);
            assert(prev.push(ss.last()) =~= ss);
            if keep_system(f, ss.last()) {
                assert(filtered_systems(ss, f) == fprev.push(ss.last()));
                lemma_contains_push(fprev, ss.last(), s);
            } else {
                assert(filtered_systems(ss, f) == fprev);
            }
        }
    }
}

/// The travel seen through an edge: the system it leaves, the system it
/// enters, and its payload.
pub open spec fn edge_views(
    ns: Seq<SystemView>,
    es: Seq<(usize, usize, ConnectionView)>,
) -> Seq<(SystemView, SystemView, ConnectionView)>
    decreases es.len(),
{
    if es.len() == 0 {
        Seq::empty()
    } else {
        edge_views(ns, es.drop_last()).push(
            (ns[es.last().0 as int], ns[es.last().1 as int], es.last().2),
        )
    }
}

/// Filtering is monotonic and exact on edges: seen at the level of
/// (source system, destination system, payload), the filtered graph holds an
/// edge view exactly when the source graph holds it, both endpoints pass the
/// node predicate, and the payload passes the edge predicate. In particular
/// the filtered edge set is a subset of the source's.
pub proof fn lemma_filter_edges_exact(
    ss: Seq<SystemView>,
    es: Seq<(usize, usize, ConnectionView)>,
    f: RouteFilterView,
)
    requires
        ss.len() <= usize::MAX,
        forall|k: int| 0 <= k < es.len() ==> (#[trigger] es[k]).0 < ss.len() && es[k].1 < ss.len(),
    ensures
        forall|v: (SystemView, SystemView, ConnectionView)| #[trigger]
            edge_views(filtered_systems(ss, f), filtered_edges(ss, es, f)).contains(v) <==> (
            edge_views(ss, es).contains(v) && keep_system(f, v.0) && keep_system(f, v.1)
                && keep_connection(f, v.2)),
    decreases es.len(),
{
    let fn_ = filtered_systems(ss, f);
    if es.len() == 0 {
        assert forall|v: (SystemView, SystemView, ConnectionView)| #[trigger]
            edge_views(fn_, filtered_edges(ss, es, f)).contains(v) <==> (edge_views(
                ss,
                es,
            ).contains(v) && keep_system(f, v.0) && keep_system(f, v.1) && keep_connection(
                f,
                v.2,
            )) by {
            assert(!edge_views(fn_, filtered_edges(ss, es, f)).contains(v));
            assert(!edge_views(ss, es).contains(v));
        }
    } else {
        let prev = es.drop_last();
        assert forall|k: int| 0 <= k < prev.len() implies (#[trigger] prev[k]).0 < ss.len()
            && prev[k].1 < ss.len() by {
            assert(prev[k] == es[k]);
        }
        lemma_filter_edges_exact(ss, prev, f);
        let e = es.last();
        assert(e == es[es.len() - 1]);
        let ov = (ss[e.0 as int], ss[e.1 as int], e.2);
        let ev_prev = edge_views(ss, prev);
        let fe_prev = filtered_edges(ss, prev, f);
        let keep_e = keep_system(f, ss[e.0 as int]) && keep_system(f, ss[e.1 as int])
            && keep_connection(f, e.2);
        assert(edge_views(ss, es) == ev_prev.push(ov));
        assert forall|v: (SystemView, SystemView, ConnectionView)| #[trigger]
            edge_views(fn_, filtered_edges(ss, es, f)).contains(v) <==> (edge_views(
                ss,
                es,
            ).contains(v) && keep_system(f, v.0) && keep_system(f, v.1) && keep_connection(
                f,
                v.2,
            )) by {
            lemma_contains_push(ev_prev, ov, v);
            if keep_e {
                lemma_remap(ss, f, e.0 as int);
                lemma_remap(ss, f, e.1 as int);
                lemma_filtered_systems_len(ss, f);
                let me = (
                    remap_index(ss, f, e.0 as int) as usize,
                    remap_index(ss, f, e.1 as int) as usize,
                    e.2,
                );
                assert(me.0 as int == remap_index(ss, f, e.0 as int));
                assert(me.1 as int == remap_index(ss, f, e.1 as int));
                assert(filtered_edges(ss, es, f) == fe_prev.push(me));
                assert(fe_prev.push(me).drop_last() =~= fe_prev);
                assert(fe_prev.push(me).last() == me);
                assert(edge_views(fn_, fe_prev.push(me)) == edge_views(fn_, fe_prev).push(
                    (fn_[me.0 as int], fn_[me.1 as int], me.2),
                ));
                assert((fn_[me.0 as int], fn_[me.1 as int], me.2) == ov);
                lemma_contains_push(edge_views(fn_, fe_prev), ov, v);
            } else {
                assert(filtered_edges(ss, es, f) == fe_prev);
            }
        }
    }
}

fn system_kept(f: &RouteFilter, s: &System) -> (b: bool)
    ensures
        b == keep_system(f.deep_view(), s.deep_view()),
{
    let n = f.avoid_systems.len();
    let mut k: usize = 0;
    while k < n
        invariant
            0 <= k <= n,
            n == f.avoid_systems.len(),
            forall|j: int| 0 <= j < k ==> (#[trigger] f.avoid_systems.deep_view()[j]).id != s.id,
        decreases n - k,
    {
        if f.avoid_systems[k].id == s.id {
            proof {
                assert(f.avoid_systems.deep_view()[k as int].id == s.id);
            }
            return false;
        }
        k = k + 1;
    }
    if f.exclude_lowsec && matches!(s.class, SystemClass::Lowsec) {
        return false;
    }
    if f.exclude_nullsec && matches!(s.class, SystemClass::Nullsec) {
        return false;
    }
    true
}

fn connection_kept(f: &RouteFilter, c: &Connection) -> (b: bool)
    ensures
        b == keep_connection(f.deep_view(), c.deep_view()),
{
    match c {
        Connection::Gate => true,
        Connection::Wormhole(w) => {
            if f.exclude_voc && matches!(w.mass, WormholeMass::VOC) {
                return false;
            }
            if f.exclude_eol && matches!(w.life, WormholeLife::EOL) {
                return false;
            }
            match w.jump_mass {
                Option::Some(jm) => f.ship_size <= jm,
                Option::None => true,
            }
        },
    }
}

/// The pure projection of the graph under a filter: only kept systems, only
/// kept connections whose two endpoints are both kept.
pub fn filter_graph(g: &RouteGraph, f: &RouteFilter) -> (r: RouteGraph)
    requires
        graph_wf(*g),
    ensures
        graph_nodes(r) == filtered_systems(graph_nodes(*g), f.deep_view()),
        graph_edges(r) == filtered_edges(graph_nodes(*g), graph_edges(*g), f.deep_view()),
        graph_wf(r),
{
    let ghost sv = graph_nodes(*g);
    let ghost ev = graph_edges(*g);
    let ghost fv = f.deep_view();
    let mut out = graph_new();
    let mut map: Vec<Option<usize>> = Vec::new();
    let n = graph_node_count(g);
    let mut i: usize = 0;
    proof {
        assert(sv.take(0) =~= Seq::<SystemView>::empty());
    }
    while i < n
        invariant
            0 <= i <= n,
            n == sv.len(),
            sv == graph_nodes(*g),
            ev == graph_edges(*g),
            fv == f.deep_view(),
            graph_wf(*g),
            map@.len() == i,
            graph_nodes(out) == filtered_systems(sv.take(i as int), fv),
            graph_edges(out) == Seq::<(usize, usize, ConnectionView)>::empty(),
            forall|k: int|
                0 <= k < i ==> ((#[trigger] map@[k]) is Some <==> keep_system(fv, sv[k])),
            forall|k: int|
                0 <= k < i ==> ((#[trigger] map@[k]) matches Some(j) ==> j == remap_index(sv, fv, k)
                    && j < graph_nodes(out).len() && graph_nodes(out)[j as int] == sv[k]),
        decreases n - i,
    {
        let s = graph_node(g, i);
        proof {
            assert(sv.take(i + 1).drop_last() =~= sv.take(i as int));
            assert(sv.take(i + 1).last() == sv[i as int]);
        }
        if system_kept(f, &s) {
            let j = graph_add_node(&mut out, s);
            map.push(Some(j));
            proof {
                lemma_filtered_systems_len(sv.take(i as int), fv);
            }
        } else {
            map.push(None);
        }
        i = i + 1;
    }
    proof {
        assert(sv.take(n as int) =~= sv);
        assert(ev.take(0) =~= Seq::<(usize, usize, ConnectionView)>::empty());
    }
    let m = graph_edge_count(g);
    let mut k: usize = 0;
    while k < m
        invariant
            0 <= k <= m,
            m == ev.len(),
            sv == graph_nodes(*g),
            ev == graph_edges(*g),
            fv == f.deep_view(),
            graph_wf(*g),
            map@.len() == sv.len(),
            graph_nodes(out) == filtered_systems(sv, fv),
            graph_edges(out) == filtered_edges(sv, ev.take(k as int), fv),
            graph_wf(out),
            forall|j: int|
                0 <= j < map@.len() ==> ((#[trigger] map@[j]) is Some <==> keep_system(fv, sv[j])),
            forall|j: int|
                0 <= j < map@.len() ==> ((#[trigger] map@[j]) matches Some(x) ==> x == remap_index(
                    sv,
                    fv,
                    j,
                ) && x < graph_nodes(out).len() && graph_nodes(out)[x as int] == sv[j]),
        decreases m - k,
    {
        let e = graph_edge(g, k);
        proof {
            assert(ev.take(k + 1).drop_last() =~= ev.take(k as int));
            assert(ev.take(k + 1).last() == ev[k as int]);
            assert((e.0, e.1, e.2.deep_view()) == ev[k as int]);
        }
        let a = e.0;
        let b = e.1;
        let ma = map[a];
        let mb = map[b];
        match (ma, mb) {
            (Option::Some(ja), Option::Some(jb)) => {
                if connection_kept(f, &e.2) {
                    graph_add_edge(&mut out, ja, jb, e.2);
                    proof {
                        let fe = (ja, jb, ev[k as int].2);
                        assert(graph_edges(out) =~= filtered_edges(sv, ev.take(k as int), fv).push(
                            fe,
                        ));
                    }
                }
            },
            _ => {
            },
        }
        k = k + 1;
    }
    proof {
        assert(ev.take(m as int) =~= ev);
    }
    out
}

/// The first node carrying a system id, if any.
pub open spec fn first_index_with_id(ss: Seq<SystemView>, id: u32) -> Option<int>
    decreases ss.len(),
{
    if ss.len() == 0 {
        Option::None
    } else if ss[0].id == id {
        Option::Some(0int)
    } else {
        match first_index_with_id(ss.drop_first(), id) {
            Option::Some(i) => Option::Some(i + 1),
            Option::None => Option::None,
        }
    }
}

pub proof fn lemma_first_index_with_id_range(ss: Seq<SystemView>, id: u32)
    ensures
        first_index_with_id(ss, id) matches Some(i) ==> 0 <= i < ss.len() && ss[i].id == id,
        first_index_with_id(ss, id) is None ==> forall|j: int|
            0 <= j < ss.len() ==> (#[trigger] ss[j]).id != id,
    decreases ss.len(),
{
    if ss.len() > 0 && ss[0].id != id {
        lemma_first_index_with_id_range(ss.drop_first(), id);
        match first_index_with_id(ss.drop_first(), id) {
            Option::Some(x) => {
                assert(ss.drop_first()[x] == ss[x + 1]);
            },
            Option::None => {
                assert forall|j: int| 0 <= j < ss.len() implies (#[trigger] ss[j]).id != id by {
                    if j > 0 {
                        assert(ss.drop_first()[j - 1] == ss[j]);
                    }
                }
            },
        }
    }
}

fn find_node_by_id(g: &RouteGraph, id: u32) -> (r: Option<usize>)
    ensures
        match r {
            Option::Some(i) => first_index_with_id(graph_nodes(*g), id) == Option::Some(i as int)
                && i < graph_nodes(*g).len(),
            Option::None => first_index_with_id(graph_nodes(*g), id) is None,
        },
{
    let ghost sv = graph_nodes(*g);
    let n = graph_node_count(g);
    let mut i: usize = 0;
    proof {
        assert(sv.skip(0) =~= sv);
    }
    while i < n
        invariant
            0 <= i <= n,
            n == sv.len(),
            sv == graph_nodes(*g),
            forall|j: int| 0 <= j < i ==> (#[trigger] sv[j]).id != id,
            first_index_with_id(sv, id) == (match first_index_with_id(sv.skip(i as int), id) {
                Option::Some(x) => Option::Some(x + i),
                Option::None => Option::<int>::None,
            }),
        decreases n - i,
    {
        proof {
            assert(sv.skip(i as int)[0] == sv[i as int]);
            assert(sv.skip(i as int).drop_first() =~= sv.skip(i + 1));
        }
        let s = graph_node(g, i);
        if s.id == id {
            return Some(i);
        }
        i = i + 1;
    }
    proof {
        assert(sv.skip(n as int) =~= Seq::<SystemView>::empty());
    }
    None
}

/// The connections of every edge leading directly from node `a` to node `b`,
/// in edge order.
pub open spec fn conns_between(
    es: Seq<(usize, usize, ConnectionView)>,
    a: usize,
    b: usize,
) -> Seq<ConnectionView>
    decreases es.len(),
{
    if es.len() == 0 {
        Seq::empty()
    } else {
        let rest = conns_between(es.drop_last(), a, b);
        let e = es.last();
        if e.0 == a && e.1 == b {
            rest.push(e.2)
        } else {
            rest
        }
    }
}

fn connecting(g: &RouteGraph, a: usize, b: usize) -> (r: Vec<Connection>)
    ensures
        r.deep_view() == conns_between(graph_edges(*g), a, b),
{
    let ghost ev = graph_edges(*g);
    let mut out: Vec<Connection> = Vec::new();
    let m = graph_edge_count(g);
    let mut k: usize = 0;
    proof {
        assert(ev.take(0) =~= Seq::<(usize, usize, ConnectionView)>::empty());
        assert(out.deep_view() =~= Seq::<ConnectionView>::empty());
    }
    while k < m
        invariant
            0 <= k <= m,
            m == ev.len(),
            ev == graph_edges(*g),
            out.deep_view() == conns_between(ev.take(k as int), a, b),
        decreases m - k,
    {
        proof {
            assert(ev.take(k + 1).drop_last() =~= ev.take(k as int));
            assert(ev.take(k + 1).last() == ev[k as int]);
        }
        let ghost out_old = out.deep_view();
        let e = graph_edge(g, k);
        if e.0 == a && e.1 == b {
            out.push(e.2);
            proof {
                assert(out.deep_view() =~= out_old.push(ev[k as int].2));
            }
        }
        k = k + 1;
    }
    proof {
        assert(ev.take(m as int) =~= ev);
    }
    out
}

/// Every consecutive pair of the path is connected by exactly one edge.
pub open spec fn steps_unique(es: Seq<(usize, usize, ConnectionView)>, p: Seq<usize>) -> bool {
    forall|k: int| 1 <= k < p.len() ==> conns_between(es, #[trigger] p[k - 1], p[k]).len() == 1
}

/// The reconstructed route along a path whose steps are unique: for each
/// node after the first, the system it carries and the single connection
/// that leads to it. The path's first node is not emitted.
pub open spec fn route_details(
    ns: Seq<SystemView>,
    es: Seq<(usize, usize, ConnectionView)>,
    p: Seq<usize>,
) -> Seq<(SystemView, ConnectionView)>
    decreases p.len(),
{
    if p.len() <= 1 {
        Seq::empty()
    } else {
        route_details(ns, es, p.drop_last()).push(
            (ns[p.last() as int], conns_between(es, p[p.len() - 2], p.last())[0]),
        )
    }
}

/// Minimum-hop routing: filter the graph, locate both endpoints, search, and
/// reconstruct the ordered (system, connection) route.
///
/// A missing endpoint or an unreachable destination is a recoverable routing
/// error; more than one edge connecting a consecutive pair of the found path
/// is a critical consistency fault, never silently resolved.
pub fn find_route(
    g: &RouteGraph,
    from_system: &System,
    to_system: &System,
    f: &RouteFilter,
) -> (r: Result<Vec<(System, Connection)>, ErrorStatus>)
    requires
        graph_wf(*g),
    ensures
        ({
            let fn_ = filtered_systems(graph_nodes(*g), f.deep_view());
            let fe = filtered_edges(graph_nodes(*g), graph_edges(*g), f.deep_view());
            match first_index_with_id(fn_, from_system.id) {
                Option::None => r matches Err(e) && e.category == ErrorCategory::Routing
                    && e.description@
                    == "From system not in graph. It was probably removed by the filtering rules."@,
                Option::Some(src) => match first_index_with_id(fn_, to_system.id) {
                    Option::None => r matches Err(e) && e.category == ErrorCategory::Routing
                        && e.description@
                        == "To system not in graph. It was probably removed by the filtering rules."@,
                    Option::Some(dst) => if !(exists|q: Seq<usize>|
                        #[trigger] is_path(fe, q, src as usize, dst as usize)) {
                        r matches Err(e) && e.category == ErrorCategory::Routing && e.description@
                            == "No path between the systems"@
                    } else {
                        &&& (r matches Ok(v) ==> exists|p: Seq<usize>|
                            {
                                &&& #[trigger] is_path(fe, p, src as usize, dst as usize)
                                &&& forall|q: Seq<usize>|
                                    is_path(fe, q, src as usize, dst as usize) ==> p.len()
                                        <= q.len()
                                &&& steps_unique(fe, p)
                                &&& v.deep_view() == route_details(fn_, fe, p)
                                &&& v.deep_view().len() + 1 == p.len()
                            })
                        &&& (r matches Err(e) ==> e.category == ErrorCategory::Critical
                            && e.description@ == "Cannot find edge connecting nodes in graph"@
                            && exists|p: Seq<usize>|
                            {
                                &&& #[trigger] is_path(fe, p, src as usize, dst as usize)
                                &&& forall|q: Seq<usize>|
                                    is_path(fe, q, src as usize, dst as usize) ==> p.len()
                                        <= q.len()
                                &&& !steps_unique(fe, p)
                            })
                    },
                },
            }
        }),
{
    let fg = filter_graph(g, f);
    let ghost fn_ = graph_nodes(fg);
    let ghost fe = graph_edges(fg);
    proof {
        lemma_first_index_with_id_range(fn_, from_system.id);
        lemma_first_index_with_id_range(fn_, to_system.id);
    }
    let src = match find_node_by_id(&fg, from_system.id) {
        Option::Some(i) => i,
        Option::None => {
            return Err(
                routingerror(
                    String::from_str(
                        "From system not in graph. It was probably removed by the filtering rules.",
                    ),
                ),
            );
        },
    };
    let dst = match find_node_by_id(&fg, to_system.id) {
        Option::Some(i) => i,
        Option::None => {
            return Err(
                routingerror(
                    String::from_str(
                        "To system not in graph. It was probably removed by the filtering rules.",
                    ),
                ),
            );
        },
    };
    let path = match shortest_path(&fg, src, dst) {
        Option::Some(p) => p,
        Option::None => {
            return Err(routingerror(String::from_str("No path between the systems")));
        },
    };
    let mut details: Vec<(System, Connection)> = Vec::new();
    let len = path.len();
    let mut k: usize = 1;
    proof {
        assert(details.deep_view() =~= Seq::<(SystemView, ConnectionView)>::empty());
        assert(route_details(fn_, fe, path@.take(1)) == Seq::<(SystemView, ConnectionView)>::empty());
    }
    while k < len
        invariant
            1 <= k <= len,
            len == path@.len(),
            fn_ == graph_nodes(fg),
            fe == graph_edges(fg),
            fn_ == filtered_systems(graph_nodes(*g), f.deep_view()),
            fe == filtered_edges(graph_nodes(*g), graph_edges(*g), f.deep_view()),
            first_index_with_id(fn_, from_system.id) == Option::Some(src as int),
            first_index_with_id(fn_, to_system.id) == Option::Some(dst as int),
            src < fn_.len(),
            dst < fn_.len(),
            is_path(fe, path@, src, dst),
            forall|q: Seq<usize>| is_path(fe, q, src, dst) ==> path@.len() <= q.len(),
            forall|j: int| 0 <= j < len ==> #[trigger] path@[j] < fn_.len(),
            forall|j: int| 1 <= j < k ==> conns_between(fe, #[trigger] path@[j - 1], path@[j]).len()
                == 1,
            details.deep_view() == route_details(fn_, fe, path@.take(k as int)),
            details.deep_view().len() + 1 == k,
        decreases len - k,
    {
        let a = path[k - 1];
        let b = path[k];
        let mut conns = connecting(&fg, a, b);
        if conns.len() != 1 {
            proof {
                assert(!steps_unique(fe, path@));
                let fn_post = filtered_systems(graph_nodes(*g), f.deep_view());
                let fe_post = filtered_edges(graph_nodes(*g), graph_edges(*g), f.deep_view());
                let s0 = first_index_with_id(fn_post, from_system.id)->Some_0;
                let d0 = first_index_with_id(fn_post, to_system.id)->Some_0;
                assert(s0 as usize == src && d0 as usize == dst);
                assert(is_path(fe_post, path@, s0 as usize, d0 as usize));
                assert(exists|q: Seq<usize>| #[trigger] is_path(fe_post, q, s0 as usize, d0 as usize));
            }
            return Err(criticalerror(String::from_str("Cannot find edge connecting nodes in graph")));
        }
        let node = graph_node(&fg, b);
        let c = match conns.pop() {
            Option::Some(c) => c,
            Option::None => {
                proof {
                    assert(false);
                }
                return Err(criticalerror(String::from_str("Cannot find edge connecting nodes in graph")));
            },
        };
        let ghost details_old = details.deep_view();
        details.push((node, c));
        proof {
            assert(conns_between(fe, a, b)[0] == c.deep_view());
            assert(path@.take(k + 1).drop_last() =~= path@.take(k as int));
            assert(path@.take(k + 1).last() == path@[k as int]);
            assert(path@.take(k + 1)[k - 1] == path@[k - 1]);
            assert(details.deep_view() =~= details_old.push((node.deep_view(), c.deep_view())));
        }
        k = k + 1;
    }
    proof {
        assert(path@.take(len as int) =~= path@);
        let fn_post = filtered_systems(graph_nodes(*g), f.deep_view());
        let fe_post = filtered_edges(graph_nodes(*g), graph_edges(*g), f.deep_view());
        let s0 = first_index_with_id(fn_post, from_system.id)->Some_0;
        let d0 = first_index_with_id(fn_post, to_system.id)->Some_0;
        assert(s0 as usize == src && d0 as usize == dst);
        assert(is_path(fe_post, path@, s0 as usize, d0 as usize));
        assert(exists|q: Seq<usize>| #[trigger] is_path(fe_post, q, s0 as usize, d0 as usize));
    }
    Ok(details)
}

} // verus!
