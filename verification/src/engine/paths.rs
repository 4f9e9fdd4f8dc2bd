//! Shortest paths between nodes, by breadth-first search over out-edges.

use vstd::prelude::*;
use std::collections::{HashMap, HashSet, VecDeque};
use vstd::set_lib::lemma_len_subset;
use vstd::string::StringExecFns;

verus! {

broadcast use vstd::std_specs::hash::group_hash_axioms;

/// Which end of the path the traversal's nodes stand for.
pub enum PathType {
    /// Paths lead from this node to each traversed node.
    From(u128),
    /// Paths lead from each traversed node to this node.
    To(u128),
}

/// How paths are searched for.
pub enum PathAlgorithm {
    /// Fewest edges.
    BFS,
    /// Least total edge weight.
    Dijkstra,
}

/// One stored edge, as the out-edge index yields it: source node, label, id, target node.
pub struct EdgeRecord {
    pub from: u128,
    pub label: String,
    pub id: u128,
    pub to: u128,
}

/// The out-edges of the stored graph, in the order in which the index yields them.
pub struct GraphModel {
    pub edges: Vec<EdgeRecord>,
}

/// A path: its nodes in order, and the edges between consecutive nodes.
pub struct Path {
    pub nodes: Vec<u128>,
    pub edges: Vec<u128>,
}

/// Why no path came back.
pub enum PathError {
    /// No path leads from the start to the end.
    ShortestPathNotFound,
}

/// Whether an edge may be followed under the label filter (`None` follows every label).
pub open spec fn usable(e: EdgeRecord, label: Option<Seq<char>>) -> bool {
    match label {
        None => true,
        Some(l) => e.label@ == l,
    }
}

/// Whether the graph has a followable edge `e` from `a` to `b`.
pub open spec fn edge_at(g: Seq<EdgeRecord>, label: Option<Seq<char>>, a: u128, e: u128, b: u128) -> bool {
    exists|j: int|
        0 <= j < g.len() && #[trigger] g[j].from == a && g[j].id == e && g[j].to == b && usable(
            g[j],
            label,
        )
}

/// Whether the graph has a followable edge from `a` to `b`.
pub open spec fn step(g: Seq<EdgeRecord>, label: Option<Seq<char>>, a: u128, b: u128) -> bool {
    exists|j: int|
        0 <= j < g.len() && #[trigger] g[j].from == a && g[j].to == b && usable(g[j], label)
}

/// Whether `w` is a walk: a non-empty node sequence with a followable edge between
/// consecutive nodes.
pub open spec fn is_walk(g: Seq<EdgeRecord>, label: Option<Seq<char>>, w: Seq<u128>) -> bool {
    &&& w.len() >= 1
    &&& forall|i: int| 0 <= i < w.len() - 1 ==> #[trigger] step(g, label, w[i], w[i + 1])
}

/// Whether the node and edge lists form a path from `from` to `to`.
pub open spec fn is_path(
    g: Seq<EdgeRecord>,
    label: Option<Seq<char>>,
    from: u128,
    to: u128,
    nodes: Seq<u128>,
    edges: Seq<u128>,
) -> bool {
    &&& nodes.len() == edges.len() + 1
    &&& nodes[0] == from
    &&& nodes.last() == to
    &&& forall|i: int| 0 <= i < edges.len() ==> #[trigger] edge_at(g, label, nodes[i], edges[i], nodes[i + 1])
}

/// Whether no walk from `from` to `to` has fewer than `n` nodes.
pub open spec fn no_shorter_walk(
    g: Seq<EdgeRecord>,
    label: Option<Seq<char>>,
    from: u128,
    to: u128,
    n: nat,
) -> bool {
    forall|w: Seq<u128>|
        #[trigger] is_walk(g, label, w) && w[0] == from && w.last() == to ==> w.len() >= n
}

/// Whether some walk leads from `from` to `to`.
pub open spec fn reachable(g: Seq<EdgeRecord>, label: Option<Seq<char>>, from: u128, to: u128) -> bool {
    exists|w: Seq<u128>| #[trigger] is_walk(g, label, w) && w[0] == from && w.last() == to
}

/// The label filter as characters.
pub open spec fn label_view(label: Option<&str>) -> Option<Seq<char>> {
    match label {
        Some(l) => Some(l@),
        None => None,
    }
}

/// Whether the edge at the `i`-th position of a route leads to where the next one starts.
pub open spec fn linked(g: Seq<EdgeRecord>, ps: Seq<int>, i: int) -> bool {
    g[ps[i]].to == g[ps[i + 1]].from
}

/// Whether `ps` lists positions in `g` of followable edges that lead, one after the
/// other, from `from` to `to` (no position at all when `from` is `to`).
pub open spec fn is_route(
    g: Seq<EdgeRecord>,
    label: Option<Seq<char>>,
    from: u128,
    to: u128,
    ps: Seq<int>,
) -> bool {
    &&& forall|i: int| 0 <= i < ps.len() ==> 0 <= #[trigger] ps[i] < g.len()
    &&& forall|i: int| 0 <= i < ps.len() ==> usable(g[#[trigger] ps[i]], label)
    &&& forall|i: int| 0 <= i < ps.len() - 1 ==> #[trigger] linked(g, ps, i)
    &&& if ps.len() == 0 {
        from == to
    } else {
        g[ps[0]].from == from && g[ps.last()].to == to
    }
}

/// Whether a path's nodes and edges are those that a route from `from` passes.
pub open spec fn path_of_route(
    g: Seq<EdgeRecord>,
    from: u128,
    ps: Seq<int>,
    nodes: Seq<u128>,
    edges: Seq<u128>,
) -> bool {
    &&& nodes.len() == ps.len() + 1
    &&& edges.len() == ps.len()
    &&& nodes[0] == from
    &&& forall|i: int|
        0 <= i < ps.len() ==> #[trigger] edges[i] == g[ps[i]].id && nodes[i + 1] == g[ps[i]].to
}

/// Whether `a` and `b` agree before position `k` and `a` is smaller at `k`.
pub open spec fn first_smaller_at(a: Seq<int>, b: Seq<int>, k: int) -> bool {
    &&& 0 <= k < a.len()
    &&& k < b.len()
    &&& forall|i: int| 0 <= i < k ==> a[i] == b[i]
    &&& a[k] < b[k]
}

/// Whether `a` comes before `b` in lexicographic order (and is not a prefix of it).
pub open spec fn lex_before(a: Seq<int>, b: Seq<int>) -> bool {
    exists|k: int| #[trigger] first_smaller_at(a, b, k)
}

/// Whether no route between the same ends with as many edges comes before `ps` in
/// lexicographic order of edge positions.
pub open spec fn least_route(
    g: Seq<EdgeRecord>,
    label: Option<Seq<char>>,
    from: u128,
    to: u128,
    ps: Seq<int>,
) -> bool {
    forall|qs: Seq<int>|
        #[trigger] is_route(g, label, from, to, qs) && qs.len() == ps.len() ==> !lex_before(qs, ps)
}

proof fn lemma_lex_trans(a: Seq<int>, b: Seq<int>, c: Seq<int>)
    requires
        lex_before(a, b),
        lex_before(b, c),
    ensures
        lex_before(a, c),
{
    let k1 = choose|k: int| #[trigger] first_smaller_at(a, b, k);
    let k2 = choose|k: int| #[trigger] first_smaller_at(b, c, k);
    if k1 <= k2 {
        assert(first_smaller_at(a, c, k1));
    } else {
        assert(first_smaller_at(a, c, k2));
    }
}

proof fn lemma_lex_total_from(a: Seq<int>, b: Seq<int>, k: int)
    requires
        a.len() == b.len(),
        a != b,
        0 <= k <= a.len(),
        forall|i: int| 0 <= i < k ==> a[i] == b[i],
    ensures
        lex_before(a, b) || lex_before(b, a),
    decreases a.len() - k,
{
    if k == a.len() {
        assert(a =~= b);
    } else if a[k] == b[k] {
        lemma_lex_total_from(a, b, k + 1);
    } else if a[k] < b[k] {
        assert(first_smaller_at(a, b, k));
    } else {
        assert(first_smaller_at(b, a, k));
    }
}

proof fn lemma_lex_irrefl(a: Seq<int>)
    ensures
        !lex_before(a, a),
{
}

proof fn lemma_lex_push(a: Seq<int>, b: Seq<int>, x: int, y: int)
    requires
        a.len() == b.len(),
    ensures
        lex_before(a.push(x), b.push(y)) <==> (lex_before(a, b) || (a == b && x < y)),
{
    if lex_before(a.push(x), b.push(y)) {
        let k = choose|k: int| #[trigger] first_smaller_at(a.push(x), b.push(y), k);
        assert forall|i: int| 0 <= i < k implies a[i] == b[i] by {
            assert(a.push(x)[i] == a[i] && b.push(y)[i] == b[i]);
            assert(a.push(x)[i] == b.push(y)[i]);
        }
        if k < a.len() {
            assert(a.push(x)[k] == a[k] && b.push(y)[k] == b[k]);
            assert(first_smaller_at(a, b, k));
        } else {
            assert(a =~= b);
        }
    }
    if lex_before(a, b) {
        let k = choose|k: int| #[trigger] first_smaller_at(a, b, k);
        assert(first_smaller_at(a.push(x), b.push(y), k));
    }
    if a == b && x < y {
        assert(first_smaller_at(a.push(x), b.push(y), a.len() as int));
    }
}

proof fn lemma_route_push(
    g: Seq<EdgeRecord>,
    label: Option<Seq<char>>,
    from: u128,
    w: u128,
    ps: Seq<int>,
    j: int,
)
    requires
        is_route(g, label, from, w, ps),
        0 <= j < g.len(),
        usable(g[j], label),
        g[j].from == w,
    ensures
        is_route(g, label, from, g[j].to, ps.push(j)),
{
    let qs = ps.push(j);
    assert forall|i: int| 0 <= i < qs.len() - 1 implies #[trigger] linked(g, qs, i) by {
        if i < ps.len() - 1 {
            assert(linked(g, ps, i));
        }
    }
    assert forall|i: int| 0 <= i < qs.len() implies 0 <= #[trigger] qs[i] < g.len() by {
        if i < ps.len() {
            assert(qs[i] == ps[i]);
        }
    }
    assert forall|i: int| 0 <= i < qs.len() implies usable(g[#[trigger] qs[i]], label) by {
        if i < ps.len() {
            assert(qs[i] == ps[i]);
        }
    }
}

proof fn lemma_route_drop(
    g: Seq<EdgeRecord>,
    label: Option<Seq<char>>,
    from: u128,
    to: u128,
    qs: Seq<int>,
)
    requires
        is_route(g, label, from, to, qs),
        qs.len() > 0,
    ensures
        is_route(g, label, from, g[qs.last()].from, qs.drop_last()),
        qs.drop_last().push(qs.last()) == qs,
{
    let ps = qs.drop_last();
    assert forall|i: int| 0 <= i < ps.len() - 1 implies #[trigger] linked(g, ps, i) by {
        assert(linked(g, qs, i));
    }
    assert forall|i: int| 0 <= i < ps.len() implies 0 <= #[trigger] ps[i] < g.len() by {
        assert(ps[i] == qs[i]);
    }
    assert forall|i: int| 0 <= i < ps.len() implies usable(g[#[trigger] ps[i]], label) by {
        assert(ps[i] == qs[i]);
    }
    if ps.len() > 0 {
        assert(linked(g, qs, ps.len() - 1));
    }
    assert(ps.push(qs.last()) =~= qs);
}

/// The nodes a route passes, starting with `from`.
pub open spec fn route_nodes(g: Seq<EdgeRecord>, from: u128, ps: Seq<int>) -> Seq<u128> {
    Seq::new(ps.len() + 1, |i: int| if i == 0 { from } else { g[ps[i - 1]].to })
}

proof fn lemma_route_walk(
    g: Seq<EdgeRecord>,
    label: Option<Seq<char>>,
    from: u128,
    to: u128,
    ps: Seq<int>,
)
    requires
        is_route(g, label, from, to, ps),
    ensures
        is_walk(g, label, route_nodes(g, from, ps)),
        route_nodes(g, from, ps)[0] == from,
        route_nodes(g, from, ps).last() == to,
        route_nodes(g, from, ps).len() == ps.len() + 1,
{
    let w = route_nodes(g, from, ps);
    assert forall|i: int| 0 <= i < w.len() - 1 implies #[trigger] step(g, label, w[i], w[i + 1]) by {
        let j = ps[i];
        assert(0 <= j < g.len() && usable(g[j], label));
        if i > 0 {
            assert(linked(g, ps, i - 1));
        }
        assert(g[j].from == w[i] && g[j].to == w[i + 1]);
    }
}

/// What breadth-first search guarantees of its answer: a path with the fewest edges, and
/// among those the one whose edges, taken as positions in the graph's list, come first in
/// lexicographic order; or none when the end cannot be reached.
pub open spec fn bfs_answer(
    g: Seq<EdgeRecord>,
    label: Option<Seq<char>>,
    from: u128,
    to: u128,
    r: Result<Path, PathError>,
) -> bool {
    match r {
        Ok(p) => {
            &&& is_path(g, label, from, to, p.nodes@, p.edges@)
            &&& no_shorter_walk(g, label, from, to, p.nodes@.len())
            &&& exists|ps: Seq<int>|
                #[trigger] is_route(g, label, from, to, ps) && path_of_route(g, from, ps, p.nodes@, p.edges@)
                    && least_route(g, label, from, to, ps)
        },
        Err(_) => !reachable(g, label, from, to),
    }
}

/// The search's bookkeeping: every visited node other than the start has a parent one
/// step closer to the start, reached over a followable edge.
pub open spec fn parents_ok(
    g: Seq<EdgeRecord>,
    label: Option<Seq<char>>,
    from: u128,
    par: Map<u128, (u128, u128)>,
    vis: Set<u128>,
    dist: Map<u128, nat>,
) -> bool {
    &&& vis.contains(from)
    &&& forall|v: u128| #[trigger] vis.contains(v) ==> dist.contains_key(v)
    &&& dist[from] == 0
    &&& forall|v: u128|
        #[trigger] vis.contains(v) && v != from ==> {
            &&& par.contains_key(v)
            &&& vis.contains(par[v].0)
            &&& dist[par[v].0] + 1 == dist[v]
            &&& edge_at(g, label, par[v].0, par[v].1, v)
        }
}

/// The search's routes: each visited node has a route from the start with as many edges
/// as it is far, before which no route of that length comes; a node other than the start
/// extends its parent's route by the edge it was reached over.
pub open spec fn routes_ok(
    g: Seq<EdgeRecord>,
    label: Option<Seq<char>>,
    from: u128,
    par: Map<u128, (u128, u128)>,
    vis: Set<u128>,
    dist: Map<u128, nat>,
    route: Map<u128, Seq<int>>,
) -> bool {
    &&& forall|v: u128|
        #[trigger] vis.contains(v) ==> {
            &&& route.contains_key(v)
            &&& is_route(g, label, from, v, route[v])
            &&& route[v].len() == dist[v]
            &&& least_route(g, label, from, v, route[v])
        }
    &&& forall|v: u128|
        #[trigger] vis.contains(v) && v != from ==> {
            &&& route[v].len() > 0
            &&& route[v].drop_last() == route[par[v].0]
            &&& g[route[v].last()].from == par[v].0
            &&& g[route[v].last()].id == par[v].1
        }
}

/// Reverses a list of ids.
fn reversed(v: &Vec<u128>) -> (r: Vec<u128>)
    ensures
        r@ == v@.reverse(),
{
    let mut r: Vec<u128> = Vec::new();
    let mut i: usize = v.len();
    while i > 0
        invariant
            i <= v@.len(),
            r@ == v@.subrange(i as int, v@.len() as int).reverse(),
        decreases i,
    {
        i = i - 1;
        r.push(v[i]);
        proof {
            assert(v@.subrange(i as int, v@.len() as int).reverse() =~= v@.subrange(
                i + 1,
                v@.len() as int,
            ).reverse().push(v@[i as int]));
        }
    }
    proof {
        assert(v@.subrange(0, v@.len() as int) == v@);
    }
    r
}

/// Follows the parents back from `end` to `start` and lists the path in order.
fn reconstruct_path(
    parent: &HashMap<u128, (u128, u128)>,
    start: u128,
    end: u128,
    Ghost(g): Ghost<Seq<EdgeRecord>>,
    Ghost(label): Ghost<Option<Seq<char>>>,
    Ghost(vis): Ghost<Set<u128>>,
    Ghost(dist): Ghost<Map<u128, nat>>,
    Ghost(route): Ghost<Map<u128, Seq<int>>>,
) -> (r: Path)
    requires
        parents_ok(g, label, start, parent@, vis, dist),
        routes_ok(g, label, start, parent@, vis, dist, route),
        vis.contains(end),
    ensures
        is_path(g, label, start, end, r.nodes@, r.edges@),
        r.nodes@.len() == dist[end] + 1,
        path_of_route(g, start, route[end], r.nodes@, r.edges@),
{
    let mut nodes_rev: Vec<u128> = Vec::new();
    let mut edges_rev: Vec<u128> = Vec::new();
    let mut current = end;
    let ghost re = route[end];
    while current != start
        invariant
            parents_ok(g, label, start, parent@, vis, dist),
            routes_ok(g, label, start, parent@, vis, dist, route),
            re == route[end],
            vis.contains(current),
            re.take(route[current].len() as int) == route[current],
            route[current].len() + edges_rev@.len() == re.len(),
            forall|i: int|
                0 <= i < edges_rev@.len() ==> #[trigger] edges_rev@[i] == g[re[re.len() - 1 - i]].id
                    && nodes_rev@[i] == g[re[re.len() - 1 - i]].to,
            nodes_rev@.len() == edges_rev@.len(),
            dist[current] + nodes_rev@.len() == dist[end],
            nodes_rev@.push(current)[0] == end,
            forall|i: int|
                0 <= i < edges_rev@.len() ==> #[trigger] edge_at(
                    g,
                    label,
                    nodes_rev@.push(current)[i + 1],
                    edges_rev@[i],
                    nodes_rev@[i],
                ),
        decreases dist[current],
    {
        let ghost old_nodes = nodes_rev@;
        let ghost old_cur = current;
        nodes_rev.push(current);
        let (prev, edge) = match parent.get(&current) {
            Some(pe) => *pe,
            None => {
                proof {
                    assert(false);
                }
                (current, 0)
            },
        };
        edges_rev.push(edge);
        current = prev;
        proof {
            let rc = route[old_cur];
            assert(route[current] == rc.drop_last());
            assert(re.take(rc.len() - 1) =~= rc.drop_last());
            assert(re[rc.len() - 1] == rc[rc.len() - 1]) by {
                assert(re.take(rc.len() as int)[rc.len() - 1] == re[rc.len() - 1]);
            }
            assert(is_route(g, label, start, old_cur, rc));
            assert forall|i: int|
                0 <= i < edges_rev@.len() implies #[trigger] edges_rev@[i] == g[re[re.len() - 1 - i]].id
                    && nodes_rev@[i] == g[re[re.len() - 1 - i]].to by {
                if i < edges_rev@.len() - 1 {
                    assert(nodes_rev@[i] == old_nodes[i]);
                }
            }
            assert forall|i: int| 0 <= i < edges_rev@.len() implies #[trigger] edge_at(
                g,
                label,
                nodes_rev@.push(current)[i + 1],
                edges_rev@[i],
                nodes_rev@[i],
            ) by {
                if i < edges_rev@.len() - 1 {
                    assert(nodes_rev@.push(current)[i + 1] == old_nodes.push(old_cur)[i + 1]);
                    assert(nodes_rev@[i] == old_nodes[i]);
                }
            }
        }
    }
    nodes_rev.push(current);
    let nodes = reversed(&nodes_rev);
    let edges = reversed(&edges_rev);
    proof {
        let n = nodes_rev@.len();
        assert forall|i: int| 0 <= i < edges@.len() implies #[trigger] edge_at(
            g,
            label,
            nodes@[i],
            edges@[i],
            nodes@[i + 1],
        ) by {
            let k = edges_rev@.len() - 1 - i;
            assert(edges@[i] == edges_rev@[k]);
            assert(nodes@[i] == nodes_rev@[n - 1 - i]);
            assert(nodes@[i + 1] == nodes_rev@[n - 2 - i]);
            assert(edge_at(g, label, nodes_rev@[k + 1], edges_rev@[k], nodes_rev@[k]));
        }
        assert(nodes@[0] == start);
        assert(nodes@.last() == end);
        let m = re.len();
        assert(route[start].len() == 0);
        assert forall|i: int| 0 <= i < m implies #[trigger] edges@[i] == g[re[i]].id && nodes@[i + 1]
            == g[re[i]].to by {
            assert(edges@[i] == edges_rev@[m - 1 - i]);
            assert(nodes@[i + 1] == nodes_rev@[n - 2 - i]);
        }
    }
    Path { nodes, edges }
}

/// The walk that a path's nodes form.
proof fn lemma_path_is_walk(
    g: Seq<EdgeRecord>,
    label: Option<Seq<char>>,
    from: u128,
    to: u128,
    nodes: Seq<u128>,
    edges: Seq<u128>,
)
    requires
        is_path(g, label, from, to, nodes, edges),
    ensures
        is_walk(g, label, nodes),
{
    assert forall|i: int| 0 <= i < nodes.len() - 1 implies #[trigger] step(g, label, nodes[i], nodes[i + 1]) by {
        assert(edge_at(g, label, nodes[i], edges[i], nodes[i + 1]));
        let j = choose|j: int|
            0 <= j < g.len() && #[trigger] g[j].from == nodes[i] && g[j].id == edges[i] && g[j].to
                == nodes[i + 1] && usable(g[j], label);
        assert(g[j].from == nodes[i]);
    }
}

/// Whether every followable edge out of a visited node that is not waiting in the queue
/// (and is not `skip`) leads to a visited node at most one step farther.
pub open spec fn expanded_ok(
    g: Seq<EdgeRecord>,
    label: Option<Seq<char>>,
    vis: Set<u128>,
    q: Seq<u128>,
    dist: Map<u128, nat>,
    skip: Option<u128>,
) -> bool {
    forall|k: int|
        0 <= k < g.len() && vis.contains(g[k].from) && !q.contains(g[k].from) && skip != Some(
            g[k].from,
        ) && usable(#[trigger] g[k], label) ==> vis.contains(g[k].to) && dist[g[k].to] <= dist[g[k].from]
            + 1
}

/// The search frontier: queued nodes are visited, ordered by distance, and no visited
/// node is more than one step beyond the head of the queue.
pub open spec fn frontier_ok(vis: Set<u128>, q: Seq<u128>, dist: Map<u128, nat>) -> bool {
    &&& forall|i: int| 0 <= i < q.len() ==> vis.contains(#[trigger] q[i])
    &&& forall|i: int, j: int| 0 <= i <= j < q.len() ==> dist[#[trigger] q[i]] <= dist[#[trigger] q[j]]
    &&& q.len() > 0 ==> forall|v: u128| #[trigger] vis.contains(v) ==> dist[v] <= dist[q[0]] + 1
}

/// Every walk from the start either ends at a visited node no farther than the walk is
/// long, or ends outside the visited set and is longer than the head of the queue is far.
proof fn lemma_frontier_bound(
    g: Seq<EdgeRecord>,
    label: Option<Seq<char>>,
    from: u128,
    vis: Set<u128>,
    q: Seq<u128>,
    dist: Map<u128, nat>,
    w: Seq<u128>,
)
    requires
        vis.contains(from),
        forall|v: u128| #[trigger] vis.contains(v) ==> dist.contains_key(v),
        dist[from] == 0,
        frontier_ok(vis, q, dist),
        expanded_ok(g, label, vis, q, dist, None),
        is_walk(g, label, w),
        w[0] == from,
    ensures
        (vis.contains(w.last()) && dist[w.last()] <= w.len() - 1) || (q.len() > 0 && !vis.contains(
            w.last(),
        ) && w.len() - 1 >= dist[q[0]] + 1),
    decreases w.len(),
{
    if w.len() > 1 {
        let wp = w.drop_last();
        assert forall|i: int| 0 <= i < wp.len() - 1 implies #[trigger] step(g, label, wp[i], wp[i + 1]) by {
            assert(wp[i] == w[i] && wp[i + 1] == w[i + 1]);
            assert(step(g, label, w[i], w[i + 1]));
        }
        lemma_frontier_bound(g, label, from, vis, q, dist, wp);
        let y = wp.last();
        let x = w.last();
        let li = w.len() - 2;
        assert(step(g, label, w[li], w[li + 1]));
        assert(w[li] == y && w[li + 1] == x);
        let j = choose|j: int|
            0 <= j < g.len() && #[trigger] g[j].from == y && g[j].to == x && usable(g[j], label);
        assert(usable(g[j], label));
        if vis.contains(y) {
            if q.contains(y) {
                let qi = choose|qi: int| 0 <= qi < q.len() && q[qi] == y;
                assert(dist[q[0]] <= dist[q[qi]]);
                if vis.contains(x) {
                    assert(dist[x] <= dist[q[0]] + 1);
                }
            } else {
                assert(vis.contains(g[j].to));
            }
        } else {
            if vis.contains(x) {
                assert(dist[x] <= dist[q[0]] + 1);
            }
        }
    }
}

/// Whether the queue lists nearer nodes first and, at equal distance, their routes in
/// lexicographic order.
spec fn queue_ordered(q: Seq<u128>, dist: Map<u128, nat>, route: Map<u128, Seq<int>>) -> bool {
    forall|i: int, k: int|
        0 <= i < k < q.len() ==> dist[#[trigger] q[i]] < dist[#[trigger] q[k]] || lex_before(
            route[q[i]],
            route[q[k]],
        )
}

/// Whether each queued node farther than the head was reached from a node whose route
/// comes before the head's.
spec fn reached_before_head(q: Seq<u128>, dist: Map<u128, nat>, route: Map<u128, Seq<int>>) -> bool {
    forall|i: int|
        0 <= i < q.len() && dist[#[trigger] q[i]] > dist[q[0]] ==> lex_before(
            route[q[i]].drop_last(),
            route[q[0]],
        )
}

/// A node first reached over edge `j` out of the head of the queue gets a route that no
/// route of the same length comes before.
proof fn lemma_discovery_least(
    g: Seq<EdgeRecord>,
    label: Option<Seq<char>>,
    from: u128,
    v0: Set<u128>,
    q0: Seq<u128>,
    dist0: Map<u128, nat>,
    route0: Map<u128, Seq<int>>,
    j: int,
)
    requires
        q0.len() > 0,
        forall|i: int| 0 <= i < q0.len() ==> v0.contains(#[trigger] q0[i]),
        forall|i: int| 0 <= i < q0.len() ==> dist0[q0[0]] <= dist0[#[trigger] q0[i]],
        queue_ordered(q0, dist0, route0),
        expanded_ok(g, label, v0, q0, dist0, None),
        forall|u: u128|
            #[trigger] v0.contains(u) ==> is_route(g, label, from, u, route0[u]) && route0[u].len()
                == dist0[u] && least_route(g, label, from, u, route0[u]),
        forall|w: Seq<u128>|
            #[trigger] is_walk(g, label, w) && w[0] == from && v0.contains(w.last()) ==> dist0[w.last()]
                <= w.len() - 1,
        forall|w: Seq<u128>|
            #[trigger] is_walk(g, label, w) && w[0] == from && !v0.contains(w.last()) ==> w.len()
                >= dist0[q0[0]] + 2,
        0 <= j < g.len(),
        g[j].from == q0[0],
        usable(g[j], label),
        !v0.contains(g[j].to),
        forall|k: int|
            0 <= k < j && g[k].from == q0[0] && usable(#[trigger] g[k], label) ==> g[k].to != g[j].to,
    ensures
        least_route(g, label, from, g[j].to, route0[q0[0]].push(j)),
{
    let cur = q0[0];
    let d = dist0[cur];
    let v = g[j].to;
    let pr = route0[cur].push(j);
    assert forall|qs: Seq<int>| #[trigger] is_route(g, label, from, v, qs) && qs.len() == pr.len() implies !lex_before(
        qs,
        pr,
    ) by {
        if lex_before(qs, pr) {
            let qp = qs.drop_last();
            let x = qs.last();
            let w = g[x].from;
            lemma_route_drop(g, label, from, v, qs);
            lemma_route_walk(g, label, from, w, qp);
            let wk = route_nodes(g, from, qp);
            assert(is_walk(g, label, wk) && wk[0] == from && wk.last() == w);
            assert(v0.contains(w));
            assert(dist0[w] <= d);
            assert(0 <= x < g.len() && usable(g[x], label)) by {
                assert(qs[qs.len() - 1] == x);
            }
            if !q0.contains(w) {
                assert(v0.contains(g[x].to));
                assert(false);
            }
            let i = choose|i: int| 0 <= i < q0.len() && q0[i] == w;
            assert(dist0[w] == d);
            lemma_lex_push(qp, route0[cur], x, j);
            if lex_before(qp, route0[cur]) {
                if i == 0 {
                    assert(is_route(g, label, from, cur, qp));
                    assert(false);
                } else {
                    assert(dist0[q0[0]] < dist0[q0[i]] || lex_before(route0[q0[0]], route0[q0[i]]));
                    lemma_lex_trans(qp, route0[cur], route0[w]);
                    assert(is_route(g, label, from, w, qp));
                    assert(false);
                }
            } else {
                assert(qp == route0[cur] && x < j);
                assert(w == cur) by {
                    if qp.len() > 0 {
                        assert(g[qp.last()].to == w);
                    }
                }
                assert(g[x].to == v);
                assert(false);
            }
        }
    }
}

/// Breadth-first search for a path with the fewest edges from `from` to `to`, following
/// out-edges in the order in which the graph lists them and, when `label` is given, only
/// edges with that label; of several shortest paths, the one that this order reaches
/// first comes back (see [`bfs_answer`]). A path from a node to itself is that node alone.
#[verifier::rlimit(40)]
pub fn bfs_shortest_path(g: &GraphModel, label: Option<&str>, from: u128, to: u128) -> (r: Result<
    Path,
    PathError,
>)
    ensures
        bfs_answer(g.edges@, label_view(label), from, to, r),
{
    let ghost gs = g.edges@;
    let ghost lv = label_view(label);
    let label_s: Option<String> = match label {
        Some(l) => Some(String::from_str(l)),
        None => None,
    };
    let mut queue: VecDeque<u128> = VecDeque::new();
    let mut visited: HashSet<u128> = HashSet::new();
    let mut parent: HashMap<u128, (u128, u128)> = HashMap::new();
    let ghost mut dist: Map<u128, nat> = Map::empty().insert(from, 0);
    let ghost mut route: Map<u128, Seq<int>> = Map::empty().insert(from, Seq::empty());
    queue.push_back(from);
    visited.insert(from);
    proof {
        assert(visited@ =~= Set::empty().insert(from));
        assert(is_route(gs, lv, from, from, route[from]));
        assert forall|qs: Seq<int>| #[trigger] is_route(gs, lv, from, from, qs) && qs.len() == route[from].len() implies !lex_before(
            qs,
            route[from],
        ) by {
            if lex_before(qs, route[from]) {
                let k = choose|k: int| #[trigger] first_smaller_at(qs, route[from], k);
            }
        }
        assert(routes_ok(gs, lv, from, parent@, visited@, dist, route));
    }
    if from == to {
        let p = reconstruct_path(
            &parent,
            from,
            to,
            Ghost(gs),
            Ghost(lv),
            Ghost(visited@),
            Ghost(dist),
            Ghost(route),
        );
        return Ok(p);
    }
    let ghost targets = gs.map_values(|e: EdgeRecord| e.to).to_set().insert(from);
    proof {
        gs.map_values(|e: EdgeRecord| e.to).lemma_cardinality_of_set();
        assert forall|k: int| 0 <= k < gs.len() implies targets.contains(#[trigger] gs[k].to) by {
            assert(gs.map_values(|e: EdgeRecord| e.to)[k] == gs[k].to);
        }
        assert(queue@ =~= seq![from]);
        assert(queue@[0] == from);
        assert(queue@.contains(from));
        assert(expanded_ok(gs, lv, visited@, queue@, dist, None));
    }
    while queue.len() > 0
        invariant
            gs == g.edges@,
            lv == label_view(label),
            match label_s {
                Some(l) => lv == Some(l@),
                None => lv is None,
            },
            from != to,
            parents_ok(gs, lv, from, parent@, visited@, dist),
            routes_ok(gs, lv, from, parent@, visited@, dist, route),
            queue_ordered(queue@, dist, route),
            reached_before_head(queue@, dist, route),
            !visited@.contains(to),
            frontier_ok(visited@, queue@, dist),
            expanded_ok(gs, lv, visited@, queue@, dist, None),
            targets.finite(),
            visited@.subset_of(targets),
            forall|k: int| 0 <= k < gs.len() ==> targets.contains(#[trigger] gs[k].to),
        decreases targets.difference(visited@).len(), queue@.len(),
    {
        let ghost q0 = queue@;
        let ghost v0 = visited@;
        let ghost dist0 = dist;
        let ghost route0 = route;
        let cur = match queue.pop_front() {
            Some(c) => c,
            None => {
                proof {
                    assert(false);
                }
                from
            },
        };
        let ghost d = dist[cur];
        proof {
            assert(q0[0] == cur);
            assert(queue@ == q0.drop_first());
            assert forall|w: Seq<u128>|
                #[trigger] is_walk(gs, lv, w) && w[0] == from && !v0.contains(w.last()) implies w.len()
                >= d + 2 by {
                lemma_frontier_bound(gs, lv, from, v0, q0, dist, w);
            }
            assert forall|w: Seq<u128>|
                #[trigger] is_walk(gs, lv, w) && w[0] == from && v0.contains(w.last()) implies dist0[w.last()]
                <= w.len() - 1 by {
                lemma_frontier_bound(gs, lv, from, v0, q0, dist, w);
            }
            assert forall|i: int| 0 <= i < q0.len() implies dist0[q0[0]] <= dist0[#[trigger] q0[i]] by {
            }
            assert forall|i: int| 0 <= i < queue@.len() && dist[#[trigger] queue@[i]] == d implies lex_before(
                route[cur],
                route[queue@[i]],
            ) by {
                assert(queue@[i] == q0[i + 1]);
                assert(dist0[q0[0]] < dist0[q0[i + 1]] || lex_before(route0[q0[0]], route0[q0[i + 1]]));
            }
            assert forall|i: int| 0 <= i < queue@.len() && dist[#[trigger] queue@[i]] == d + 1 implies lex_before(
                route[queue@[i]].drop_last(),
                route[cur],
            ) by {
                assert(queue@[i] == q0[i + 1]);
            }
            assert forall|i: int| 0 <= i < queue@.len() implies d <= dist[#[trigger] queue@[i]] <= d + 1 by {
                assert(queue@[i] == q0[i + 1]);
                assert(dist[q0[0]] <= dist[q0[i + 1]]);
            }
            assert forall|k: int|
                0 <= k < gs.len() && visited@.contains(gs[k].from) && !queue@.contains(gs[k].from)
                    && Some(cur) != Some(gs[k].from) && usable(
                    #[trigger] gs[k],
                    lv,
                ) implies visited@.contains(gs[k].to) && dist[gs[k].to] <= dist[gs[k].from] + 1 by {
                if q0.contains(gs[k].from) {
                    let qi = choose|qi: int| 0 <= qi < q0.len() && q0[qi] == gs[k].from;
                    if qi > 0 {
                        assert(queue@[qi - 1] == q0[qi]);
                    }
                }
            }
        }
        let mut j: usize = 0;
        while j < g.edges.len()
            invariant
                gs == g.edges@,
                lv == label_view(label),
                match label_s {
                    Some(l) => lv == Some(l@),
                    None => lv is None,
                },
                from != to,
                j <= gs.len(),
                parents_ok(gs, lv, from, parent@, visited@, dist),
                routes_ok(gs, lv, from, parent@, visited@, dist, route),
                forall|v: u128| #[trigger] v0.contains(v) ==> dist[v] == dist0[v] && route[v] == route0[v],
                q0.len() > 0 && q0[0] == cur && dist0[cur] == d,
                forall|i: int| 0 <= i < q0.len() ==> v0.contains(#[trigger] q0[i]),
                forall|i: int| 0 <= i < q0.len() ==> dist0[q0[0]] <= dist0[#[trigger] q0[i]],
                queue_ordered(q0, dist0, route0),
                expanded_ok(gs, lv, v0, q0, dist0, None),
                forall|u: u128|
                    #[trigger] v0.contains(u) ==> is_route(gs, lv, from, u, route0[u]) && route0[u].len()
                        == dist0[u] && least_route(gs, lv, from, u, route0[u]),
                forall|w: Seq<u128>|
                    #[trigger] is_walk(gs, lv, w) && w[0] == from && v0.contains(w.last()) ==> dist0[w.last()]
                        <= w.len() - 1,
                queue_ordered(queue@, dist, route),
                forall|i: int|
                    0 <= i < queue@.len() && dist[#[trigger] queue@[i]] == d ==> lex_before(
                        route[cur],
                        route[queue@[i]],
                    ),
                forall|i: int|
                    0 <= i < queue@.len() && dist[#[trigger] queue@[i]] == d + 1 ==> lex_before(
                        route[queue@[i]].drop_last(),
                        route[cur],
                    ) || (route[queue@[i]].drop_last() == route[cur] && route[queue@[i]].last() < j),
                !visited@.contains(to),
                visited@.contains(cur),
                dist[cur] == d,
                v0.subset_of(visited@),
                forall|i: int| 0 <= i < queue@.len() ==> visited@.contains(#[trigger] queue@[i]),
                forall|i: int, k: int|
                    0 <= i <= k < queue@.len() ==> dist[#[trigger] queue@[i]] <= dist[#[trigger] queue@[k]],
                forall|i: int| 0 <= i < queue@.len() ==> d <= dist[#[trigger] queue@[i]] <= d + 1,
                forall|v: u128| #[trigger] visited@.contains(v) ==> dist[v] <= d + 1,
                expanded_ok(gs, lv, visited@, queue@, dist, Some(cur)),
                forall|k: int|
                    0 <= k < j && gs[k].from == cur && usable(#[trigger] gs[k], lv) ==> visited@.contains(
                        gs[k].to,
                    ) && dist[gs[k].to] <= d + 1,
                forall|w: Seq<u128>|
                    #[trigger] is_walk(gs, lv, w) && w[0] == from && !v0.contains(w.last()) ==> w.len()
                        >= d + 2,
                targets.finite(),
                visited@.subset_of(targets),
                forall|k: int| 0 <= k < gs.len() ==> targets.contains(#[trigger] gs[k].to),
                (visited@ == v0 && queue@.len() + 1 == q0.len()) || targets.difference(
                    visited@,
                ).len() < targets.difference(v0).len(),
            decreases gs.len() - j,
        {
            let e = &g.edges[j];
            let follows = match &label_s {
                None => true,
                Some(l) => e.label == *l,
            };
            if e.from == cur && follows {
                let to_node = e.to;
                let edge_id = e.id;
                if !visited.contains(&to_node) {
                    let ghost vis_before = visited@;
                    let ghost q_before = queue@;
                    visited.insert(to_node);
                    parent.insert(to_node, (cur, edge_id));
                    proof {
                        dist = dist.insert(to_node, d + 1);
                        assert(edge_at(gs, lv, cur, edge_id, to_node)) by {
                            assert(gs[j as int].from == cur);
                        }
                        let route_before = route;
                        assert(!v0.contains(to_node));
                        lemma_discovery_least(gs, lv, from, v0, q0, dist0, route0, j as int);
                        lemma_route_push(gs, lv, from, cur, route_before[cur], j as int);
                        route = route.insert(to_node, route_before[cur].push(j as int));
                        assert forall|v: u128| #[trigger] visited@.contains(v) implies {
                            &&& route.contains_key(v)
                            &&& is_route(gs, lv, from, v, route[v])
                            &&& route[v].len() == dist[v]
                            &&& least_route(gs, lv, from, v, route[v])
                        } by {
                            if v != to_node {
                                assert(vis_before.contains(v));
                            }
                        }
                        assert forall|v: u128| #[trigger] visited@.contains(v) && v != from implies {
                            &&& route[v].len() > 0
                            &&& route[v].drop_last() == route[parent@[v].0]
                            &&& gs[route[v].last()].from == parent@[v].0
                            &&& gs[route[v].last()].id == parent@[v].1
                        } by {
                            if v != to_node {
                                assert(vis_before.contains(v));
                                assert(vis_before.contains(parent@[v].0));
                            } else {
                                assert(route[v].drop_last() =~= route_before[cur]);
                            }
                        }
                        assert(routes_ok(gs, lv, from, parent@, visited@, dist, route));
                        lemma_len_subset(vis_before, targets);
                        targets.lemma_set_insert_diff_decreases(vis_before, to_node);
                    }
                    if to_node == to {
                        let p = reconstruct_path(
                            &parent,
                            from,
                            to,
                            Ghost(gs),
                            Ghost(lv),
                            Ghost(visited@),
                            Ghost(dist),
                            Ghost(route),
                        );
                        proof {
                            assert(!v0.contains(to));
                            assert(is_route(gs, lv, from, to, route[to]));
                        }
                        return Ok(p);
                    }
                    queue.push_back(to_node);
                    proof {
                        let n = queue@.len();
                        assert forall|i: int, k: int| 0 <= i < k < queue@.len() implies dist[#[trigger] queue@[i]]
                            < dist[#[trigger] queue@[k]] || lex_before(route[queue@[i]], route[queue@[k]]) by {
                            assert(queue@[i] == q_before[i]);
                            if k < n - 1 {
                                assert(queue@[k] == q_before[k]);
                            } else {
                                let x = q_before[i];
                                assert(vis_before.contains(x));
                                if dist[x] == d + 1 {
                                    let rx = route[x];
                                    assert(rx.len() == d + 1);
                                    lemma_lex_push(rx.drop_last(), route[cur], rx.last(), j as int);
                                    assert(rx.drop_last().push(rx.last()) =~= rx);
                                }
                            }
                        }
                        assert forall|i: int|
                            0 <= i < queue@.len() && dist[#[trigger] queue@[i]] == d implies lex_before(
                                route[cur],
                                route[queue@[i]],
                            ) by {
                            if i < n - 1 {
                                assert(queue@[i] == q_before[i]);
                            }
                        }
                        assert forall|i: int|
                            0 <= i < queue@.len() && dist[#[trigger] queue@[i]] == d + 1 implies lex_before(
                                route[queue@[i]].drop_last(),
                                route[cur],
                            ) || (route[queue@[i]].drop_last() == route[cur] && route[queue@[i]].last() < j
                                + 1) by {
                            if i < n - 1 {
                                assert(queue@[i] == q_before[i]);
                            } else {
                                assert(route[queue@[i]].drop_last() =~= route[cur]);
                            }
                        }
                        assert forall|i: int, k: int|
                            0 <= i <= k < queue@.len() implies dist[#[trigger] queue@[i]] <= dist[#[trigger] queue@[k]] by {
                            if k < queue@.len() - 1 {
                                assert(queue@[i] == q_before[i] && queue@[k] == q_before[k]);
                            } else if i < queue@.len() - 1 {
                                assert(queue@[i] == q_before[i]);
                            }
                        }
                        assert forall|i: int| 0 <= i < queue@.len() implies d <= dist[#[trigger] queue@[i]] <= d + 1 by {
                            if i < queue@.len() - 1 {
                                assert(queue@[i] == q_before[i]);
                            }
                        }
                        assert forall|i: int| 0 <= i < queue@.len() implies visited@.contains(#[trigger] queue@[i]) by {
                            if i < queue@.len() - 1 {
                                assert(queue@[i] == q_before[i]);
                            }
                        }
                        assert forall|k: int|
                            0 <= k < gs.len() && visited@.contains(gs[k].from) && !queue@.contains(gs[k].from)
                                && Some(cur) != Some(gs[k].from) && usable(
                                #[trigger] gs[k],
                                lv,
                            ) implies visited@.contains(gs[k].to) && dist[gs[k].to] <= dist[gs[k].from] + 1 by {
                            assert(gs[k].from != to_node) by {
                                assert(queue@[queue@.len() - 1] == to_node);
                            }
                            if q_before.contains(gs[k].from) {
                                let qi = choose|qi: int| 0 <= qi < q_before.len() && q_before[qi] == gs[k].from;
                                assert(queue@[qi] == q_before[qi]);
                            }
                        }
                    }
                }
            }
            j = j + 1;
        }
        proof {
            assert forall|k: int|
                0 <= k < gs.len() && visited@.contains(gs[k].from) && !queue@.contains(gs[k].from)
                    && None::<u128> != Some(gs[k].from) && usable(
                    #[trigger] gs[k],
                    lv,
                ) implies visited@.contains(gs[k].to) && dist[gs[k].to] <= dist[gs[k].from] + 1 by {
                if gs[k].from == cur {
                } else {
                }
            }
            if queue@.len() > 0 {
                assert(d <= dist[queue@[0]]);
                assert forall|i: int|
                    0 <= i < queue@.len() && dist[#[trigger] queue@[i]] > dist[queue@[0]] implies lex_before(
                    route[queue@[i]].drop_last(),
                    route[queue@[0]],
                ) by {
                    let x = queue@[i];
                    let h = queue@[0];
                    assert(dist[h] == d);
                    assert(lex_before(route[cur], route[h]));
                    if lex_before(route[x].drop_last(), route[cur]) {
                        lemma_lex_trans(route[x].drop_last(), route[cur], route[h]);
                    }
                }
            }
        }
    }
    proof {
        assert forall|w: Seq<u128>| #[trigger] is_walk(gs, lv, w) && w[0] == from implies w.last() != to by {
            lemma_frontier_bound(gs, lv, from, visited@, queue@, dist, w);
        }
    }
    Err(PathError::ShortestPathNotFound)
}

/// The two ends of the path searched for one traversed node.
pub fn path_ends(path_type: &PathType, node: u128) -> (r: (u128, u128))
    ensures
        r == match path_type {
            PathType::From(f) => (*f, node),
            PathType::To(t) => (node, *t),
        },
{
    match path_type {
        PathType::From(f) => (*f, node),
        PathType::To(t) => (node, *t),
    }
}

/// The kind of path search that a start or an end selects: exactly one of them is given.
pub fn path_type_of(from: Option<u128>, to: Option<u128>) -> (r: PathType)
    requires
        from is Some != to is Some,
    ensures
        match (from, to) {
            (Some(f), None) => r == PathType::From(f),
            (None, Some(t)) => r == PathType::To(t),
            _ => false,
        },
{
    match (from, to) {
        (Some(f), None) => PathType::From(f),
        (None, Some(t)) => PathType::To(t),
        _ => PathType::From(0),
    }
}

/// The breadth-first answer for one traversed node under the given path type.
pub fn bfs_path_for_node(g: &GraphModel, label: Option<&str>, path_type: &PathType, node: u128) -> (r:
    Result<Path, PathError>)
    ensures
        ({
            let (from, to) = match path_type {
                PathType::From(f) => (*f, node),
                PathType::To(t) => (node, *t),
            };
            bfs_answer(g.edges@, label_view(label), from, to, r)
        }),
{
    let (from, to) = path_ends(path_type, node);
    bfs_shortest_path(g, label, from, to)
}

/// Law: the shortest path from a node to itself is that node alone, with no edge.
pub proof fn law_path_to_itself(
    g: Seq<EdgeRecord>,
    label: Option<Seq<char>>,
    n: u128,
    r: Result<Path, PathError>,
)
    requires
        bfs_answer(g, label, n, n, r),
    ensures
        r matches Ok(p) && p.nodes@ == seq![n] && p.edges@.len() == 0,
{
    let w = seq![n];
    assert(is_walk(g, label, w));
    assert(reachable(g, label, n, n));
    if let Ok(p) = r {
        assert(p.nodes@.len() <= 1);
        assert(p.nodes@ =~= seq![n]);
    }
}

/// Law: an answer's path is a walk, and no walk between the same ends is shorter; so two
/// answers for the same ends have the same number of nodes.
pub proof fn law_answers_agree_in_length(
    g: Seq<EdgeRecord>,
    label: Option<Seq<char>>,
    from: u128,
    to: u128,
    p1: Path,
    p2: Path,
)
    requires
        bfs_answer(g, label, from, to, Ok(p1)),
        bfs_answer(g, label, from, to, Ok(p2)),
    ensures
        p1.nodes@.len() == p2.nodes@.len(),
{
    lemma_path_is_walk(g, label, from, to, p1.nodes@, p1.edges@);
    lemma_path_is_walk(g, label, from, to, p2.nodes@, p2.edges@);
}

/// Law: a search finds a path exactly when some walk leads from the start to the end.
pub proof fn law_found_iff_reachable(
    g: Seq<EdgeRecord>,
    label: Option<Seq<char>>,
    from: u128,
    to: u128,
    r: Result<Path, PathError>,
)
    requires
        bfs_answer(g, label, from, to, r),
    ensures
        r is Ok <==> reachable(g, label, from, to),
{
    if let Ok(p) = r {
        lemma_path_is_walk(g, label, from, to, p.nodes@, p.edges@);
    }
}

/// Law: the answer is determined by the graph, the label filter and the two ends: two
/// answers for the same search are the same path.
pub proof fn law_answer_is_unique(
    g: Seq<EdgeRecord>,
    label: Option<Seq<char>>,
    from: u128,
    to: u128,
    p1: Path,
    p2: Path,
)
    requires
        bfs_answer(g, label, from, to, Ok(p1)),
        bfs_answer(g, label, from, to, Ok(p2)),
    ensures
        p1.nodes@ == p2.nodes@,
        p1.edges@ == p2.edges@,
{
    law_answers_agree_in_length(g, label, from, to, p1, p2);
    let ps1 = choose|ps: Seq<int>|
        #[trigger] is_route(g, label, from, to, ps) && path_of_route(g, from, ps, p1.nodes@, p1.edges@)
            && least_route(g, label, from, to, ps);
    let ps2 = choose|ps: Seq<int>|
        #[trigger] is_route(g, label, from, to, ps) && path_of_route(g, from, ps, p2.nodes@, p2.edges@)
            && least_route(g, label, from, to, ps);
    assert(ps1.len() == ps2.len());
    if ps1 != ps2 {
        lemma_lex_total_from(ps1, ps2, 0);
        assert(false);
    }
    assert(p1.nodes@ =~= p2.nodes@) by {
        assert forall|i: int| 0 <= i < p1.nodes@.len() implies p1.nodes@[i] == p2.nodes@[i] by {
            if i > 0 {
                assert(p1.edges@[i - 1] == g[ps1[i - 1]].id);
                assert(p2.edges@[i - 1] == g[ps2[i - 1]].id);
            }
        }
    }
    assert(p1.edges@ =~= p2.edges@) by {
        assert forall|i: int| 0 <= i < p1.edges@.len() implies p1.edges@[i] == p2.edges@[i] by {
            assert(p1.edges@[i] == g[ps1[i]].id);
            assert(p2.edges@[i] == g[ps2[i]].id);
        }
    }
}

} // verus!
