//! The routing graph of the blocks, and the search for cycles in it.
//!
//! A graph is the list of each block's outbound edges. Only edges to blocks
//! matter here: an edge to a sink leads nowhere.

use vstd::prelude::*;
use crate::block::Connection;

verus! {

/// The outbound edges of every block, by block index.
pub type Graph = Seq<Seq<Connection>>;

/// Whether every edge to a block names a block of the graph.
pub open spec fn closed_graph(graph: Graph) -> bool {
    forall|i: int, k: int|
        0 <= i < graph.len() && 0 <= k < graph[i].len() ==> (#[trigger] graph[i][k] matches Connection::Block(
            j,
        ) ==> j < graph.len())
}

/// Whether the `k`-th edge of block `i` is the first edge, in the order of the
/// blocks and of their edges, that names a block which the graph does not
/// have, and `target` is that block.
pub open spec fn first_open_edge(graph: Graph, i: int, k: int, target: usize) -> bool {
    &&& 0 <= i < graph.len()
    &&& 0 <= k < graph[i].len()
    &&& graph[i][k] == Connection::Block(target)
    &&& target >= graph.len()
    &&& forall|a: int, b: int|
        0 <= a < graph.len() && 0 <= b < graph[a].len() && (a < i || (a == i && b < k)) ==> (
        #[trigger] graph[a][b] matches Connection::Block(j) ==> j < graph.len())
}

/// Whether `target` is the block that the first edge to a block which the
/// graph does not have names.
pub open spec fn first_missing_block(graph: Graph, target: usize) -> bool {
    exists|i: int, k: int| #[trigger] first_open_edge(graph, i, k, target)
}

/// Whether block `from` has an edge to block `to`.
pub open spec fn has_edge(graph: Graph, from: usize, to: usize) -> bool {
    from < graph.len() && graph[from as int].contains(Connection::Block(to))
}

/// A walk: blocks of the graph, each with an edge to the next.
pub open spec fn is_walk(graph: Graph, walk: Seq<usize>) -> bool {
    &&& walk.len() >= 1
    &&& forall|i: int| 0 <= i < walk.len() ==> #[trigger] walk[i] < graph.len()
    &&& forall|i: int| 0 <= i < walk.len() - 1 ==> has_edge(graph, #[trigger] walk[i], walk[i + 1])
}

/// A directed cycle: a walk of at least one edge that ends where it began.
pub open spec fn is_cycle(graph: Graph, walk: Seq<usize>) -> bool {
    is_walk(graph, walk) && walk.len() >= 2 && walk.first() == walk.last()
}

/// Whether the graph holds a directed cycle.
pub open spec fn has_cycle(graph: Graph) -> bool {
    exists|walk: Seq<usize>| is_cycle(graph, walk)
}

/// The depth-first search that is about to enter `node`, with `path` as the
/// blocks it came through. It reports the path at the moment it is about to
/// enter a block that the path already holds; it goes through the edges of
/// each block in their order and gives up a block once all its edges are
/// searched. It does not enter what is no block of the graph, and it does not
/// go on from a path that is as long as the graph has blocks: a path of blocks
/// of the graph, none of them twice, is shorter when there is a block that it
/// does not hold.
pub open spec fn search(graph: Graph, path: Seq<usize>, node: usize) -> Option<Seq<usize>>
    decreases graph.len() - path.len(), 0nat,
{
    if path.contains(node) {
        Some(path)
    } else if node >= graph.len() || path.len() >= graph.len() {
        None
    } else {
        search_edges(graph, path.push(node), graph[node as int], 0)
    }
}

/// The search through the edges of the last block of `path`, from the `k`-th
/// on.
pub open spec fn search_edges(graph: Graph, path: Seq<usize>, edges: Seq<Connection>, k: nat) -> Option<
    Seq<usize>,
>
    decreases graph.len() - path.len(), 1 + edges.len() - k,
{
    if k >= edges.len() {
        None
    } else {
        match edges[k as int] {
            Connection::Block(next) => match search(graph, path, next) {
                Some(found) => Some(found),
                None => search_edges(graph, path, edges, k + 1),
            },
            Connection::Sink(_) => search_edges(graph, path, edges, k + 1),
        }
    }
}

/// The cyclic path that the search from block `start` reports, if it reports
/// one.
pub open spec fn cycle_from(graph: Graph, start: usize) -> Option<Seq<usize>> {
    if start < graph.len() {
        search_edges(graph, seq![start], graph[start as int], 0)
    } else {
        None
    }
}

/// The cyclic paths that the searches from the first `n` blocks report, in the
/// order of the blocks.
pub open spec fn cycles_of_first(graph: Graph, n: nat) -> Seq<Seq<usize>>
    decreases n,
{
    if n == 0 {
        Seq::empty()
    } else {
        let before = cycles_of_first(graph, (n - 1) as nat);
        match cycle_from(graph, (n - 1) as usize) {
            Some(found) => before.push(found),
            None => before,
        }
    }
}

/// The cyclic paths that the searches from all blocks report: at most one for
/// each block.
pub open spec fn cycles(graph: Graph) -> Seq<Seq<usize>> {
    cycles_of_first(graph, graph.len())
}

/// Whether the blocks of `path` are blocks of the graph, none of them twice.
pub open spec fn is_simple(graph: Graph, path: Seq<usize>) -> bool {
    &&& forall|i: int| 0 <= i < path.len() ==> #[trigger] path[i] < graph.len()
    &&& forall|i: int, j: int| 0 <= i < j < path.len() ==> path[i] != path[j]
}

/// Whether `path` is a walk whose last block has an edge back to a block of
/// the path.
pub open spec fn closes(graph: Graph, path: Seq<usize>) -> bool {
    is_walk(graph, path) && exists|back: usize|
        has_edge(graph, path.last(), back) && #[trigger] path.contains(back)
}

/// Numbers below `n`, none of them twice, are at most `n` numbers.
proof fn lemma_pigeonhole(path: Seq<usize>, n: nat)
    requires
        forall|i: int| 0 <= i < path.len() ==> #[trigger] path[i] < n,
        forall|i: int, j: int| 0 <= i < j < path.len() ==> path[i] != path[j],
    ensures
        path.len() <= n,
    decreases n,
{
    if n == 0 {
        if path.len() > 0 {
            assert(path[0] < n);
        }
    } else if exists|i: int| 0 <= i < path.len() && path[i] == n - 1 {
        let at = choose|i: int| 0 <= i < path.len() && path[i] == n - 1;
        let rest = path.remove(at);
        assert forall|i: int| 0 <= i < rest.len() implies #[trigger] rest[i] < n - 1 by {
            let from = if i < at {
                i
            } else {
                i + 1
            };
            assert(rest[i] == path[from]);
            assert(path[from] < n);
            if from < at {
                assert(path[from] != path[at]);
            } else {
                assert(path[at] != path[from]);
            }
        }
        assert forall|i: int, j: int| 0 <= i < j < rest.len() implies rest[i] != rest[j] by {
            let a = if i < at {
                i
            } else {
                i + 1
            };
            let b = if j < at {
                j
            } else {
                j + 1
            };
            assert(rest[i] == path[a] && rest[j] == path[b]);
        }
        lemma_pigeonhole(rest, (n - 1) as nat);
    } else {
        assert forall|i: int| 0 <= i < path.len() implies #[trigger] path[i] < n - 1 by {
            assert(path[i] < n);
        }
        lemma_pigeonhole(path, (n - 1) as nat);
    }
}

/// A walk whose last block has an edge back into the walk holds a cycle.
proof fn lemma_closing_walk_holds_cycle(graph: Graph, path: Seq<usize>)
    requires
        closes(graph, path),
    ensures
        has_cycle(graph),
{
    let back = choose|back: usize| has_edge(graph, path.last(), back) && #[trigger] path.contains(back);
    let at = choose|i: int| 0 <= i < path.len() && path[i] == back;
    let cycle = path.subrange(at, path.len() as int).push(back);
    assert forall|i: int| 0 <= i < cycle.len() implies #[trigger] cycle[i] < graph.len() by {
        if i < cycle.len() - 1 {
            assert(cycle[i] == path[at + i]);
        } else {
            assert(cycle[i] == path[at]);
        }
    }
    assert forall|i: int| 0 <= i < cycle.len() - 1 implies has_edge(
        graph,
        #[trigger] cycle[i],
        cycle[i + 1],
    ) by {
        assert(cycle[i] == path[at + i]);
        if i < cycle.len() - 2 {
            assert(cycle[i + 1] == path[at + i + 1]);
            assert(has_edge(graph, path[at + i], path[at + i + 1]));
        } else {
            assert(cycle[i + 1] == back);
            assert(path[at + i] == path.last());
        }
    }
    assert(cycle.first() == path[at]);
    assert(is_cycle(graph, cycle));
}

/// What the search reports is a walk that begins with the path the search
/// came through, and whose last block has an edge back into it.
proof fn lemma_search_closes(graph: Graph, path: Seq<usize>, node: usize)
    requires
        is_walk(graph, path),
        has_edge(graph, path.last(), node),
        search(graph, path, node) is Some,
    ensures
        closes(graph, search(graph, path, node).unwrap()),
        path.is_prefix_of(search(graph, path, node).unwrap()),
    decreases graph.len() - path.len(), 0nat,
{
    if path.contains(node) {
        assert(path.is_prefix_of(path)) by {
            assert(path.subrange(0, path.len() as int) =~= path);
        }
    } else {
        let longer = path.push(node);
        assert(is_walk(graph, longer)) by {
            assert forall|i: int| 0 <= i < longer.len() implies #[trigger] longer[i] < graph.len() by {
                if i < path.len() {
                    assert(longer[i] == path[i]);
                }
            }
            assert forall|i: int| 0 <= i < longer.len() - 1 implies has_edge(
                graph,
                #[trigger] longer[i],
                longer[i + 1],
            ) by {
                assert(longer[i] == path[i]);
                if i < path.len() - 1 {
                    assert(longer[i + 1] == path[i + 1]);
                    assert(has_edge(graph, path[i], path[i + 1]));
                }
            }
        }
        lemma_search_edges_closes(graph, longer, graph[node as int], 0);
        let found = search(graph, path, node).unwrap();
        assert(path.is_prefix_of(found)) by {
            assert(longer.subrange(0, path.len() as int) =~= path);
            assert(found.subrange(0, longer.len() as int) == longer);
            assert(found.subrange(0, path.len() as int) =~= longer.subrange(0, path.len() as int));
        }
    }
}

/// The same, for the search through the edges of the last block of `path`.
proof fn lemma_search_edges_closes(graph: Graph, path: Seq<usize>, edges: Seq<Connection>, k: nat)
    requires
        is_walk(graph, path),
        edges == graph[path.last() as int],
        search_edges(graph, path, edges, k) is Some,
    ensures
        closes(graph, search_edges(graph, path, edges, k).unwrap()),
        path.is_prefix_of(search_edges(graph, path, edges, k).unwrap()),
    decreases graph.len() - path.len(), 1 + edges.len() - k,
{
    if k < edges.len() {
        match edges[k as int] {
            Connection::Block(next) => {
                assert(path[path.len() - 1] < graph.len());
                assert(edges.contains(Connection::Block(next)));
                if search(graph, path, next) is Some {
                    lemma_search_closes(graph, path, next);
                } else {
                    lemma_search_edges_closes(graph, path, edges, k + 1);
                }
            },
            Connection::Sink(_) => {
                lemma_search_edges_closes(graph, path, edges, k + 1);
            },
        }
    }
}

/// Where the search through some edges reports nothing, the search into each
/// block behind these edges reports nothing.
proof fn lemma_search_edges_none(graph: Graph, path: Seq<usize>, edges: Seq<Connection>, k: nat, at: int, next: usize)
    requires
        search_edges(graph, path, edges, k) is None,
        k <= at < edges.len(),
        edges[at] == Connection::Block(next),
    ensures
        search(graph, path, next) is None,
    decreases at - k,
{
    if k < at {
        lemma_search_edges_none(graph, path, edges, k + 1, at, next);
    }
}

/// Where the search into `node` reports nothing, no walk from `node` leads to
/// a block of the path that the search came through.
proof fn lemma_search_none(graph: Graph, path: Seq<usize>, node: usize, walk: Seq<usize>)
    requires
        is_simple(graph, path),
        search(graph, path, node) is None,
        is_walk(graph, walk),
        walk[0] == node,
    ensures
        forall|i: int| 0 <= i < walk.len() ==> !path.contains(#[trigger] walk[i]),
    decreases graph.len() - path.len(),
{
    assert(walk[0] < graph.len());
    let longer = path.push(node);
    assert(is_simple(graph, longer)) by {
        assert forall|i: int| 0 <= i < longer.len() implies #[trigger] longer[i] < graph.len() by {
            if i < path.len() {
                assert(longer[i] == path[i]);
            }
        }
        assert forall|i: int, j: int| 0 <= i < j < longer.len() implies longer[i] != longer[j] by {
            assert(longer[i] == path[i]);
            if j < path.len() {
                assert(longer[j] == path[j]);
            } else {
                assert(path.contains(path[i]));
            }
        }
    }
    lemma_pigeonhole(longer, graph.len());
    assert(search_edges(graph, longer, graph[node as int], 0) is None);
    assert forall|i: int| 0 <= i < walk.len() implies !path.contains(#[trigger] walk[i]) by {
        if i > 0 {
            let next = walk[1];
            assert(has_edge(graph, walk[0], walk[1]));
            let edges = graph[node as int];
            let at = choose|at: int| 0 <= at < edges.len() && edges[at] == Connection::Block(next);
            lemma_search_edges_none(graph, longer, edges, 0, at, next);
            let rest = walk.skip(1);
            assert(is_walk(graph, rest)) by {
                assert forall|a: int| 0 <= a < rest.len() implies #[trigger] rest[a] < graph.len() by {
                    assert(rest[a] == walk[a + 1]);
                }
                assert forall|a: int| 0 <= a < rest.len() - 1 implies has_edge(
                    graph,
                    #[trigger] rest[a],
                    rest[a + 1],
                ) by {
                    assert(rest[a] == walk[a + 1] && rest[a + 1] == walk[a + 2]);
                    assert(has_edge(graph, walk[a + 1], walk[a + 2]));
                }
            }
            lemma_search_none(graph, longer, next, rest);
            assert(rest[i - 1] == walk[i]);
            assert(!longer.contains(rest[i - 1]));
            if path.contains(walk[i]) {
                let b = choose|b: int| 0 <= b < path.len() && path[b] == walk[i];
                assert(longer[b] == walk[i]);
            }
        }
    }
}

/// A search that reports a path adds one to the list of the reported paths.
proof fn lemma_cycles_hold(graph: Graph, start: usize, n: nat)
    requires
        start < n <= graph.len(),
        cycle_from(graph, start) is Some,
    ensures
        cycles_of_first(graph, n).len() > 0,
    decreases n,
{
    if start < n - 1 {
        lemma_cycles_hold(graph, start, (n - 1) as nat);
    }
}

/// Each reported path was reported by the search from some block.
proof fn lemma_cycles_come_from(graph: Graph, n: nat, at: int)
    requires
        n <= graph.len(),
        n <= usize::MAX,
        0 <= at < cycles_of_first(graph, n).len(),
    ensures
        exists|start: usize|
            start < n && #[trigger] cycle_from(graph, start) == Some(cycles_of_first(graph, n)[at]),
    decreases n,
{
    if n > 0 {
        let before = cycles_of_first(graph, (n - 1) as nat);
        if at < before.len() {
            lemma_cycles_come_from(graph, (n - 1) as nat, at);
            let start = choose|start: usize|
                start < n - 1 && #[trigger] cycle_from(graph, start) == Some(before[at]);
            assert(cycle_from(graph, start) == Some(cycles_of_first(graph, n)[at]));
        } else {
            assert(cycle_from(graph, (n - 1) as usize) == Some(cycles_of_first(graph, n)[at]));
        }
    }
}

/// The path that the search from a block reports begins with that block, is a
/// walk, and its last block has an edge back to one of its blocks.
pub proof fn law_reported_path_closes(graph: Graph, start: usize)
    requires
        cycle_from(graph, start) is Some,
    ensures
        closes(graph, cycle_from(graph, start).unwrap()),
        cycle_from(graph, start).unwrap()[0] == start,
{
    let path = seq![start];
    assert(is_walk(graph, path));
    lemma_search_edges_closes(graph, path, graph[start as int], 0);
    let found = cycle_from(graph, start).unwrap();
    assert(found.subrange(0, 1) == path);
    assert(found.subrange(0, 1)[0] == found[0]);
}

/// The searches report a cyclic path if and only if the graph holds a
/// directed cycle, that is a walk along edges to blocks that comes back to the
/// block it began with. Edges to sinks play no part.
pub proof fn law_cycles_reported_iff_cyclic(graph: Graph)
    requires
        graph.len() <= usize::MAX,
    ensures
        cycles(graph).len() > 0 <==> has_cycle(graph),
{
    if cycles(graph).len() > 0 {
        lemma_cycles_come_from(graph, graph.len(), 0);
        let start = choose|start: usize|
            start < graph.len() && #[trigger] cycle_from(graph, start) == Some(cycles(graph)[0]);
        law_reported_path_closes(graph, start);
        lemma_closing_walk_holds_cycle(graph, cycle_from(graph, start).unwrap());
    }
    if has_cycle(graph) {
        let walk = choose|walk: Seq<usize>| is_cycle(graph, walk);
        let start = walk[0];
        assert(start < graph.len());
        if cycle_from(graph, start) is None {
            let path = seq![start];
            let next = walk[1];
            assert(has_edge(graph, walk[0], walk[1]));
            let edges = graph[start as int];
            let at = choose|at: int| 0 <= at < edges.len() && edges[at] == Connection::Block(next);
            lemma_search_edges_none(graph, path, edges, 0, at, next);
            let rest = walk.skip(1);
            assert(is_walk(graph, rest)) by {
                assert forall|a: int| 0 <= a < rest.len() implies #[trigger] rest[a] < graph.len() by {
                    assert(rest[a] == walk[a + 1]);
                }
                assert forall|a: int| 0 <= a < rest.len() - 1 implies has_edge(
                    graph,
                    #[trigger] rest[a],
                    rest[a + 1],
                ) by {
                    assert(rest[a] == walk[a + 1] && rest[a + 1] == walk[a + 2]);
                    assert(has_edge(graph, walk[a + 1], walk[a + 2]));
                }
            }
            assert(is_simple(graph, path));
            lemma_search_none(graph, path, next, rest);
            assert(rest[rest.len() - 1] == walk.last());
            assert(!path.contains(rest[rest.len() - 1]));
            assert(path[0] == start);
            assert(false);
        }
        lemma_cycles_hold(graph, start, graph.len());
    }
}

/// How many edges the longest walk from `node` has among the walks of at most
/// `fuel` edges.
pub open spec fn reach(graph: Graph, node: usize, fuel: nat) -> nat
    decreases fuel, 0nat,
{
    if fuel == 0 || node >= graph.len() {
        0
    } else {
        reach_edges(graph, graph[node as int], 0, (fuel - 1) as nat)
    }
}

/// The same for the walks that begin with one of `edges`, from the `k`-th on,
/// and go on for at most `fuel` edges after it.
pub open spec fn reach_edges(graph: Graph, edges: Seq<Connection>, k: nat, fuel: nat) -> nat
    decreases fuel, 1 + edges.len() - k,
{
    if k >= edges.len() {
        0
    } else {
        let rest = reach_edges(graph, edges, k + 1, fuel);
        match edges[k as int] {
            Connection::Block(next) => if next < graph.len() && 1 + reach(graph, next, fuel) > rest {
                1 + reach(graph, next, fuel)
            } else {
                rest
            },
            Connection::Sink(_) => rest,
        }
    }
}

/// The rank of a block: how many edges the longest walk from it has, among the
/// walks of at most as many edges as the graph has blocks. In a graph without
/// cycles no walk is longer, and every edge leads to a block of lower rank.
pub open spec fn rank(graph: Graph, node: usize) -> nat {
    reach(graph, node, graph.len())
}

/// A walk over an edge behind which the walks are as long as `reach` says is
/// no longer than `reach_edges` says.
proof fn lemma_reach_edges_bounds(graph: Graph, edges: Seq<Connection>, k: nat, fuel: nat, at: int, next: usize)
    requires
        k <= at < edges.len(),
        edges[at] == Connection::Block(next),
        next < graph.len(),
    ensures
        1 + reach(graph, next, fuel) <= reach_edges(graph, edges, k, fuel),
    decreases at - k,
{
    if k < at {
        lemma_reach_edges_bounds(graph, edges, k + 1, fuel, at, next);
    }
}

/// What `reach_edges` says is reached over one of the edges, unless it is 0.
proof fn lemma_reach_edges_attained(graph: Graph, edges: Seq<Connection>, k: nat, fuel: nat) -> (next: usize)
    requires
        reach_edges(graph, edges, k, fuel) > 0,
    ensures
        next < graph.len(),
        edges.contains(Connection::Block(next)),
        reach_edges(graph, edges, k, fuel) == 1 + reach(graph, next, fuel),
    decreases edges.len() - k,
{
    let rest = reach_edges(graph, edges, k + 1, fuel);
    match edges[k as int] {
        Connection::Block(next) => {
            if next < graph.len() && 1 + reach(graph, next, fuel) > rest {
                assert(edges[k as int] == Connection::Block(next));
                next
            } else {
                lemma_reach_edges_attained(graph, edges, k + 1, fuel)
            }
        },
        Connection::Sink(_) => lemma_reach_edges_attained(graph, edges, k + 1, fuel),
    }
}

/// There is a walk from `node` of as many edges as `reach` says.
proof fn lemma_reach_walk(graph: Graph, node: usize, fuel: nat) -> (walk: Seq<usize>)
    requires
        node < graph.len(),
    ensures
        is_walk(graph, walk),
        walk[0] == node,
        walk.len() == reach(graph, node, fuel) + 1,
    decreases fuel,
{
    if reach(graph, node, fuel) == 0 {
        seq![node]
    } else {
        let next = lemma_reach_edges_attained(graph, graph[node as int], 0, (fuel - 1) as nat);
        let rest = lemma_reach_walk(graph, next, (fuel - 1) as nat);
        lemma_walk_extends(graph, node, rest);
        seq![node] + rest
    }
}

/// A walk from a block behind an edge of `node` is, with `node` put in front,
/// a walk from `node`.
proof fn lemma_walk_extends(graph: Graph, node: usize, rest: Seq<usize>)
    requires
        is_walk(graph, rest),
        has_edge(graph, node, rest[0]),
    ensures
        is_walk(graph, seq![node] + rest),
{
    let walk = seq![node] + rest;
    assert forall|i: int| 0 <= i < walk.len() implies #[trigger] walk[i] < graph.len() by {
        if i > 0 {
            assert(walk[i] == rest[i - 1]);
        }
    }
    assert forall|i: int| 0 <= i < walk.len() - 1 implies has_edge(graph, #[trigger] walk[i], walk[i + 1]) by {
        assert(walk[i + 1] == rest[i]);
        if i > 0 {
            assert(walk[i] == rest[i - 1]);
            assert(has_edge(graph, rest[i - 1], rest[i]));
        }
    }
}

/// In a graph without cycles, a walk has at most as many blocks as the graph.
proof fn lemma_walks_are_short(graph: Graph, walk: Seq<usize>)
    requires
        !has_cycle(graph),
        is_walk(graph, walk),
    ensures
        walk.len() <= graph.len(),
{
    assert forall|a: int, b: int| 0 <= a < b < walk.len() implies walk[a] != walk[b] by {
        if walk[a] == walk[b] {
            let cycle = walk.subrange(a, b + 1);
            assert forall|i: int| 0 <= i < cycle.len() implies #[trigger] cycle[i] < graph.len() by {
                assert(cycle[i] == walk[a + i]);
            }
            assert forall|i: int| 0 <= i < cycle.len() - 1 implies has_edge(
                graph,
                #[trigger] cycle[i],
                cycle[i + 1],
            ) by {
                assert(cycle[i] == walk[a + i] && cycle[i + 1] == walk[a + i + 1]);
                assert(has_edge(graph, walk[a + i], walk[a + i + 1]));
            }
            assert(cycle.first() == walk[a] && cycle.last() == walk[b]);
            assert(is_cycle(graph, cycle));
        }
    }
    lemma_pigeonhole(walk, graph.len());
}

/// Where the walks from `node` do not use up `fuel` edges, more fuel does not
/// make them longer.
proof fn lemma_reach_settles(graph: Graph, node: usize, fuel: nat)
    requires
        reach(graph, node, fuel) < fuel,
    ensures
        reach(graph, node, fuel + 1) == reach(graph, node, fuel),
    decreases fuel, 0nat,
{
    if node < graph.len() {
        lemma_reach_edges_settle(graph, graph[node as int], 0, (fuel - 1) as nat);
    }
}

/// The same for the walks that begin with one of `edges`.
proof fn lemma_reach_edges_settle(graph: Graph, edges: Seq<Connection>, k: nat, fuel: nat)
    requires
        reach_edges(graph, edges, k, fuel) <= fuel,
    ensures
        reach_edges(graph, edges, k, fuel + 1) == reach_edges(graph, edges, k, fuel),
    decreases fuel, 1 + edges.len() - k,
{
    if k < edges.len() {
        let rest = reach_edges(graph, edges, k + 1, fuel);
        match edges[k as int] {
            Connection::Block(next) => {
                if next < graph.len() {
                    lemma_reach_edges_bounds(graph, edges, k, fuel, k as int, next);
                    lemma_reach_settles(graph, next, fuel);
                }
                assert(rest <= reach_edges(graph, edges, k, fuel));
                lemma_reach_edges_settle(graph, edges, k + 1, fuel);
            },
            Connection::Sink(_) => {
                lemma_reach_edges_settle(graph, edges, k + 1, fuel);
            },
        }
    }
}

/// In a graph without cycles, every edge leads to a block of lower rank.
pub proof fn lemma_rank_falls(graph: Graph, from: usize, to: usize)
    requires
        !has_cycle(graph),
        has_edge(graph, from, to),
        to < graph.len(),
    ensures
        rank(graph, to) < rank(graph, from),
{
    let n = graph.len();
    let edges = graph[from as int];
    let at = choose|at: int| 0 <= at < edges.len() && edges[at] == Connection::Block(to);
    lemma_reach_edges_bounds(graph, edges, 0, (n - 1) as nat, at, to);
    let rest = lemma_reach_walk(graph, to, (n - 1) as nat);
    lemma_walk_extends(graph, from, rest);
    lemma_walks_are_short(graph, seq![from] + rest);
    lemma_reach_settles(graph, to, (n - 1) as nat);
}

/// A graph in which the blocks can be ranked so that every edge leads to a
/// block of lower rank holds no cycle.
pub proof fn lemma_ranked_graph_has_no_cycle(graph: Graph, ranks: spec_fn(usize) -> nat)
    requires
        forall|from: usize, to: usize| #[trigger]
            has_edge(graph, from, to) && to < graph.len() ==> ranks(to) < ranks(from),
    ensures
        !has_cycle(graph),
{
    if has_cycle(graph) {
        let walk = choose|walk: Seq<usize>| is_cycle(graph, walk);
        lemma_ranks_fall_along(graph, ranks, walk, walk.len() - 1);
    }
}

/// Along a walk the ranks fall.
proof fn lemma_ranks_fall_along(graph: Graph, ranks: spec_fn(usize) -> nat, walk: Seq<usize>, at: int)
    requires
        forall|from: usize, to: usize| #[trigger]
            has_edge(graph, from, to) && to < graph.len() ==> ranks(to) < ranks(from),
        is_walk(graph, walk),
        0 <= at < walk.len(),
    ensures
        ranks(walk[at]) + at <= ranks(walk[0]),
    decreases at,
{
    if at > 0 {
        lemma_ranks_fall_along(graph, ranks, walk, at - 1);
        assert(has_edge(graph, walk[at - 1], walk[at - 1 + 1]));
        assert(walk[at] < graph.len());
    }
}

} // verus!
