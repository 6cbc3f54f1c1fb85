use vstd::prelude::*;

use petgraph::graph::{EdgeIndex, Graph, NodeIndex};
use petgraph::visit::{Dfs, EdgeRef, Walker};
use petgraph::{Directed, Direction};

use crate::connection::Connection;
use crate::node::NodeInfo;

verus! {

#[verifier::external_type_specification]
#[verifier::external_body]
#[verifier::reject_recursive_types(N)]
#[verifier::reject_recursive_types(E)]
#[verifier::reject_recursive_types(Ty)]
#[verifier::reject_recursive_types(Ix)]
pub struct ExGraph<N, E, Ty, Ix>(Graph<N, E, Ty, Ix>);

#[verifier::external_type_specification]
#[verifier::external_body]
pub struct ExDirected(Directed);

/// The directed graph that holds the audio nodes and their connections.
pub type AudioGraph = Graph<NodeInfo, Connection>;

/// The node weights of a graph, in the order of their indexes.
pub uninterp spec fn graph_nodes(g: Graph<NodeInfo, Connection>) -> Seq<NodeInfo>;

/// The edges of a graph, in the order of their indexes: source index,
/// target index and weight.
pub uninterp spec fn graph_edges(g: Graph<NodeInfo, Connection>) -> Seq<(usize, usize, Connection)>;

/// There is an edge from `a` to `b`.
pub open spec fn has_edge(edges: Seq<(usize, usize, Connection)>, a: int, b: int) -> bool {
    exists|e: int| 0 <= e < edges.len() && #[trigger] edges[e].0 == a && edges[e].1 == b
}

/// `p` is a walk along edges (a single node is a walk of no edges).
pub open spec fn is_path(edges: Seq<(usize, usize, Connection)>, p: Seq<int>) -> bool {
    &&& p.len() >= 1
    &&& forall|i: int| 0 <= i < p.len() - 1 ==> #[trigger] has_edge(edges, p[i], p[i + 1])
}

/// `b` can be reached from `a` by following zero or more edges.
pub open spec fn reaches(edges: Seq<(usize, usize, Connection)>, a: int, b: int) -> bool {
    exists|p: Seq<int>| #[trigger] is_path(edges, p) && p[0] == a && p.last() == b
}

/// `petgraph::Graph::new`: an empty directed graph.
#[verifier::external_body]
pub(crate) fn graph_new() -> (g: AudioGraph)
    ensures
        graph_nodes(g) == Seq::<NodeInfo>::empty(),
        graph_edges(g) == Seq::<(usize, usize, Connection)>::empty(),
{
    Graph::new()
}

/// `petgraph::Graph::node_count`: the number of nodes.
#[verifier::external_body]
pub(crate) fn graph_node_count(g: &AudioGraph) -> (r: usize)
    ensures
        r == graph_nodes(*g).len(),
{
    g.node_count()
}

/// `petgraph::Graph::edge_count`: the number of edges.
#[verifier::external_body]
pub(crate) fn graph_edge_count(g: &AudioGraph) -> (r: usize)
    ensures
        r == graph_edges(*g).len(),
{
    g.edge_count()
}

/// `petgraph::Graph::add_node`: appends the weight as a new node and returns
/// its index, which is the former node count. It panics only when the index
/// type (`u32`) is exhausted, which `requires` rules out.
#[verifier::external_body]
pub(crate) fn graph_add_node(g: &mut AudioGraph, weight: NodeInfo) -> (r: usize)
    requires
        graph_nodes(*old(g)).len() < u32::MAX,
    ensures
        r == graph_nodes(*old(g)).len(),
        graph_nodes(*final(g)) == graph_nodes(*old(g)).push(weight),
        graph_edges(*final(g)) == graph_edges(*old(g)),
{
    g.add_node(weight).index()
}

/// `petgraph::Graph::add_edge`: appends an edge from `a` to `b` and returns
/// its index, which is the former edge count. It panics when an endpoint does
/// not exist or the edge index type (`u32`) is exhausted; `requires` rules
/// both out.
#[verifier::external_body]
pub(crate) fn graph_add_edge(g: &mut AudioGraph, a: usize, b: usize, weight: Connection) -> (r: usize)
    requires
        a < graph_nodes(*old(g)).len(),
        b < graph_nodes(*old(g)).len(),
        graph_edges(*old(g)).len() < u32::MAX,
    ensures
        r == graph_edges(*old(g)).len(),
        graph_edges(*final(g)) == graph_edges(*old(g)).push((a, b, weight)),
        graph_nodes(*final(g)) == graph_nodes(*old(g)),
{
    g.add_edge(NodeIndex::new(a), NodeIndex::new(b), weight).index()
}

/// `petgraph::Graph::node_weight`: the weight of node `a`, if it exists.
#[verifier::external_body]
pub(crate) fn graph_node_weight(g: &AudioGraph, a: usize) -> (r: Option<&NodeInfo>)
    requires
        a <= u32::MAX,
    ensures
        a < graph_nodes(*g).len() ==> r == Some(&graph_nodes(*g)[a as int]),
        a >= graph_nodes(*g).len() ==> r is None,
{
    g.node_weight(NodeIndex::new(a))
}

/// `petgraph::Graph::edge_weight`: the weight of edge `e`, if it exists.
#[verifier::external_body]
pub(crate) fn graph_edge_weight(g: &AudioGraph, e: usize) -> (r: Option<&Connection>)
    requires
        e <= u32::MAX,
    ensures
        e < graph_edges(*g).len() ==> r == Some(&graph_edges(*g)[e as int].2),
        e >= graph_edges(*g).len() ==> r is None,
{
    g.edge_weight(EdgeIndex::new(e))
}

/// `petgraph::Graph::edges_directed` with `Direction::Incoming`: the indexes
/// of the edges that end at `a`, each once.
#[verifier::external_body]
pub(crate) fn graph_incoming_edges(g: &AudioGraph, a: usize) -> (r: Vec<usize>)
    requires
        a < graph_nodes(*g).len(),
    ensures
        r@.no_duplicates(),
        forall|e: usize|
            #[trigger] r@.contains(e) <==> (e < graph_edges(*g).len() && graph_edges(*g)[e as int].1
                == a),
{
    g.edges_directed(NodeIndex::new(a), Direction::Incoming).map(|edge| edge.id().index()).collect()
}

/// `petgraph::Graph::edges_directed` with `Direction::Outgoing`: the indexes
/// of the edges that start at `a`, each once.
#[verifier::external_body]
pub(crate) fn graph_outgoing_edges(g: &AudioGraph, a: usize) -> (r: Vec<usize>)
    requires
        a < graph_nodes(*g).len(),
    ensures
        r@.no_duplicates(),
        forall|e: usize|
            #[trigger] r@.contains(e) <==> (e < graph_edges(*g).len() && graph_edges(*g)[e as int].0
                == a),
{
    g.edges_directed(NodeIndex::new(a), Direction::Outgoing).map(|edge| edge.id().index()).collect()
}

/// `petgraph::visit::Dfs` started at `start` and run to its end: every node
/// reachable from `start` (itself included), each once, in the order the
/// search discovers them. The order itself is left unstated.
#[verifier::external_body]
pub(crate) fn graph_dfs(g: &AudioGraph, start: usize) -> (r: Vec<usize>)
    requires
        start < graph_nodes(*g).len(),
    ensures
        r@.no_duplicates(),
        forall|x: usize| #[trigger] r@.contains(x) <==> reaches(graph_edges(*g), start as int, x as int),
{
    Dfs::new(g, NodeIndex::new(start)).iter(g).map(|node| node.index()).collect()
}

} // verus!
