use vstd::prelude::*;

use std::collections::{HashSet, VecDeque};

use nohash_hasher::{IntMap, IntSet};

use crate::connection::Connection;
use crate::int_map::{
    int_map_contains_key, int_map_get, int_map_insert, int_map_new, int_map_remove, int_set_contains, int_set_insert,
    int_set_new,
};
use crate::graph::{
    graph_add_edge, graph_add_node, graph_dfs, graph_edge_count, graph_edge_weight, graph_edges, graph_incoming_edges,
    graph_new, graph_node_count, graph_node_weight, graph_nodes, graph_outgoing_edges, has_edge,
    is_path, reaches, AudioGraph,
};
use crate::messages::{
    AddNodeError, ConnectError, ProcessorMessageRequest, ProcessorMessageResponse, UpdateNodeError, VisitOrderError,
};
use crate::node::{index_error, NodeInfo, NodeType, NodeUid};
use crate::paths::{acyclic, lemma_acyclic_with_edge, lemma_reaches_refl, lemma_reaches_step, with_edge};

verus! {

broadcast use vstd::std_specs::hash::group_hash_axioms;

/// The most nodes the search for a traversal order may look at.
pub const MAX_GRAPH_VISITS: u32 = 65536;

/// The edges of a graph as source, target and weight.
pub type Edges = Seq<(usize, usize, Connection)>;

/// `s` lists, in increasing order, exactly the indexes below `n` that satisfy `pred`.
pub open spec fn lists_exactly(s: Seq<usize>, n: int, pred: spec_fn(int) -> bool) -> bool {
    &&& forall|i: int, j: int| 0 <= i < j < s.len() ==> s[i] < s[j]
    &&& forall|i: int| 0 <= i < s.len() ==> s[i] < n && pred(s[i] as int)
    &&& forall|x: int| 0 <= x < n && #[trigger] pred(x) ==> s.contains(x as usize)
}

/// Extending the indexes by one node keeps an increasing listing exact.
pub proof fn lemma_lists_exactly_extend(
    s: Seq<usize>,
    n: int,
    pred: spec_fn(int) -> bool,
    new_pred: spec_fn(int) -> bool,
)
    requires
        0 <= n <= usize::MAX,
        lists_exactly(s, n, pred),
        forall|x: int| 0 <= x < n ==> #[trigger] pred(x) == new_pred(x),
    ensures
        lists_exactly(if new_pred(n) { s.push(n as usize) } else { s }, n + 1, new_pred),
{
    let t = if new_pred(n) { s.push(n as usize) } else { s };
    assert forall|i: int| 0 <= i < t.len() implies t[i] < n + 1 && new_pred(t[i] as int) by {
        if i < s.len() {
            assert(t[i] == s[i]);
            assert(pred(s[i] as int));
        }
    }
    assert forall|i: int, j: int| 0 <= i < j < t.len() implies t[i] < t[j] by {
        if j < s.len() {
            assert(t[i] == s[i] && t[j] == s[j]);
        } else {
            assert(t[i] == s[i]);
        }
    }
    assert forall|x: int| 0 <= x < n + 1 && #[trigger] new_pred(x) implies t.contains(x as usize) by {
        if x < n {
            assert(pred(x));
            let k = choose|k: int| 0 <= k < s.len() && s[k] == x as usize;
            assert(t[k] == x as usize);
        } else {
            assert(t[t.len() - 1] == x as usize);
        }
    }
}

/// A connection whose endpoints exist and agree on indexes and channel counts.
pub open spec fn edge_fits(nodes: Seq<NodeInfo>, edge: (usize, usize, Connection)) -> bool {
    let (a, b, c) = edge;
    &&& a < nodes.len()
    &&& b < nodes.len()
    &&& a != b
    &&& c.from_index < nodes[a as int].num_output_connections
    &&& c.to_index < nodes[b as int].num_input_connections
    &&& c.num_channels == nodes[a as int].num_outgoing_channels
    &&& nodes[a as int].num_outgoing_channels == nodes[b as int].num_incoming_channels
}

/// The indexes, in increasing order, of the edges that end at (`incoming`)
/// or start from node `n`.
pub open spec fn edge_list_of(edges: Edges, n: int, incoming: bool) -> spec_fn(int) -> bool {
    |e: int| if incoming { edges[e].1 == n } else { edges[e].0 == n }
}

/// `m` holds, for each node that has such edges, the increasing list of the
/// edges that end at it (`incoming`) or start from it.
pub open spec fn connection_index_map(
    m: Map<u32, Vec<usize>>,
    edges: Edges,
    incoming: bool,
) -> bool {
    &&& forall|u: u32|
        #![trigger m.contains_key(u)]
        m.contains_key(u) <==> exists|e: int|
            0 <= e < edges.len() && (if incoming {
                edges[e].1 == u
            } else {
                edges[e].0 == u
            })
    &&& forall|u: u32|
        #![trigger m[u]]
        m.contains_key(u) ==> lists_exactly(
            m[u]@,
            edges.len() as int,
            edge_list_of(edges, u as int, incoming),
        )
}

/// A node is reachable from one of the graph's input nodes.
pub open spec fn reachable_from_inputs(edges: Edges, inputs: Seq<usize>, x: int) -> bool {
    exists|i: int| 0 <= i < inputs.len() && reaches(edges, inputs[i] as int, x)
}

/// `order` visits every node reachable from an input exactly once, and each
/// node only after every node that has a connection into it.
pub open spec fn is_visit_order(edges: Edges, inputs: Seq<usize>, order: Seq<usize>) -> bool {
    &&& order.no_duplicates()
    &&& forall|x: usize|
        #![trigger reachable_from_inputs(edges, inputs, x as int)]
        #![trigger order.contains(x)]
        reachable_from_inputs(edges, inputs, x as int) <==> order.contains(x)
    &&& parents_first(edges, order)
}

/// Each node in `order` comes after the source of every edge into it.
pub open spec fn parents_first(edges: Edges, order: Seq<usize>) -> bool {
    forall|i: int, e: int|
        0 <= i < order.len() && 0 <= e < edges.len() && #[trigger] edges[e].1 == #[trigger] order[i]
            ==> exists|j: int| 0 <= j < i && order[j] == edges[e].0
}

/// Appending an edge and the edge's index to the list of its endpoint keeps
/// a connection-index map exact.
pub proof fn lemma_index_map_with_edge(
    m: Map<u32, Vec<usize>>,
    edges: Edges,
    p: usize,
    c: usize,
    w: Connection,
    incoming: bool,
    v: Vec<usize>,
)
    requires
        connection_index_map(m, edges, incoming),
        edges.len() < usize::MAX,
        p <= u32::MAX,
        c <= u32::MAX,
        v@ == (if m.contains_key((if incoming { c } else { p }) as u32) {
            m[(if incoming { c } else { p }) as u32]@
        } else {
            Seq::<usize>::empty()
        }).push(edges.len() as usize),
    ensures
        connection_index_map(
            m.insert((if incoming { c } else { p }) as u32, v),
            with_edge(edges, p, c, w),
            incoming,
        ),
{
    let u = (if incoming { c } else { p }) as u32;
    let e2 = with_edge(edges, p, c, w);
    let m2 = m.insert(u, v);
    let n = edges.len() as int;
    assert forall|k: u32| #![trigger m2.contains_key(k)]
        m2.contains_key(k) <==> exists|e: int|
            0 <= e < e2.len() && (if incoming { e2[e].1 == k } else { e2[e].0 == k }) by {
        if k == u {
            assert(e2[n] == (p, c, w));
        } else {
            if m.contains_key(k) {
                let e = choose|e: int|
                    0 <= e < edges.len() && (if incoming { edges[e].1 == k } else { edges[e].0 == k });
                assert(e2[e] == edges[e]);
            }
            if exists|e: int| 0 <= e < e2.len() && (if incoming { e2[e].1 == k } else { e2[e].0 == k }) {
                let e = choose|e: int|
                    0 <= e < e2.len() && (if incoming { e2[e].1 == k } else { e2[e].0 == k });
                if e < n {
                    assert(e2[e] == edges[e]);
                }
            }
        }
    }
    assert forall|k: u32| #![trigger m2[k]]
        m2.contains_key(k) implies lists_exactly(m2[k]@, e2.len() as int, edge_list_of(e2, k as int, incoming)) by {
        let old_pred = edge_list_of(edges, k as int, incoming);
        let new_pred = edge_list_of(e2, k as int, incoming);
        assert forall|x: int| 0 <= x < n implies #[trigger] old_pred(x) == new_pred(x) by {
            assert(e2[x] == edges[x]);
        }
        if k == u {
            let s = if m.contains_key(u) { m[u]@ } else { Seq::<usize>::empty() };
            if !m.contains_key(u) {
                assert forall|x: int| 0 <= x < n && #[trigger] old_pred(x) implies s.contains(x as usize) by {
                    assert(0 <= x < edges.len() && (if incoming { edges[x].1 == u } else { edges[x].0 == u }));
                }
            }
            assert(lists_exactly(s, n, old_pred));
            assert(new_pred(n));
            lemma_lists_exactly_extend(s, n, old_pred, new_pred);
        } else {
            assert(m.contains_key(k));
            assert(!new_pred(n));
            lemma_lists_exactly_extend(m[k]@, n, old_pred, new_pred);
        }
    }
}

/// The error with which connecting `parent_uid` to `child_uid` is refused,
/// or `None` when the connection is made.
pub open spec fn connect_refusal(
    nodes: Seq<NodeInfo>,
    edges: Edges,
    parent_uid: u32,
    child_uid: u32,
    from_index: usize,
    to_index: usize,
) -> Option<ConnectError> {
    if parent_uid >= nodes.len() {
        Some(ConnectError::NodeUidNotFound { node_uid: parent_uid })
    } else if child_uid >= nodes.len() {
        Some(ConnectError::NodeUidNotFound { node_uid: child_uid })
    } else {
        let parent = nodes[parent_uid as int];
        let child = nodes[child_uid as int];
        if from_index >= parent.num_output_connections || to_index >= child.num_input_connections {
            Some(index_error(parent, child, from_index, to_index))
        } else if parent.num_outgoing_channels != child.num_incoming_channels {
            Some(
                ConnectError::IncompatibleNumChannels {
                    parent_node_num_outgoing_channels: parent.num_outgoing_channels,
                    child_node_num_incoming_channels: child.num_incoming_channels,
                    parent_node_name: parent.name,
                    child_node_name: child.name,
                },
            )
        } else if parent_uid == child_uid || reaches(edges, child_uid as int, parent_uid as int) {
            Some(
                ConnectError::GraphCycleFound {
                    parent_node_name: parent.name,
                    child_node_name: child.name,
                },
            )
        } else {
            None
        }
    }
}

/// The connection that joins `parent_uid` to `child_uid`.
pub open spec fn new_connection(
    nodes: Seq<NodeInfo>,
    parent_uid: u32,
    child_uid: u32,
    from_index: usize,
    to_index: usize,
) -> (usize, usize, Connection) {
    (
        parent_uid as usize,
        child_uid as usize,
        Connection {
            from_index,
            to_index,
            num_channels: nodes[parent_uid as int].num_outgoing_channels,
            uid: 0,
        },
    )
}

/// The edges stay between the `n` nodes, and the inputs are among them.
pub open spec fn valid_visit_input(edges: Edges, inputs: Seq<usize>, n: nat) -> bool {
    &&& forall|e: int|
        0 <= e < edges.len() ==> #[trigger] edges[e].0 < n && edges[e].1 < n
    &&& forall|i: int| 0 <= i < inputs.len() ==> #[trigger] inputs[i] < n
    &&& n <= usize::MAX
    &&& edges.len() <= usize::MAX
}

/// A node reachable from an input is one of the `n` nodes.
pub proof fn lemma_reachable_in_bounds(edges: Edges, inputs: Seq<usize>, n: nat, x: int)
    requires
        valid_visit_input(edges, inputs, n),
        reachable_from_inputs(edges, inputs, x),
    ensures
        0 <= x < n,
{
    let i = choose|i: int| 0 <= i < inputs.len() && reaches(edges, inputs[i] as int, x);
    let a = inputs[i] as int;
    let p = choose|p: Seq<int>| #[trigger] is_path(edges, p) && p[0] == a && p.last() == x;
    if p.len() > 1 {
        let k = p.len() - 2;
        assert(has_edge(edges, p[k], p[k + 1]));
        let e = choose|e: int| 0 <= e < edges.len() && #[trigger] edges[e].0 == p[k] && edges[e].1 == p[k + 1];
    }
}

/// `0 + 1 + ... + n`.
pub open spec fn tri(n: nat) -> nat
    decreases n,
{
    if n == 0 {
        0
    } else {
        n + tri((n - 1) as nat)
    }
}

/// `tri` grows with its argument.
pub proof fn lemma_tri_mono(a: nat, b: nat)
    requires
        a <= b,
    ensures
        tri(a) <= tri(b),
    decreases b,
{
    if a < b {
        lemma_tri_mono(a, (b - 1) as nat);
    }
}

/// Every connection into a node reachable from an input comes from a node
/// reachable from an input.
pub open spec fn parents_reachable(edges: Edges, inputs: Seq<usize>) -> bool {
    forall|e: int|
        0 <= e < edges.len() && #[trigger] reachable_from_inputs(edges, inputs, edges[e].1 as int)
            ==> reachable_from_inputs(edges, inputs, edges[e].0 as int)
}

/// Every connection into `w` comes from a node already in `order`.
pub open spec fn ready(edges: Edges, order: Seq<usize>, w: int) -> bool {
    forall|e: int| 0 <= e < edges.len() && edges[e].1 == w ==> #[trigger] order.contains(edges[e].0)
}

/// Some node of `queue`, at a position `p`, is ready, and the visits made so
/// far plus the pops until that node plus the pops a queue one shorter can
/// still take stay within `tri(n)`.
pub open spec fn on_schedule(edges: Edges, order: Seq<usize>, queue: Seq<usize>, visits: int, n: nat) -> bool {
    queue.len() == 0 || exists|p: int|
        0 <= p < queue.len() && #[trigger] ready(edges, order, queue[p] as int) && visits + p + 1 + tri(
            (queue.len() - 1) as nat,
        ) <= tri(n)
}

/// A sequence of distinct indexes below `n` holds at most `n` of them.
pub proof fn lemma_distinct_below_len(s: Seq<usize>, n: nat)
    requires
        s.no_duplicates(),
        forall|i: int| 0 <= i < s.len() ==> s[i] < n,
    ensures
        s.len() <= n,
{
    let t = s.map_values(|x: usize| x as int);
    assert(t.no_duplicates()) by {
        assert forall|i: int, j: int| 0 <= i < t.len() && 0 <= j < t.len() && i != j implies t[i] != t[j] by {
            assert(s[i] != s[j]);
        }
    }
    t.unique_seq_to_set();
    vstd::set_lib::lemma_int_range(0, n as int);
    assert(t.to_set().subset_of(vstd::set_lib::set_int_range(0, n as int))) by {
        assert forall|x: int| t.to_set().contains(x) implies vstd::set_lib::set_int_range(0, n as int).contains(x) by {
            let i = choose|i: int| 0 <= i < t.len() && t[i] == x;
            assert(s[i] < n);
        }
    }
    vstd::set_lib::lemma_len_subset(t.to_set(), vstd::set_lib::set_int_range(0, n as int));
}

/// While nodes still wait in the queue of the search for a visit order, one
/// of them is ready, provided the graph has no cycle and the parents of
/// reachable nodes are reachable.
pub proof fn lemma_ready_node_in_queue(edges: Edges, inputs: Seq<usize>, n: nat, queue: Seq<usize>, order: Seq<usize>)
    requires
        valid_visit_input(edges, inputs, n),
        acyclic(edges),
        parents_reachable(edges, inputs),
        queue.len() > 0,
        forall|x: usize|
            #![trigger queue.contains(x)]
            #![trigger order.contains(x)]
            reachable_from_inputs(edges, inputs, x as int) <==> (queue.contains(x) || order.contains(x)),
    ensures
        exists|p: int| 0 <= p < queue.len() && #[trigger] ready(edges, order, queue[p] as int),
{
    let q = Set::new(|x: int| 0 <= x < n && queue.contains(x as usize));
    vstd::set_lib::lemma_int_range(0, n as int);
    assert(q.subset_of(vstd::set_lib::set_int_range(0, n as int)));
    vstd::set_lib::lemma_len_subset(q, vstd::set_lib::set_int_range(0, n as int));
    let x0 = queue[0];
    assert(queue.contains(x0));
    assert(reachable_from_inputs(edges, inputs, x0 as int));
    lemma_reachable_in_bounds(edges, inputs, n, x0 as int);
    assert(q.contains(x0 as int));
    crate::paths::lemma_source_in_set(edges, q, x0 as int);
    let w = choose|w: int|
        #![trigger q.contains(w)]
        q.contains(w) && reaches(edges, w, x0 as int) && forall|u: int| q.contains(u) ==> !has_edge(edges, u, w);
    let wu = w as usize;
    assert(queue.contains(wu));
    let p = choose|p: int| 0 <= p < queue.len() && queue[p] == wu;
    assert forall|e: int| 0 <= e < edges.len() && edges[e].1 == w implies #[trigger] order.contains(edges[e].0) by {
        assert(reachable_from_inputs(edges, inputs, edges[e].1 as int));
        assert(reachable_from_inputs(edges, inputs, edges[e].0 as int));
        let s = edges[e].0;
        if queue.contains(s) {
            assert(edges[e].0 < n);
            assert(q.contains(s as int));
            assert(has_edge(edges, s as int, w));
        }
    }
    assert(ready(edges, order, queue[p] as int));
}

/// `lvl` puts the nodes reachable from an input on levels `0` to `d`: every
/// connection into a reachable node comes from a reachable node on a lower
/// level. (Such levels exist exactly when no cycle is reachable and the
/// parents of reachable nodes are reachable; `d` can be the length of the
/// longest path among them.)
pub open spec fn layered(edges: Edges, inputs: Seq<usize>, lvl: spec_fn(int) -> nat, d: nat) -> bool {
    &&& forall|x: int| #[trigger] reachable_from_inputs(edges, inputs, x) ==> lvl(x) <= d
    &&& forall|e: int|
        0 <= e < edges.len() && #[trigger] reachable_from_inputs(edges, inputs, edges[e].1 as int)
            ==> reachable_from_inputs(edges, inputs, edges[e].0 as int) && lvl(edges[e].0 as int) < lvl(
            edges[e].1 as int,
        )
}

/// The search for a visit order, seen in rounds: all nodes below the current
/// `level` are placed; the waiting nodes on the level are among the `left`
/// pops still due in the round; and the visits so far, the pops left in the
/// round and one full round per remaining level stay within `n * (d + 1)`.
pub open spec fn in_rounds(
    edges: Edges,
    inputs: Seq<usize>,
    lvl: spec_fn(int) -> nat,
    d: nat,
    n: nat,
    level: nat,
    left: nat,
    queue: Seq<usize>,
    order: Seq<usize>,
    visits: int,
) -> bool {
    &&& level <= d
    &&& left <= queue.len()
    &&& forall|x: usize|
        #[trigger] reachable_from_inputs(edges, inputs, x as int) && lvl(x as int) < level ==> order.contains(x)
    &&& forall|p: int| 0 <= p < queue.len() && lvl(#[trigger] queue[p] as int) == level ==> p < left
    &&& visits + left + (d - level) * n <= n * (d + 1)
}

/// An order in which to visit the nodes of `graph`: every node reachable
/// from one of `input_node_indexes`, each once, and each only after all the
/// nodes that have a connection into it.
///
/// The search moves a node that is not ready yet to the back of its queue;
/// when it has looked at nodes `MAX_GRAPH_VISITS` times without finishing,
/// it gives up with `TooManyGraphVisits`. It cannot finish when a reachable
/// node has a parent that is not reachable, or when reachable nodes form a
/// cycle. It always finishes on a graph without cycles whose reachable nodes
/// have reachable parents, once `tri` of the node count is within the limit:
/// each pass over the queue then places at least one node. It also always
/// finishes when the reachable nodes lie on levels `0` to `d` (see
/// `layered`) and the node count times `d + 1` is within the limit: each
/// pass then places every waiting node of the next level.
pub(crate) fn compute_visit_order(graph: &AudioGraph, input_node_indexes: &Vec<usize>) -> (r: Result<
    Vec<usize>,
    VisitOrderError,
>)
    requires
        valid_visit_input(graph_edges(*graph), input_node_indexes@, graph_nodes(*graph).len()),
    ensures
        r matches Ok(order) ==> is_visit_order(graph_edges(*graph), input_node_indexes@, order@),
        input_node_indexes@.len() == 0 ==> (r matches Ok(order) && order@.len() == 0),
        acyclic(graph_edges(*graph)) && parents_reachable(graph_edges(*graph), input_node_indexes@) && tri(
            graph_nodes(*graph).len(),
        ) <= MAX_GRAPH_VISITS ==> r is Ok,
        (exists|lvl: spec_fn(int) -> nat, d: nat|
            #[trigger] layered(graph_edges(*graph), input_node_indexes@, lvl, d) && graph_nodes(*graph).len() * (
            d + 1) <= MAX_GRAPH_VISITS) ==> r is Ok,
{
    broadcast use vstd::seq_lib::group_seq_properties;

    let ghost edges = graph_edges(*graph);
    let ghost inputs = input_node_indexes@;
    let ghost n = graph_nodes(*graph).len();
    if input_node_indexes.len() == 0 {
        proof {
            assert forall|x: usize|
                #![trigger reachable_from_inputs(edges, inputs, x as int)]
                !reachable_from_inputs(edges, inputs, x as int) by {}
        }
        return Ok(Vec::new());
    }
    // nodes waiting for a place in the order, starting with the inputs
    let mut in_progress_visit_order: VecDeque<usize> = VecDeque::new();
    // the order that `run` will use
    let mut final_visit_order: Vec<usize> = Vec::new();
    // connections whose source node already has its place in the order
    let mut connection_visit_set: IntSet<usize> = int_set_new();
    let mut graph_visits: u32 = 0;
    {
        // nodes already placed in the queue
        let mut node_set: HashSet<usize> = HashSet::new();
        let mut k: usize = 0;
        while k < input_node_indexes.len()
            invariant
                edges == graph_edges(*graph),
                n == graph_nodes(*graph).len(),
                inputs == input_node_indexes@,
                valid_visit_input(edges, inputs, n),
                0 <= k <= inputs.len(),
                in_progress_visit_order@.no_duplicates(),
                forall|x: usize|
                    #![trigger node_set@.contains(x)]
                    #![trigger in_progress_visit_order@.contains(x)]
                    node_set@.contains(x) <==> in_progress_visit_order@.contains(x),
                forall|x: usize|
                    #![trigger in_progress_visit_order@.contains(x)]
                    in_progress_visit_order@.contains(x) <==> exists|i: int|
                        0 <= i < k && #[trigger] reaches(edges, inputs[i] as int, x as int),
            decreases inputs.len() - k,
        {
            let input_index = input_node_indexes[k];
            let ghost queue_before = in_progress_visit_order@;
            proof {
                crate::paths::lemma_reaches_refl(edges, input_index as int);
            }
            if !node_set.contains(&input_index) {
                in_progress_visit_order.push_back(input_index);
                node_set.insert(input_index);
                proof {
                    assert(in_progress_visit_order@ == queue_before.push(input_index));
                    assert(in_progress_visit_order@.no_duplicates()) by {
                        assert(!queue_before.contains(input_index));
                    }
                    assert forall|x: usize|
                        #![trigger in_progress_visit_order@.contains(x)]
                        in_progress_visit_order@.contains(x) <==> (queue_before.contains(x) || x
                            == input_index) by {
                        vstd::seq_lib::lemma_seq_contains_after_push(queue_before, input_index, x);
                    }
                }
            } else {
                assert(queue_before.contains(input_index));
            }
            let visited = graph_dfs(graph, input_index);
            let mut j: usize = 0;
            while j < visited.len()
                invariant
                    edges == graph_edges(*graph),
                    n == graph_nodes(*graph).len(),
                    inputs == input_node_indexes@,
                    valid_visit_input(edges, inputs, n),
                    0 <= k < inputs.len(),
                    input_index == inputs[k as int],
                    0 <= j <= visited.len(),
                    forall|x: usize|
                        visited@.contains(x) <==> reaches(edges, input_index as int, x as int),
                    in_progress_visit_order@.no_duplicates(),
                    forall|x: usize|
                        #![trigger node_set@.contains(x)]
                        #![trigger in_progress_visit_order@.contains(x)]
                        node_set@.contains(x) <==> in_progress_visit_order@.contains(x),
                    forall|x: usize|
                        #![trigger in_progress_visit_order@.contains(x)]
                        in_progress_visit_order@.contains(x) <==> (queue_before.contains(x) || x
                            == input_index || visited@.take(j as int).contains(x)),
                decreases visited.len() - j,
            {
                let node_index = visited[j];
                let ghost queue_mid = in_progress_visit_order@;
                if !node_set.contains(&node_index) {
                    in_progress_visit_order.push_back(node_index);
                    node_set.insert(node_index);
                    proof {
                        assert(in_progress_visit_order@ == queue_mid.push(node_index));
                        assert(in_progress_visit_order@.no_duplicates()) by {
                            assert(!queue_mid.contains(node_index));
                        }
                        assert forall|x: usize|
                            #![trigger in_progress_visit_order@.contains(x)]
                            in_progress_visit_order@.contains(x) <==> (queue_mid.contains(x) || x
                                == node_index) by {
                            vstd::seq_lib::lemma_seq_contains_after_push(queue_mid, node_index, x);
                        }
                    }
                } else {
                    assert(queue_mid.contains(node_index));
                }
                proof {
                    assert(visited@.take(j + 1) =~= visited@.take(j as int).push(node_index));
                    assert forall|x: usize|
                        visited@.take(j + 1).contains(x) <==> (visited@.take(j as int).contains(x) || x == node_index) by {
                        vstd::seq_lib::lemma_seq_contains_after_push(visited@.take(j as int), node_index, x);
                    }
                }
                j = j + 1;
            }
            proof {
                assert(visited@.take(j as int) =~= visited@);
                assert forall|x: usize|
                    #![trigger in_progress_visit_order@.contains(x)]
                    in_progress_visit_order@.contains(x) <==> exists|i: int|
                        0 <= i < k + 1 && #[trigger] reaches(edges, inputs[i] as int, x as int) by {
                    if in_progress_visit_order@.contains(x) {
                        if queue_before.contains(x) {
                            let i = choose|i: int|
                                0 <= i < k && #[trigger] reaches(edges, inputs[i] as int, x as int);
                        } else {
                            assert(reaches(edges, inputs[k as int] as int, x as int));
                        }
                    }
                    if exists|i: int| 0 <= i < k + 1 && #[trigger] reaches(edges, inputs[i] as int, x as int) {
                        let i = choose|i: int|
                            0 <= i < k + 1 && #[trigger] reaches(edges, inputs[i] as int, x as int);
                        if i == k {
                            assert(visited@.contains(x));
                        } else {
                            assert(queue_before.contains(x));
                        }
                    }
                }
            }
            k = k + 1;
        }
    }
    let ghost good = acyclic(edges) && parents_reachable(edges, inputs) && tri(n) <= MAX_GRAPH_VISITS;
    proof {
        if good {
            let queue = in_progress_visit_order@;
            let x0 = inputs[0];
            crate::paths::lemma_reaches_refl(edges, x0 as int);
            assert(reachable_from_inputs(edges, inputs, x0 as int));
            assert(queue.contains(x0));
            assert forall|x: usize|
                #![trigger queue.contains(x)]
                #![trigger final_visit_order@.contains(x)]
                reachable_from_inputs(edges, inputs, x as int) <==> (queue.contains(x)
                    || final_visit_order@.contains(x)) by {
                if reachable_from_inputs(edges, inputs, x as int) {
                    let i = choose|i: int| 0 <= i < inputs.len() && reaches(edges, inputs[i] as int, x as int);
                    assert(reaches(edges, inputs[i] as int, x as int));
                }
                if queue.contains(x) {
                    let i = choose|i: int| 0 <= i < inputs.len() && #[trigger] reaches(edges, inputs[i] as int, x as int);
                }
            }
            lemma_ready_node_in_queue(edges, inputs, n, queue, final_visit_order@);
            assert forall|i: int| 0 <= i < queue.len() implies queue[i] < n by {
                assert(queue.contains(queue[i]));
                assert(reachable_from_inputs(edges, inputs, queue[i] as int));
                lemma_reachable_in_bounds(edges, inputs, n, queue[i] as int);
            }
            lemma_distinct_below_len(queue, n);
            lemma_tri_mono(queue.len(), n);
            assert(tri(queue.len()) == queue.len() + tri((queue.len() - 1) as nat));
            let p = choose|p: int| 0 <= p < queue.len() && #[trigger] ready(edges, final_visit_order@, queue[p] as int);
            assert(on_schedule(edges, final_visit_order@, queue, graph_visits as int, n));
        }
    }
    let ghost good2 = exists|lvl: spec_fn(int) -> nat, d: nat|
        #[trigger] layered(edges, inputs, lvl, d) && n * (d + 1) <= MAX_GRAPH_VISITS;
    let ghost (lvl, d): (spec_fn(int) -> nat, nat) = choose|lvl: spec_fn(int) -> nat, d: nat|
        #[trigger] layered(edges, inputs, lvl, d) && n * (d + 1) <= MAX_GRAPH_VISITS;
    let ghost mut level: nat = 0;
    let ghost mut left: nat = in_progress_visit_order@.len();
    proof {
        if good2 {
            let queue = in_progress_visit_order@;
            assert forall|i: int| 0 <= i < queue.len() implies queue[i] < n by {
                assert(queue.contains(queue[i]));
                assert(reachable_from_inputs(edges, inputs, queue[i] as int)) by {
                    let x = queue[i];
                    let k = choose|k: int| 0 <= k < inputs.len() && #[trigger] reaches(edges, inputs[k] as int, x as int);
                }
                lemma_reachable_in_bounds(edges, inputs, n, queue[i] as int);
            }
            lemma_distinct_below_len(queue, n);
            assert(0 + left + (d - 0) * n <= n * (d + 1)) by (nonlinear_arith)
                requires
                    left <= n,
            ;
            assert(in_rounds(edges, inputs, lvl, d, n, level, left, queue, final_visit_order@, 0));
        }
    }
    loop
        invariant
            edges == graph_edges(*graph),
            n == graph_nodes(*graph).len(),
            inputs == input_node_indexes@,
            valid_visit_input(edges, inputs, n),
            inputs.len() > 0,
            good2 == (exists|lvl: spec_fn(int) -> nat, d: nat|
                #[trigger] layered(edges, inputs, lvl, d) && n * (d + 1) <= MAX_GRAPH_VISITS),
            good2 ==> layered(edges, inputs, lvl, d) && n * (d + 1) <= MAX_GRAPH_VISITS,
            good2 ==> in_rounds(
                edges,
                inputs,
                lvl,
                d,
                n,
                level,
                left,
                in_progress_visit_order@,
                final_visit_order@,
                graph_visits as int,
            ),
            good == (acyclic(edges) && parents_reachable(edges, inputs) && tri(n) <= MAX_GRAPH_VISITS),
            good ==> on_schedule(edges, final_visit_order@, in_progress_visit_order@, graph_visits as int, n),
            graph_visits <= MAX_GRAPH_VISITS,
            in_progress_visit_order@.no_duplicates(),
            final_visit_order@.no_duplicates(),
            forall|x: usize|
                #![trigger in_progress_visit_order@.contains(x)]
                #![trigger final_visit_order@.contains(x)]
                !(in_progress_visit_order@.contains(x) && final_visit_order@.contains(x)),
            forall|x: usize|
                #![trigger in_progress_visit_order@.contains(x)]
                #![trigger final_visit_order@.contains(x)]
                reachable_from_inputs(edges, inputs, x as int) <==> (
                in_progress_visit_order@.contains(x) || final_visit_order@.contains(x)),
            forall|e: usize|
                #![trigger connection_visit_set@.contains(e)]
                connection_visit_set@.contains(e) <==> (e < edges.len()
                    && final_visit_order@.contains(edges[e as int].0)),
            parents_first(edges, final_visit_order@),
        ensures
            final_visit_order@.no_duplicates(),
            forall|x: usize|
                #![trigger final_visit_order@.contains(x)]
                #![trigger reachable_from_inputs(edges, inputs, x as int)]
                reachable_from_inputs(edges, inputs, x as int) <==> final_visit_order@.contains(x),
            parents_first(edges, final_visit_order@),
        decreases MAX_GRAPH_VISITS - graph_visits,
    {
        proof {
            if good2 && left == 0 && in_progress_visit_order@.len() > 0 {
                let queue = in_progress_visit_order@;
                let order = final_visit_order@;
                assert forall|x: usize|
                    #[trigger] reachable_from_inputs(edges, inputs, x as int) && lvl(x as int) < level + 1
                        implies order.contains(x) by {
                    if lvl(x as int) == level && queue.contains(x) {
                        let p = choose|p: int| 0 <= p < queue.len() && queue[p] == x;
                        assert(lvl(queue[p] as int) == level);
                    }
                }
                let x0 = queue[0];
                assert(queue.contains(x0));
                assert(reachable_from_inputs(edges, inputs, x0 as int));
                assert(!order.contains(x0));
                assert(level + 1 <= d);
                assert forall|i: int| 0 <= i < queue.len() implies queue[i] < n by {
                    assert(queue.contains(queue[i]));
                    assert(reachable_from_inputs(edges, inputs, queue[i] as int));
                    lemma_reachable_in_bounds(edges, inputs, n, queue[i] as int);
                }
                lemma_distinct_below_len(queue, n);
                let visits = graph_visits as int;
                let q = queue.len();
                assert(visits + q + (d - (level + 1)) * n <= n * (d + 1)) by (nonlinear_arith)
                    requires
                        visits + 0 + (d - level) * n <= n * (d + 1),
                        q <= n,
                        level + 1 <= d,
                ;
                level = level + 1;
                left = q;
            }
        }
        let ghost queue_before = in_progress_visit_order@;
        let next = in_progress_visit_order.pop_front();
        let node_index = match next {
            None => {
                break;
            },
            Some(node_index) => node_index,
        };
        let ghost queue = in_progress_visit_order@;
        proof {
            assert(queue_before[0] == node_index);
            assert(queue_before.contains(node_index));
            assert forall|x: usize|
                #![trigger queue.contains(x)]
                queue_before.contains(x) <==> (queue.contains(x) || x == node_index) by {
                if queue_before.contains(x) && x != node_index {
                    let k = choose|k: int| 0 <= k < queue_before.len() && queue_before[k] == x;
                    assert(queue[k - 1] == x);
                }
                if queue.contains(x) {
                    let k = choose|k: int| 0 <= k < queue.len() && queue[k] == x;
                    assert(queue_before[k + 1] == x);
                }
            }
            assert(!queue.contains(node_index)) by {
                if queue.contains(node_index) {
                    let k = choose|k: int| 0 <= k < queue.len() && queue[k] == node_index;
                    assert(queue_before[k + 1] == queue_before[0]);
                }
            }
        }
        let ghost visits_before = graph_visits;
        graph_visits = graph_visits + 1;
        if graph_visits > MAX_GRAPH_VISITS {
            proof {
                if good2 {
                    assert(left >= 1);
                    assert((d - level) * n >= 0) by (nonlinear_arith)
                        requires
                            level <= d,
                    ;
                }
                if good {
                    let p = choose|p: int|
                        0 <= p < queue_before.len() && #[trigger] ready(edges, final_visit_order@, queue_before[p] as int)
                            && visits_before + p + 1 + tri((queue_before.len() - 1) as nat) <= tri(n);
                }
            }
            return Err(VisitOrderError::TooManyGraphVisits);
        }
        proof {
            assert(reachable_from_inputs(edges, inputs, node_index as int));
            lemma_reachable_in_bounds(edges, inputs, n, node_index as int);
        }
        let incoming_connections = graph_incoming_edges(graph, node_index);
        // skip for now if some input has not been visited
        let mut all_inputs_visited = true;
        let mut i: usize = 0;
        while i < incoming_connections.len()
            invariant
                0 <= i <= incoming_connections.len(),
                all_inputs_visited <==> forall|j: int|
                    0 <= j < i ==> connection_visit_set@.contains(
                        #[trigger] incoming_connections@[j],
                    ),
            decreases incoming_connections.len() - i,
        {
            if !int_set_contains(&connection_visit_set, incoming_connections[i]) {
                all_inputs_visited = false;
            }
            i = i + 1;
        }
        if !all_inputs_visited {
            in_progress_visit_order.push_back(node_index);
            proof {
                assert(in_progress_visit_order@ == queue.push(node_index));
                assert forall|x: usize|
                    #![trigger in_progress_visit_order@.contains(x)]
                    in_progress_visit_order@.contains(x) <==> queue_before.contains(x) by {
                    vstd::seq_lib::lemma_seq_contains_after_push(queue, node_index, x);
                }
                assert(in_progress_visit_order@.no_duplicates());
                if good {
                    let order = final_visit_order@;
                    let p = choose|p: int|
                        0 <= p < queue_before.len() && #[trigger] ready(edges, order, queue_before[p] as int)
                            && visits_before + p + 1 + tri((queue_before.len() - 1) as nat) <= tri(n);
                    if p == 0 {
                        let j = choose|j: int|
                            0 <= j < incoming_connections.len() && !connection_visit_set@.contains(
                                #[trigger] incoming_connections@[j],
                            );
                        let e = incoming_connections@[j];
                        assert(incoming_connections@.contains(e));
                        assert(edges[e as int].1 == node_index);
                        assert(!order.contains(edges[e as int].0));
                        assert(false);
                    }
                    let new_queue = in_progress_visit_order@;
                    assert(new_queue[p - 1] == queue_before[p]);
                    assert(ready(edges, order, new_queue[p - 1] as int));
                    assert(on_schedule(edges, order, new_queue, graph_visits as int, n));
                }
                if good2 {
                    let order = final_visit_order@;
                    if lvl(node_index as int) == level {
                        let j = choose|j: int|
                            0 <= j < incoming_connections.len() && !connection_visit_set@.contains(
                                #[trigger] incoming_connections@[j],
                            );
                        let e = incoming_connections@[j];
                        assert(incoming_connections@.contains(e));
                        assert(edges[e as int].1 == node_index);
                        assert(reachable_from_inputs(edges, inputs, edges[e as int].1 as int));
                        assert(reachable_from_inputs(edges, inputs, edges[e as int].0 as int));
                        assert(order.contains(edges[e as int].0));
                        assert(false);
                    }
                    let new_queue = in_progress_visit_order@;
                    assert forall|p: int|
                        0 <= p < new_queue.len() && lvl(#[trigger] new_queue[p] as int) == level implies p < left
                        - 1 by {
                        if p < queue.len() {
                            assert(new_queue[p] == queue_before[p + 1]);
                        }
                    }
                    left = (left - 1) as nat;
                    assert(in_rounds(edges, inputs, lvl, d, n, level, left, new_queue, order, graph_visits as int));
                }
            }
            continue;
        }
        let ghost old_order = final_visit_order@;
        final_visit_order.push(node_index);
        let outgoing_connections = graph_outgoing_edges(graph, node_index);
        let mut o: usize = 0;
        while o < outgoing_connections.len()
            invariant
                0 <= o <= outgoing_connections.len(),
                forall|e: usize|
                    #![trigger connection_visit_set@.contains(e)]
                    connection_visit_set@.contains(e) <==> ((e < edges.len() && old_order.contains(
                        edges[e as int].0,
                    )) || outgoing_connections@.take(o as int).contains(e)),
            decreases outgoing_connections.len() - o,
        {
            let ghost set_before = connection_visit_set@;
            int_set_insert(&mut connection_visit_set, outgoing_connections[o]);
            proof {
                assert(connection_visit_set@ == set_before.insert(outgoing_connections@[o as int]));
                let t = outgoing_connections@.take(o as int);
                assert(outgoing_connections@.take(o + 1) =~= t.push(outgoing_connections@[o as int]));
                assert forall|e: usize|
                    #![trigger connection_visit_set@.contains(e)]
                    connection_visit_set@.contains(e) <==> ((e < edges.len() && old_order.contains(
                        edges[e as int].0,
                    )) || outgoing_connections@.take(o + 1).contains(e)) by {
                    vstd::seq_lib::lemma_seq_contains_after_push(t, outgoing_connections@[o as int], e);
                }
            }
            o = o + 1;
        }
        proof {
            let order = final_visit_order@;
            assert(order == old_order.push(node_index));
            assert(outgoing_connections@.take(o as int) =~= outgoing_connections@);
            assert forall|e: usize|
                #![trigger connection_visit_set@.contains(e)]
                connection_visit_set@.contains(e) <==> (e < edges.len() && order.contains(
                    edges[e as int].0,
                )) by {
                if e < edges.len() && edges[e as int].0 == node_index {
                    assert(outgoing_connections@.contains(e));
                }
                if outgoing_connections@.contains(e) {
                    assert(e < edges.len() && edges[e as int].0 == node_index);
                }
                if e < edges.len() {
                    vstd::seq_lib::lemma_seq_contains_after_push(old_order, node_index, edges[e as int].0);
                }
            }
            assert forall|x: usize|
                #![trigger in_progress_visit_order@.contains(x)]
                #![trigger final_visit_order@.contains(x)]
                reachable_from_inputs(edges, inputs, x as int) <==> (
                in_progress_visit_order@.contains(x) || final_visit_order@.contains(x)) by {
                assert(queue_before.contains(x) <==> (queue.contains(x) || x == node_index));
                vstd::seq_lib::lemma_seq_contains_after_push(old_order, node_index, x);
            }
            assert(order.no_duplicates()) by {
                assert(!old_order.contains(node_index));
            }
            assert forall|k: int, e: int|
                0 <= k < order.len() && 0 <= e < edges.len() && #[trigger] edges[e].1
                    == #[trigger] order[k] implies exists|j: int|
                0 <= j < k && order[j] == edges[e].0 by {
                if k < old_order.len() {
                    assert(order[k] == old_order[k]);
                    assert(edges[e].1 == old_order[k]);
                    let j = choose|j: int| 0 <= j < k && old_order[j] == edges[e].0;
                    assert(order[j] == old_order[j]);
                } else {
                    let eu = e as usize;
                    assert(edges[eu as int].1 == node_index);
                    assert(incoming_connections@.contains(eu));
                    let m = choose|m: int|
                        0 <= m < incoming_connections.len() && incoming_connections@[m] == eu;
                    assert(connection_visit_set@.contains(incoming_connections@[m]));
                    assert(old_order.contains(edges[e].0));
                    let j = choose|j: int| 0 <= j < old_order.len() && old_order[j] == edges[e].0;
                    assert(order[j] == old_order[j]);
                }
            }
            if good && queue.len() > 0 {
                let p0 = choose|p: int|
                    0 <= p < queue_before.len() && #[trigger] ready(edges, old_order, queue_before[p] as int)
                        && visits_before + p + 1 + tri((queue_before.len() - 1) as nat) <= tri(n);
                lemma_ready_node_in_queue(edges, inputs, n, queue, order);
                let p = choose|p: int| 0 <= p < queue.len() && #[trigger] ready(edges, order, queue[p] as int);
                assert(tri((queue.len()) as nat) == queue.len() + tri((queue.len() - 1) as nat));
                assert(queue.len() == queue_before.len() - 1);
                assert(on_schedule(edges, order, queue, graph_visits as int, n));
            }
            if good2 {
                assert forall|p: int|
                    0 <= p < queue.len() && lvl(#[trigger] queue[p] as int) == level implies p < left - 1 by {
                    assert(queue[p] == queue_before[p + 1]);
                }
                assert forall|x: usize|
                    #[trigger] reachable_from_inputs(edges, inputs, x as int) && lvl(x as int) < level
                        implies order.contains(x) by {
                    assert(old_order.contains(x));
                    vstd::seq_lib::lemma_seq_contains_after_push(old_order, node_index, x);
                }
                left = (left - 1) as nat;
                assert(in_rounds(edges, inputs, lvl, d, n, level, left, queue, order, graph_visits as int));
            }
        }
    }
    Ok(final_visit_order)
}

/// The graph of audio nodes and connections, and the bookkeeping needed to
/// run it: which nodes are inputs or DACs, which connections enter and leave
/// each node, and a cached order in which to visit the nodes.
#[derive(Debug)]
pub struct Processor {
    graph: AudioGraph,
    /// Maps node uids to their index in the graph.
    node_uid_to_node_index_map: IntMap<u32, usize>,
    /// A cached order in which `run` visits the nodes.
    visit_order: Option<Vec<usize>>,
    /// All the input nodes in the audio graph.
    input_node_indexes: Vec<usize>,
    /// All the DAC nodes in the audio graph.
    dac_node_indexes: Vec<usize>,
    /// Nodes that take updates from the audio device (sample rate, channels).
    audio_update_node_indexes: Vec<usize>,
    incoming_connection_indexes: IntMap<u32, Vec<usize>>,
    outgoing_connection_indexes: IntMap<u32, Vec<usize>>,
    uid_counter: u32,
}

impl Processor {
    /// The nodes of the graph, by index.
    pub closed spec fn nodes(&self) -> Seq<NodeInfo> {
        graph_nodes(self.graph)
    }

    /// The connections of the graph, by index.
    pub closed spec fn edges(&self) -> Edges {
        graph_edges(self.graph)
    }

    /// The input nodes, in the order they were added.
    pub closed spec fn inputs(&self) -> Seq<usize> {
        self.input_node_indexes@
    }

    /// The DAC nodes, in the order they were added.
    pub closed spec fn dacs(&self) -> Seq<usize> {
        self.dac_node_indexes@
    }

    /// The nodes that take updates from the audio device.
    pub closed spec fn audio_update_nodes(&self) -> Seq<usize> {
        self.audio_update_node_indexes@
    }

    /// The cached visit order, if one has been computed.
    pub closed spec fn cached_visit_order(&self) -> Option<Seq<usize>> {
        match self.visit_order {
            Some(v) => Some(v@),
            None => None,
        }
    }

    /// The uid that the next added node receives.
    pub closed spec fn next_node_uid(&self) -> u32 {
        self.uid_counter
    }

    /// The uid-to-index map.
    pub closed spec fn uid_map(&self) -> Map<u32, usize> {
        self.node_uid_to_node_index_map@
    }

    /// Incoming-connection lists, by node uid.
    pub closed spec fn incoming_map(&self) -> Map<u32, Vec<usize>> {
        self.incoming_connection_indexes@
    }

    /// Outgoing-connection lists, by node uid.
    pub closed spec fn outgoing_map(&self) -> Map<u32, Vec<usize>> {
        self.outgoing_connection_indexes@
    }

    /// The processor's invariant, apart from the cached visit order.
    pub closed spec fn wf_structure(&self) -> bool {
        let nodes = self.nodes();
        let edges = self.edges();
        &&& nodes.len() == self.uid_counter
        &&& edges.len() <= u32::MAX
        &&& forall|i: int| 0 <= i < nodes.len() ==> (#[trigger] nodes[i]).uid == i
        &&& forall|k: u32|
            #![trigger self.node_uid_to_node_index_map@.contains_key(k)]
            self.node_uid_to_node_index_map@.contains_key(k) <==> k < self.uid_counter
        &&& forall|k: u32|
            k < self.uid_counter ==> #[trigger] self.node_uid_to_node_index_map@[k] == k
        &&& forall|e: int| 0 <= e < edges.len() ==> edge_fits(nodes, #[trigger] edges[e])
        &&& acyclic(edges)
        &&& lists_exactly(
            self.input_node_indexes@,
            nodes.len() as int,
            |x: int| nodes[x].node_type == NodeType::Input,
        )
        &&& lists_exactly(self.dac_node_indexes@, nodes.len() as int, |x: int| nodes[x].is_dac)
        &&& lists_exactly(
            self.audio_update_node_indexes@,
            nodes.len() as int,
            |x: int| nodes[x].requires_audio_updates,
        )
        &&& connection_index_map(self.incoming_connection_indexes@, edges, true)
        &&& connection_index_map(self.outgoing_connection_indexes@, edges, false)
    }

    /// The processor's invariant: the graph holds no cycle, every connection
    /// fits its endpoints, the bookkeeping lists and maps describe the graph
    /// exactly, and a cached visit order is a valid one.
    pub closed spec fn wf(&self) -> bool {
        &&& self.wf_structure()
        &&& match self.visit_order {
            Some(order) => is_visit_order(self.edges(), self.input_node_indexes@, order@),
            None => true,
        }
    }

    /// An empty processor.
    pub fn new() -> (r: Self)
        ensures
            r.wf(),
            r.nodes() == Seq::<NodeInfo>::empty(),
            r.edges() == Seq::<(usize, usize, Connection)>::empty(),
            r.cached_visit_order() is None,
            r.next_node_uid() == 0,
    {
        Processor {
            graph: graph_new(),
            node_uid_to_node_index_map: int_map_new(),
            visit_order: None,
            input_node_indexes: Vec::new(),
            dac_node_indexes: Vec::new(),
            audio_update_node_indexes: Vec::new(),
            incoming_connection_indexes: int_map_new(),
            outgoing_connection_indexes: int_map_new(),
            uid_counter: 0,
        }
    }

    /// Forgets the cached visit order, so that the next run computes it anew.
    pub fn reset_visit_order_cache(&mut self)
        requires
            old(self).wf(),
        ensures
            final(self).wf(),
            final(self).cached_visit_order() is None,
            final(self).nodes() == old(self).nodes(),
            final(self).edges() == old(self).edges(),
            final(self).inputs() == old(self).inputs(),
            final(self).dacs() == old(self).dacs(),
            final(self).audio_update_nodes() == old(self).audio_update_nodes(),
            final(self).next_node_uid() == old(self).next_node_uid(),
    {
        self.visit_order = None;
    }

    /// Adds a node that belongs to no graph yet (its uid is 0), gives it the
    /// next uid and returns that uid. A node that already carries a uid is
    /// refused.
    pub fn add_node(&mut self, node: NodeInfo) -> (r: Result<NodeUid, AddNodeError>)
        requires
            old(self).wf(),
            old(self).nodes().len() < u32::MAX,
        ensures
            final(self).wf(),
            node.uid != 0 ==> r == Err::<NodeUid, AddNodeError>(
                AddNodeError::NodeAlreadyAssociatedToContext { name: node.name },
            ) && *final(self) == *old(self),
            node.uid == 0 ==> {
                let uid = old(self).next_node_uid();
                let index = old(self).nodes().len() as usize;
                &&& r == Ok::<NodeUid, AddNodeError>(uid)
                &&& index == uid
                &&& final(self).nodes() == old(self).nodes().push(NodeInfo { uid, ..node })
                &&& final(self).edges() == old(self).edges()
                &&& final(self).next_node_uid() == uid + 1
                &&& final(self).cached_visit_order() is None
                &&& final(self).inputs() == if node.node_type == NodeType::Input {
                    old(self).inputs().push(index)
                } else {
                    old(self).inputs()
                }
                &&& final(self).dacs() == if node.is_dac {
                    old(self).dacs().push(index)
                } else {
                    old(self).dacs()
                }
                &&& final(self).audio_update_nodes() == if node.requires_audio_updates {
                    old(self).audio_update_nodes().push(index)
                } else {
                    old(self).audio_update_nodes()
                }
            },
    {
        if node.uid != 0 {
            return Err(AddNodeError::NodeAlreadyAssociatedToContext { name: node.name });
        }
        let ghost old_nodes = self.nodes();
        let uid = self.next_uid();
        let mut node = node;
        node.uid = uid;
        if int_map_contains_key(&self.node_uid_to_node_index_map, uid) {
            return Err(AddNodeError::AlreadyExists { name: node.name });
        }
        let is_input = node.node_type == NodeType::Input;
        let is_dac = node.is_dac;
        let requires_audio_updates = node.requires_audio_updates;
        let node_index = graph_add_node(&mut self.graph, node);
        int_map_insert(&mut self.node_uid_to_node_index_map, uid, node_index);
        if is_input {
            self.input_node_indexes.push(node_index);
        }
        if is_dac {
            self.dac_node_indexes.push(node_index);
        }
        if requires_audio_updates {
            self.audio_update_node_indexes.push(node_index);
        }
        self.visit_order = None;
        proof {
            let nodes = self.nodes();
            let edges = self.edges();
            assert forall|i: int| 0 <= i < old_nodes.len() implies nodes[i] == old_nodes[i] by {}
            assert forall|e: int| 0 <= e < edges.len() implies edge_fits(nodes, #[trigger] edges[e]) by {
                assert(edge_fits(old_nodes, edges[e]));
            }
            let n = old_nodes.len() as int;
            lemma_lists_exactly_extend(
                old(self).input_node_indexes@,
                n,
                |x: int| old_nodes[x].node_type == NodeType::Input,
                |x: int| nodes[x].node_type == NodeType::Input,
            );
            lemma_lists_exactly_extend(
                old(self).dac_node_indexes@,
                n,
                |x: int| old_nodes[x].is_dac,
                |x: int| nodes[x].is_dac,
            );
            lemma_lists_exactly_extend(
                old(self).audio_update_node_indexes@,
                n,
                |x: int| old_nodes[x].requires_audio_updates,
                |x: int| nodes[x].requires_audio_updates,
            );
        }
        Ok(uid)
    }

    /// Checks that the parent has an output `from_index` and the child an
    /// input `to_index`.
    fn check_connection_index_out_of_bounds(
        parent_node: &NodeInfo,
        child_node: &NodeInfo,
        from_index: usize,
        to_index: usize,
    ) -> (r: Result<(), ConnectError>)
        ensures
            (from_index >= parent_node.num_output_connections || to_index
                >= child_node.num_input_connections) ==> r == Err::<(), ConnectError>(
                index_error(*parent_node, *child_node, from_index, to_index),
            ),
            !(from_index >= parent_node.num_output_connections || to_index
                >= child_node.num_input_connections) ==> r is Ok,
    {
        parent_node.check_index_out_of_bounds(from_index, child_node, to_index)
    }

    /// Regardless of the node type, the outgoing number of channels of a
    /// parent must match the incoming number of channels of the child.
    fn check_num_channels_compatibility(parent_node: &NodeInfo, child_node: &NodeInfo) -> (r: Result<
        (),
        ConnectError,
    >)
        ensures
            parent_node.num_outgoing_channels != child_node.num_incoming_channels ==> r == Err::<
                (),
                ConnectError,
            >(
                ConnectError::IncompatibleNumChannels {
                    parent_node_num_outgoing_channels: parent_node.num_outgoing_channels,
                    child_node_num_incoming_channels: child_node.num_incoming_channels,
                    parent_node_name: parent_node.name,
                    child_node_name: child_node.name,
                },
            ),
            parent_node.num_outgoing_channels == child_node.num_incoming_channels ==> r is Ok,
    {
        if parent_node.num_outgoing_channels != child_node.num_incoming_channels {
            return Err(
                ConnectError::IncompatibleNumChannels {
                    parent_node_num_outgoing_channels: parent_node.num_outgoing_channels,
                    child_node_num_incoming_channels: child_node.num_incoming_channels,
                    parent_node_name: parent_node.name.clone(),
                    child_node_name: child_node.name.clone(),
                },
            );
        }
        Ok(())
    }

    /// Refuses a connection from parent to child when the child already
    /// reaches the parent, since the new connection would close a cycle.
    fn check_for_cyclical_connection(
        &self,
        child_node_index: usize,
        parent_node_index: usize,
        parent_node: &NodeInfo,
        child_node: &NodeInfo,
    ) -> (r: Result<(), ConnectError>)
        requires
            child_node_index < self.nodes().len(),
        ensures
            reaches(self.edges(), child_node_index as int, parent_node_index as int) ==> r == Err::<
                (),
                ConnectError,
            >(
                ConnectError::GraphCycleFound {
                    parent_node_name: parent_node.name,
                    child_node_name: child_node.name,
                },
            ),
            !reaches(self.edges(), child_node_index as int, parent_node_index as int) ==> r is Ok,
    {
        let visited = graph_dfs(&self.graph, child_node_index);
        let mut i: usize = 0;
        let mut cycle_found = false;
        while i < visited.len()
            invariant
                0 <= i <= visited.len(),
                cycle_found <==> exists|j: int| 0 <= j < i && visited@[j] == parent_node_index,
            decreases visited.len() - i,
        {
            if visited[i] == parent_node_index {
                cycle_found = true;
            }
            i = i + 1;
        }
        proof {
            if reaches(self.edges(), child_node_index as int, parent_node_index as int) {
                assert(visited@.contains(parent_node_index));
            }
            if cycle_found {
                let j = choose|j: int| 0 <= j < visited.len() && visited@[j] == parent_node_index;
                assert(visited@.contains(parent_node_index));
            }
        }
        if cycle_found {
            return Err(
                ConnectError::GraphCycleFound {
                    parent_node_name: parent_node.name.clone(),
                    child_node_name: child_node.name.clone(),
                },
            );
        }
        Ok(())
    }

    fn add_incoming_connection_index(&mut self, uid: NodeUid, edge_index: usize)
        ensures
            final(self).incoming_connection_indexes@ == old(self).incoming_connection_indexes@.insert(
                uid,
                final(self).incoming_connection_indexes@[uid],
            ),
            final(self).incoming_connection_indexes@[uid]@ == (if old(
                self,
            ).incoming_connection_indexes@.contains_key(uid) {
                old(self).incoming_connection_indexes@[uid]@
            } else {
                Seq::<usize>::empty()
            }).push(edge_index),
            *final(self) == (Processor {
                incoming_connection_indexes: final(self).incoming_connection_indexes,
                ..*old(self)
            }),
    {
        let mut indexes = match int_map_remove(&mut self.incoming_connection_indexes, uid) {
            Some(indexes) => indexes,
            None => Vec::new(),
        };
        indexes.push(edge_index);
        int_map_insert(&mut self.incoming_connection_indexes, uid, indexes);
    }

    fn add_outgoing_connection_index(&mut self, uid: NodeUid, edge_index: usize)
        ensures
            final(self).outgoing_connection_indexes@ == old(self).outgoing_connection_indexes@.insert(
                uid,
                final(self).outgoing_connection_indexes@[uid],
            ),
            final(self).outgoing_connection_indexes@[uid]@ == (if old(
                self,
            ).outgoing_connection_indexes@.contains_key(uid) {
                old(self).outgoing_connection_indexes@[uid]@
            } else {
                Seq::<usize>::empty()
            }).push(edge_index),
            *final(self) == (Processor {
                outgoing_connection_indexes: final(self).outgoing_connection_indexes,
                ..*old(self)
            }),
    {
        let mut indexes = match int_map_remove(&mut self.outgoing_connection_indexes, uid) {
            Some(indexes) => indexes,
            None => Vec::new(),
        };
        indexes.push(edge_index);
        int_map_insert(&mut self.outgoing_connection_indexes, uid, indexes);
    }

    fn connect_with_indexes(
        &mut self,
        parent_node_uid: NodeUid,
        child_node_uid: NodeUid,
        from_index: usize,
        to_index: usize,
    ) -> (r: Result<usize, ConnectError>)
        requires
            old(self).wf(),
            old(self).edges().len() < u32::MAX,
        ensures
            match connect_refusal(
                old(self).nodes(),
                old(self).edges(),
                parent_node_uid,
                child_node_uid,
                from_index,
                to_index,
            ) {
                Some(err) => r == Err::<usize, ConnectError>(err) && *final(self) == *old(self),
                None => {
                    &&& r == Ok::<usize, ConnectError>(old(self).edges().len() as usize)
                    &&& final(self).wf_structure()
                    &&& final(self).nodes() == old(self).nodes()
                    &&& final(self).edges() == old(self).edges().push(
                        new_connection(old(self).nodes(), parent_node_uid, child_node_uid, from_index, to_index),
                    )
                    &&& final(self).inputs() == old(self).inputs()
                    &&& final(self).dacs() == old(self).dacs()
                    &&& final(self).audio_update_nodes() == old(self).audio_update_nodes()
                    &&& final(self).next_node_uid() == old(self).next_node_uid()
                    &&& final(self).cached_visit_order() == old(self).cached_visit_order()
                },
            },
    {
        let parent_node_index = match int_map_get(&self.node_uid_to_node_index_map, parent_node_uid) {
            Some(index) => *index,
            None => {
                return Err(ConnectError::NodeUidNotFound { node_uid: parent_node_uid });
            },
        };
        let child_node_index = match int_map_get(&self.node_uid_to_node_index_map, child_node_uid) {
            Some(index) => *index,
            None => {
                return Err(ConnectError::NodeUidNotFound { node_uid: child_node_uid });
            },
        };
        let parent_node = match graph_node_weight(&self.graph, parent_node_index) {
            Some(node) => node,
            None => {
                return Err(ConnectError::NodeNotFound { node_index: parent_node_index });
            },
        };
        let child_node = match graph_node_weight(&self.graph, child_node_index) {
            Some(node) => node,
            None => {
                return Err(ConnectError::NodeNotFound { node_index: child_node_index });
            },
        };
        match Self::check_connection_index_out_of_bounds(parent_node, child_node, from_index, to_index) {
            Err(e) => {
                return Err(e);
            },
            Ok(()) => {},
        }
        match Self::check_num_channels_compatibility(parent_node, child_node) {
            Err(e) => {
                return Err(e);
            },
            Ok(()) => {},
        }
        if parent_node_uid == child_node_uid {
            return Err(
                ConnectError::GraphCycleFound {
                    parent_node_name: parent_node.name.clone(),
                    child_node_name: child_node.name.clone(),
                },
            );
        }
        match self.check_for_cyclical_connection(child_node_index, parent_node_index, parent_node, child_node) {
            Err(e) => {
                return Err(e);
            },
            Ok(()) => {},
        }
        let parent_uid = parent_node.uid;
        let child_uid = child_node.uid;
        let num_channels = parent_node.num_outgoing_channels;
        let ghost old_self = *self;
        let ghost edges = self.edges();
        let connection = Connection::from_indexes(num_channels, from_index, to_index);
        proof {
            lemma_acyclic_with_edge(edges, parent_node_index, child_node_index, connection);
        }
        let edge_index = graph_add_edge(&mut self.graph, parent_node_index, child_node_index, connection);
        self.add_outgoing_connection_index(parent_uid, edge_index);
        self.add_incoming_connection_index(child_uid, edge_index);
        proof {
            let e2 = self.edges();
            assert(e2 == with_edge(edges, parent_node_index, child_node_index, connection));
            lemma_index_map_with_edge(
                old_self.outgoing_connection_indexes@,
                edges,
                parent_node_index,
                child_node_index,
                connection,
                false,
                self.outgoing_connection_indexes@[parent_uid],
            );
            lemma_index_map_with_edge(
                old_self.incoming_connection_indexes@,
                edges,
                parent_node_index,
                child_node_index,
                connection,
                true,
                self.incoming_connection_indexes@[child_uid],
            );
            assert forall|e: int| 0 <= e < e2.len() implies edge_fits(self.nodes(), #[trigger] e2[e]) by {
                if e < edges.len() {
                    assert(e2[e] == edges[e]);
                }
            }
        }
        Ok(edge_index)
    }

    /// Connects the first output of the parent to the first input of the
    /// child, and returns the new connection's index. A refused connection
    /// leaves the processor as it was; a made one clears the cached visit
    /// order.
    pub fn connect(&mut self, parent_node_uid: NodeUid, child_node_uid: NodeUid) -> (r: Result<
        usize,
        ConnectError,
    >)
        requires
            old(self).wf(),
            old(self).edges().len() < u32::MAX,
        ensures
            final(self).wf(),
            match connect_refusal(
                old(self).nodes(),
                old(self).edges(),
                parent_node_uid,
                child_node_uid,
                0,
                0,
            ) {
                Some(err) => r == Err::<usize, ConnectError>(err) && *final(self) == *old(self),
                None => {
                    &&& r == Ok::<usize, ConnectError>(old(self).edges().len() as usize)
                    &&& final(self).nodes() == old(self).nodes()
                    &&& final(self).edges() == old(self).edges().push(
                        new_connection(old(self).nodes(), parent_node_uid, child_node_uid, 0, 0),
                    )
                    &&& final(self).inputs() == old(self).inputs()
                    &&& final(self).dacs() == old(self).dacs()
                    &&& final(self).audio_update_nodes() == old(self).audio_update_nodes()
                    &&& final(self).next_node_uid() == old(self).next_node_uid()
                    &&& final(self).cached_visit_order() is None
                },
            },
    {
        let result = self.connect_with_indexes(parent_node_uid, child_node_uid, 0, 0);
        if result.is_ok() {
            self.visit_order = None;
        }
        result
    }

    /// Computes, once, an order in which to visit the nodes: every node
    /// reachable from an input, each once, and each only after all the nodes
    /// that have a connection into it. Later calls keep the cached order.
    /// When the search for an order gives up (see `compute_visit_order`),
    /// nothing is cached.
    pub fn initialize_visit_order(&mut self) -> (r: Result<(), VisitOrderError>)
        requires
            old(self).wf(),
        ensures
            final(self).wf(),
            final(self).nodes() == old(self).nodes(),
            final(self).edges() == old(self).edges(),
            final(self).inputs() == old(self).inputs(),
            final(self).dacs() == old(self).dacs(),
            final(self).audio_update_nodes() == old(self).audio_update_nodes(),
            final(self).next_node_uid() == old(self).next_node_uid(),
            old(self).cached_visit_order() is Some ==> r is Ok && *final(self) == *old(self),
            old(self).inputs().len() == 0 ==> r is Ok,
            parents_reachable(old(self).edges(), old(self).inputs()) && tri(old(self).nodes().len())
                <= MAX_GRAPH_VISITS ==> r is Ok,
            (exists|lvl: spec_fn(int) -> nat, d: nat|
                #[trigger] layered(old(self).edges(), old(self).inputs(), lvl, d) && old(self).nodes().len() * (
                d + 1) <= MAX_GRAPH_VISITS) ==> r is Ok,
            r is Ok ==> match final(self).cached_visit_order() {
                Some(order) => is_visit_order(final(self).edges(), final(self).inputs(), order),
                None => false,
            },
            r is Err ==> *final(self) == *old(self),
    {
        if self.visit_order.is_some() {
            return Ok(());
        }
        proof {
            assert forall|e: int| 0 <= e < self.edges().len() implies #[trigger] self.edges()[e].0
                < self.nodes().len() && self.edges()[e].1 < self.nodes().len() by {
                assert(edge_fits(self.nodes(), self.edges()[e]));
            }
        }
        match compute_visit_order(&self.graph, &self.input_node_indexes) {
            Ok(order) => {
                self.visit_order = Some(order);
                Ok(())
            },
            Err(e) => Err(e),
        }
    }


    /// The cached visit order, if one has been computed.
    pub fn visit_order(&self) -> (r: Option<&Vec<usize>>)
        ensures
            match r {
                Some(order) => self.cached_visit_order() == Some(order@),
                None => self.cached_visit_order() is None,
            },
    {
        match &self.visit_order {
            Some(order) => Some(order),
            None => None,
        }
    }

    /// The number of nodes in the graph.
    pub fn node_count(&self) -> (r: usize)
        ensures
            r == self.nodes().len(),
    {
        graph_node_count(&self.graph)
    }

    /// The number of connections in the graph.
    pub fn edge_count(&self) -> (r: usize)
        ensures
            r == self.edges().len(),
    {
        graph_edge_count(&self.graph)
    }

    /// What the graph knows of the node at `index`.
    pub fn node_info(&self, index: usize) -> (r: Option<&NodeInfo>)
        requires
            self.wf(),
        ensures
            index < self.nodes().len() ==> r == Some(&self.nodes()[index as int]),
            index >= self.nodes().len() ==> r is None,
    {
        if index >= graph_node_count(&self.graph) {
            return None;
        }
        graph_node_weight(&self.graph, index)
    }

    /// The connection at `index`, with its source and target node indexes.
    pub fn connection(&self, index: usize) -> (r: Option<&Connection>)
        requires
            self.wf(),
        ensures
            index < self.edges().len() ==> r == Some(&self.edges()[index as int].2),
            index >= self.edges().len() ==> r is None,
    {
        if index >= graph_edge_count(&self.graph) {
            return None;
        }
        graph_edge_weight(&self.graph, index)
    }

    /// The index of the node with uid `uid`, if there is one.
    pub fn node_index_by_uid(&self, uid: &u32) -> (r: Option<usize>)
        requires
            self.wf(),
        ensures
            *uid < self.nodes().len() ==> r == Some(*uid as usize),
            *uid >= self.nodes().len() ==> r is None,
    {
        match int_map_get(&self.node_uid_to_node_index_map, *uid) {
            Some(index) => Some(*index),
            None => None,
        }
    }

    /// Looks up the node that an update message is meant for.
    pub fn find_node_for_update(&self, node_uid: NodeUid) -> (r: Result<usize, UpdateNodeError>)
        requires
            self.wf(),
        ensures
            node_uid < self.nodes().len() ==> r == Ok::<usize, UpdateNodeError>(node_uid as usize),
            node_uid >= self.nodes().len() ==> r == Err::<usize, UpdateNodeError>(
                UpdateNodeError::NodeNotFound { uid: node_uid },
            ),
    {
        match self.node_index_by_uid(&node_uid) {
            Some(index) => Ok(index),
            None => Err(UpdateNodeError::NodeNotFound { uid: node_uid }),
        }
    }

    /// The connections that end at the node with uid `uid`, oldest first.
    pub fn incoming_connection_indexes(&self, uid: &u32) -> (r: Option<&Vec<usize>>)
        requires
            self.wf(),
        ensures
            match r {
                Some(indexes) => lists_exactly(
                    indexes@,
                    self.edges().len() as int,
                    edge_list_of(self.edges(), *uid as int, true),
                ) && indexes@.len() > 0,
                None => forall|e: int| 0 <= e < self.edges().len() ==> self.edges()[e].1 != *uid,
            },
    {
        let r = int_map_get(&self.incoming_connection_indexes, *uid);
        proof {
            let m = self.incoming_connection_indexes@;
            if m.contains_key(*uid) {
                let e = choose|e: int| 0 <= e < self.edges().len() && self.edges()[e].1 == *uid;
                assert(edge_list_of(self.edges(), *uid as int, true)(e));
                assert(m[*uid]@.contains(e as usize));
            }
        }
        r
    }

    /// The connections that start at the node with uid `uid`, oldest first.
    pub fn outgoing_connection_indexes(&self, uid: &u32) -> (r: Option<&Vec<usize>>)
        requires
            self.wf(),
        ensures
            match r {
                Some(indexes) => lists_exactly(
                    indexes@,
                    self.edges().len() as int,
                    edge_list_of(self.edges(), *uid as int, false),
                ) && indexes@.len() > 0,
                None => forall|e: int| 0 <= e < self.edges().len() ==> self.edges()[e].0 != *uid,
            },
    {
        let r = int_map_get(&self.outgoing_connection_indexes, *uid);
        proof {
            let m = self.outgoing_connection_indexes@;
            if m.contains_key(*uid) {
                let e = choose|e: int| 0 <= e < self.edges().len() && self.edges()[e].0 == *uid;
                assert(edge_list_of(self.edges(), *uid as int, false)(e));
                assert(m[*uid]@.contains(e as usize));
            }
        }
        r
    }

    /// The input nodes, in the order they were added.
    pub fn input_node_indexes(&self) -> (r: &Vec<usize>)
        ensures
            r@ == self.inputs(),
    {
        &self.input_node_indexes
    }

    /// The DAC nodes, in the order they were added.
    pub fn dac_node_indexes(&self) -> (r: &Vec<usize>)
        ensures
            r@ == self.dacs(),
    {
        &self.dac_node_indexes
    }

    /// The nodes that take updates from the audio device, in the order they
    /// were added.
    pub fn audio_update_node_indexes(&self) -> (r: &Vec<usize>)
        ensures
            r@ == self.audio_update_nodes(),
    {
        &self.audio_update_node_indexes
    }

    /// Whether the graph has room for one more connection: the connection
    /// index type is not exhausted.
    pub fn has_room_for_a_connection(&self) -> (r: bool)
        requires
            self.wf(),
        ensures
            r == (self.edges().len() < u32::MAX),
    {
        graph_edge_count(&self.graph) < 0xffff_ffff
    }

    fn next_uid(&mut self) -> (r: u32)
        requires
            old(self).uid_counter < u32::MAX,
        ensures
            r == old(self).uid_counter,
            *final(self) == (Processor { uid_counter: (r + 1) as u32, ..*old(self) }),
    {
        let value = self.uid_counter;
        self.uid_counter = self.uid_counter + 1;
        value
    }
}

/// What adding `node` to a graph of `nodes` answers: a node that already
/// carries a uid is refused, any other gets the next uid.
pub open spec fn add_node_result(nodes: Seq<NodeInfo>, node: NodeInfo) -> Result<NodeUid, AddNodeError> {
    if node.uid != 0 {
        Err(AddNodeError::NodeAlreadyAssociatedToContext { name: node.name })
    } else {
        Ok(nodes.len() as NodeUid)
    }
}

/// What connecting the first output of `parent_uid` to the first input of
/// `child_uid` answers: the refusal, or the index of the new connection.
pub open spec fn connect_result(nodes: Seq<NodeInfo>, edges: Edges, parent_uid: u32, child_uid: u32) -> Result<
    usize,
    ConnectError,
> {
    match connect_refusal(nodes, edges, parent_uid, child_uid, 0, 0) {
        Some(err) => Err(err),
        None => Ok(edges.len() as usize),
    }
}

/// Carries out one request from the main thread on the processor and
/// answers it under the request's id: adds a node, connects two nodes, or
/// finds the node that an update is meant for.
pub fn run_processor_message(processor: &mut Processor, message: ProcessorMessageRequest) -> (r:
    ProcessorMessageResponse)
    requires
        old(processor).wf(),
        message is AddNode ==> old(processor).nodes().len() < u32::MAX,
        message is Connect ==> old(processor).edges().len() < u32::MAX,
    ensures
        final(processor).wf(),
        r.spec_request_id() == message.spec_request_id(),
        match message {
            ProcessorMessageRequest::AddNode { node, .. } => {
                let result = add_node_result(old(processor).nodes(), node);
                &&& r matches ProcessorMessageResponse::AddNode { result: res, .. } && res == result
                &&& final(processor).edges() == old(processor).edges()
                &&& final(processor).nodes() == if result is Ok {
                    old(processor).nodes().push(NodeInfo { uid: old(processor).nodes().len() as NodeUid, ..node })
                } else {
                    old(processor).nodes()
                }
                &&& result is Err ==> *final(processor) == *old(processor)
                &&& result is Ok ==> {
                    let index = old(processor).nodes().len() as usize;
                    &&& final(processor).inputs() == if node.node_type == NodeType::Input {
                        old(processor).inputs().push(index)
                    } else {
                        old(processor).inputs()
                    }
                    &&& final(processor).dacs() == if node.is_dac {
                        old(processor).dacs().push(index)
                    } else {
                        old(processor).dacs()
                    }
                    &&& final(processor).audio_update_nodes() == if node.requires_audio_updates {
                        old(processor).audio_update_nodes().push(index)
                    } else {
                        old(processor).audio_update_nodes()
                    }
                    &&& final(processor).cached_visit_order() is None
                }
            },
            ProcessorMessageRequest::Connect { parent_node_uid, child_node_uid, .. } => {
                let result = connect_result(old(processor).nodes(), old(processor).edges(), parent_node_uid, child_node_uid);
                &&& r matches ProcessorMessageResponse::Connect { result: res, .. } && res == result
                &&& final(processor).nodes() == old(processor).nodes()
                &&& final(processor).edges() == if result is Ok {
                    old(processor).edges().push(
                        new_connection(old(processor).nodes(), parent_node_uid, child_node_uid, 0, 0),
                    )
                } else {
                    old(processor).edges()
                }
            },
            ProcessorMessageRequest::UpdateNode { node_uid, .. } => {
                &&& r matches ProcessorMessageResponse::UpdateNode { result: res, .. } && res == if node_uid < old(processor).nodes().len() {
                    Ok::<(), UpdateNodeError>(())
                } else {
                    Err(UpdateNodeError::NodeNotFound { uid: node_uid })
                }
                &&& *final(processor) == *old(processor)
            },
        },
{
    match message {
        ProcessorMessageRequest::AddNode { request_id, node } => {
            let result = processor.add_node(node);
            ProcessorMessageResponse::AddNode { request_id, result }
        },
        ProcessorMessageRequest::Connect { request_id, parent_node_uid, child_node_uid } => {
            let result = processor.connect(parent_node_uid, child_node_uid);
            ProcessorMessageResponse::Connect { request_id, result }
        },
        ProcessorMessageRequest::UpdateNode { request_id, node_uid } => {
            let result = match processor.find_node_for_update(node_uid) {
                Ok(_) => Ok(()),
                Err(e) => Err(e),
            };
            ProcessorMessageResponse::UpdateNode { request_id, result }
        },
    }
}

impl Default for Processor {
    /// An empty processor.
    fn default() -> (r: Self)
        ensures
            r.wf(),
            r.nodes() == Seq::<NodeInfo>::empty(),
            r.edges() == Seq::<(usize, usize, Connection)>::empty(),
            r.cached_visit_order() is None,
            r.next_node_uid() == 0,
    {
        Processor::new()
    }
}

/// What a processor keeps of its nodes: each node's uid is its index (so
/// uids are distinct, and the next added node gets the node count as uid);
/// the input list holds, in increasing order, exactly the nodes of type
/// `Input`; the DAC list exactly the DAC nodes; the update list exactly the
/// nodes that follow the audio device.
pub proof fn law_processor_bookkeeping(processor: &Processor)
    requires
        processor.wf(),
    ensures
        forall|i: int| 0 <= i < processor.nodes().len() ==> (#[trigger] processor.nodes()[i]).uid == i,
        processor.next_node_uid() == processor.nodes().len(),
        lists_exactly(
            processor.inputs(),
            processor.nodes().len() as int,
            |x: int| processor.nodes()[x].node_type == NodeType::Input,
        ),
        lists_exactly(processor.dacs(), processor.nodes().len() as int, |x: int| processor.nodes()[x].is_dac),
        lists_exactly(
            processor.audio_update_nodes(),
            processor.nodes().len() as int,
            |x: int| processor.nodes()[x].requires_audio_updates,
        ),
{
}

/// The graph of a processor never holds a cycle: no connection leads from
/// a node to one that can reach it back.
pub proof fn law_graph_has_no_cycle(processor: &Processor)
    requires
        processor.wf(),
    ensures
        acyclic(processor.edges()),
{
}

/// A node is never connected to itself. Where the uid exists and the
/// indexes and channel counts fit, the refusal is `GraphCycleFound`.
pub proof fn law_self_connection_refused(
    nodes: Seq<NodeInfo>,
    edges: Edges,
    uid: u32,
    from_index: usize,
    to_index: usize,
)
    ensures
        connect_refusal(nodes, edges, uid, uid, from_index, to_index) is Some,
        uid < nodes.len() && from_index < nodes[uid as int].num_output_connections && to_index
            < nodes[uid as int].num_input_connections && nodes[uid as int].num_outgoing_channels
            == nodes[uid as int].num_incoming_channels ==> connect_refusal(
            nodes,
            edges,
            uid,
            uid,
            from_index,
            to_index,
        ) == Some(
            ConnectError::GraphCycleFound {
                parent_node_name: nodes[uid as int].name,
                child_node_name: nodes[uid as int].name,
            },
        ),
{
}

/// The indexes and channel counts of a connection from `parent_uid` to
/// `child_uid` fit both nodes.
pub open spec fn connection_fits(
    nodes: Seq<NodeInfo>,
    parent_uid: u32,
    child_uid: u32,
    from_index: usize,
    to_index: usize,
) -> bool {
    &&& parent_uid < nodes.len()
    &&& child_uid < nodes.len()
    &&& from_index < nodes[parent_uid as int].num_output_connections
    &&& to_index < nodes[child_uid as int].num_input_connections
    &&& nodes[parent_uid as int].num_outgoing_channels == nodes[child_uid as int].num_incoming_channels
}

/// A connection from a parent to a child that can already reach the parent
/// is refused; where the connection otherwise fits, as `GraphCycleFound`.
pub proof fn law_connection_closing_a_cycle_refused(
    nodes: Seq<NodeInfo>,
    edges: Edges,
    parent_uid: u32,
    child_uid: u32,
    from_index: usize,
    to_index: usize,
)
    requires
        reaches(edges, child_uid as int, parent_uid as int),
    ensures
        connect_refusal(nodes, edges, parent_uid, child_uid, from_index, to_index) is Some,
        connection_fits(nodes, parent_uid, child_uid, from_index, to_index) ==> connect_refusal(
            nodes,
            edges,
            parent_uid,
            child_uid,
            from_index,
            to_index,
        ) == Some(
            ConnectError::GraphCycleFound {
                parent_node_name: nodes[parent_uid as int].name,
                child_node_name: nodes[child_uid as int].name,
            },
        ),
{
}

/// Once `parent_uid` has been connected to `child_uid`, connecting them the
/// other way round is refused, whatever the indexes.
pub proof fn law_reverse_connection_refused(
    nodes: Seq<NodeInfo>,
    edges: Edges,
    parent_uid: u32,
    child_uid: u32,
    from_index: usize,
    to_index: usize,
    back_from_index: usize,
    back_to_index: usize,
)
    requires
        connect_refusal(nodes, edges, parent_uid, child_uid, from_index, to_index) is None,
    ensures
        connect_refusal(
            nodes,
            edges.push(new_connection(nodes, parent_uid, child_uid, from_index, to_index)),
            child_uid,
            parent_uid,
            back_from_index,
            back_to_index,
        ) is Some,
        connection_fits(nodes, child_uid, parent_uid, back_from_index, back_to_index) ==> connect_refusal(
            nodes,
            edges.push(new_connection(nodes, parent_uid, child_uid, from_index, to_index)),
            child_uid,
            parent_uid,
            back_from_index,
            back_to_index,
        ) == Some(
            ConnectError::GraphCycleFound {
                parent_node_name: nodes[child_uid as int].name,
                child_node_name: nodes[parent_uid as int].name,
            },
        ),
{
    let e2 = edges.push(new_connection(nodes, parent_uid, child_uid, from_index, to_index));
    assert(e2[edges.len() as int].0 == parent_uid as int && e2[edges.len() as int].1 == child_uid as int);
    assert(has_edge(e2, parent_uid as int, child_uid as int));
    lemma_reaches_refl(e2, parent_uid as int);
    lemma_reaches_step(e2, parent_uid as int, parent_uid as int, child_uid as int);
}

/// Adding a node is refused exactly when the node already carries a uid;
/// any other node, whatever its kind or flags, is given the next uid, which
/// is the number of nodes already in the graph.
pub proof fn law_add_node_refuses_only_tagged_nodes(nodes: Seq<NodeInfo>, node: NodeInfo)
    ensures
        node.uid == 0 ==> add_node_result(nodes, node) == Ok::<NodeUid, AddNodeError>(nodes.len() as NodeUid),
        node.uid != 0 ==> add_node_result(nodes, node) == Err::<NodeUid, AddNodeError>(
            AddNodeError::NodeAlreadyAssociatedToContext { name: node.name },
        ),
{
}

/// A connection is made exactly when both nodes exist, the parent has output
/// `from_index` and the child input `to_index`, their channel counts agree,
/// and the connection closes no cycle (the child is not the parent and does
/// not reach it). Each refusal names a rule that is broken.
pub proof fn law_connect_refused_exactly_when_a_rule_is_broken(
    nodes: Seq<NodeInfo>,
    edges: Edges,
    parent_uid: u32,
    child_uid: u32,
    from_index: usize,
    to_index: usize,
)
    ensures
        connect_refusal(nodes, edges, parent_uid, child_uid, from_index, to_index) is None <==> {
            &&& parent_uid < nodes.len()
            &&& child_uid < nodes.len()
            &&& from_index < nodes[parent_uid as int].num_output_connections
            &&& to_index < nodes[child_uid as int].num_input_connections
            &&& nodes[parent_uid as int].num_outgoing_channels == nodes[child_uid as int].num_incoming_channels
            &&& parent_uid != child_uid
            &&& !reaches(edges, child_uid as int, parent_uid as int)
        },
        connect_refusal(nodes, edges, parent_uid, child_uid, from_index, to_index) matches Some(
            ConnectError::NodeUidNotFound { node_uid },
        ) ==> node_uid >= nodes.len() && (node_uid == parent_uid || node_uid == child_uid),
        connect_refusal(nodes, edges, parent_uid, child_uid, from_index, to_index) matches Some(
            ConnectError::IncorrectIndex { from_index: f, to_index: t, .. },
        ) ==> {
            &&& parent_uid < nodes.len() && child_uid < nodes.len()
            &&& f == from_index && t == to_index
            &&& (from_index >= nodes[parent_uid as int].num_output_connections || to_index
                >= nodes[child_uid as int].num_input_connections)
        },
        connect_refusal(nodes, edges, parent_uid, child_uid, from_index, to_index) matches Some(
            ConnectError::IncompatibleNumChannels {
                parent_node_num_outgoing_channels: a,
                child_node_num_incoming_channels: b,
                ..
            },
        ) ==> {
            &&& parent_uid < nodes.len() && child_uid < nodes.len()
            &&& a == nodes[parent_uid as int].num_outgoing_channels
            &&& b == nodes[child_uid as int].num_incoming_channels
            &&& a != b
        },
        connect_refusal(nodes, edges, parent_uid, child_uid, from_index, to_index) matches Some(
            ConnectError::GraphCycleFound { .. },
        ) ==> {
            &&& parent_uid < nodes.len() && child_uid < nodes.len()
            &&& (parent_uid == child_uid || reaches(edges, child_uid as int, parent_uid as int))
        },
        !(connect_refusal(nodes, edges, parent_uid, child_uid, from_index, to_index) matches Some(
            ConnectError::NodeNotFound { .. },
        )),
{
}

/// What a visit order promises: no node twice, every input node in it,
/// every node after all of its parents, and every child of a visited node
/// visited too.
pub proof fn law_visit_order_visits_parents_first(edges: Edges, inputs: Seq<usize>, order: Seq<usize>)
    requires
        is_visit_order(edges, inputs, order),
    ensures
        forall|i: int, j: int| 0 <= i < j < order.len() ==> order[i] != order[j],
        forall|k: int| 0 <= k < inputs.len() ==> order.contains(#[trigger] inputs[k]),
        forall|i: int, e: int|
            0 <= i < order.len() && 0 <= e < edges.len() && #[trigger] edges[e].1 == #[trigger] order[i]
                ==> exists|j: int| 0 <= j < i && order[j] == edges[e].0,
        forall|e: int| 0 <= e < edges.len() && order.contains(#[trigger] edges[e].0) ==> order.contains(edges[e].1),
{
    assert forall|k: int| 0 <= k < inputs.len() implies order.contains(#[trigger] inputs[k]) by {
        lemma_reaches_refl(edges, inputs[k] as int);
        assert(reachable_from_inputs(edges, inputs, inputs[k] as int));
    }
    assert forall|e: int| 0 <= e < edges.len() && order.contains(#[trigger] edges[e].0) implies order.contains(
        edges[e].1,
    ) by {
        let a = edges[e].0;
        assert(reachable_from_inputs(edges, inputs, a as int));
        let k = choose|k: int| 0 <= k < inputs.len() && reaches(edges, inputs[k] as int, a as int);
        assert(has_edge(edges, a as int, edges[e].1 as int));
        lemma_reaches_step(edges, inputs[k] as int, a as int, edges[e].1 as int);
        assert(reachable_from_inputs(edges, inputs, edges[e].1 as int));
    }
}

/// A connection that is made runs from the parent's node to the child's,
/// joins the requested output and input, and carries as many channels as
/// the parent sends.
pub proof fn law_new_connection_joins_parent_to_child(
    nodes: Seq<NodeInfo>,
    parent_uid: u32,
    child_uid: u32,
    from_index: usize,
    to_index: usize,
)
    requires
        parent_uid < nodes.len(),
    ensures
        ({
            let (a, b, c) = new_connection(nodes, parent_uid, child_uid, from_index, to_index);
            &&& a == parent_uid && b == child_uid
            &&& c.from_index == from_index && c.to_index == to_index
            &&& c.num_channels == nodes[parent_uid as int].num_outgoing_channels
        }),
{
}

} // verus!
