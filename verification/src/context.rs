use vstd::prelude::*;

use std::collections::HashSet;

use crate::connection::Connection;
use crate::graph::{
    graph_add_edge, graph_add_node, graph_edge_count, graph_edges, graph_new, graph_node_count, graph_nodes, AudioGraph,
};
use crate::messages::VisitOrderError;
use crate::node::{NodeInfo, NodeType};
use crate::paths::acyclic;
use crate::processor::{
    compute_visit_order, is_visit_order, layered, lists_exactly, parents_reachable, tri, MAX_GRAPH_VISITS,
};
use crate::units::NumChannels;

verus! {

broadcast use vstd::std_specs::hash::group_hash_axioms;

/// The single-threaded audio context: nodes are known by a uuid (as a
/// `u128`), connections carry one sample each and are not checked.
#[derive(Debug)]
pub struct AudioContextInner {
    graph: AudioGraph,
    /// uuids that `add_node` refuses
    node_uuids: HashSet<u128>,
    /// the uuid of each node, by index
    uuids: Vec<u128>,
    visit_order: Option<Vec<usize>>,
    /// the input nodes, by index, in the order they were added
    inputs: Vec<usize>,
}

/// An edge from `a` to `b` whose connection joins output `from_index` to
/// input `to_index` and carries one channel.
pub open spec fn is_one_channel_edge(edge: (usize, usize, Connection), a: int, b: int, from_index: usize, to_index: usize) -> bool {
    &&& edge.0 == a
    &&& edge.1 == b
    &&& edge.2.from_index == from_index
    &&& edge.2.to_index == to_index
    &&& edge.2.num_channels@ == 1
    &&& edge.2.uid == 0
}

/// The index of the first occurrence of `x` in `s`.
pub open spec fn first_index_of(s: Seq<u128>, x: u128) -> int {
    choose|i: int| 0 <= i < s.len() && s[i] == x && forall|j: int| 0 <= j < i ==> s[j] != x
}

/// An index at which `x` occurs first is the one `first_index_of` names.
pub proof fn lemma_first_index_of(s: Seq<u128>, x: u128, i: int)
    requires
        0 <= i < s.len(),
        s[i] == x,
        forall|j: int| 0 <= j < i ==> s[j] != x,
    ensures
        first_index_of(s, x) == i,
{
    let k = first_index_of(s, x);
    assert(0 <= k < s.len() && s[k] == x && forall|j: int| 0 <= j < k ==> s[j] != x);
    if k < i {
        assert(s[k] != x);
    }
    if i < k {
        assert(s[i] != x);
    }
}

impl AudioContextInner {
    /// The nodes, by index.
    pub closed spec fn nodes(&self) -> Seq<NodeInfo> {
        graph_nodes(self.graph)
    }

    /// The connections, by index.
    pub closed spec fn edges(&self) -> Seq<(usize, usize, Connection)> {
        graph_edges(self.graph)
    }

    /// The uuid of each node, by index.
    pub closed spec fn node_uuid_list(&self) -> Seq<u128> {
        self.uuids@
    }

    /// The input nodes, in the order they were added.
    pub closed spec fn input_list(&self) -> Seq<usize> {
        self.inputs@
    }

    /// The cached visit order, if any.
    pub closed spec fn cached_visit_order(&self) -> Option<Seq<usize>> {
        match self.visit_order {
            Some(v) => Some(v@),
            None => None,
        }
    }

    /// The uuids that adding a node refuses.
    pub closed spec fn refused_uuids(&self) -> Set<u128> {
        self.node_uuids@
    }

    /// The context's invariant: one uuid per node, connections between
    /// existing nodes, the inputs listed in order. A cached visit order is
    /// kept as it was computed: adding nodes or connections does not
    /// refresh it.
    pub closed spec fn wf(&self) -> bool {
        let n = graph_nodes(self.graph).len();
        let edges = graph_edges(self.graph);
        &&& self.uuids@.len() == n
        &&& n <= u32::MAX
        &&& edges.len() <= u32::MAX
        &&& forall|e: int| 0 <= e < edges.len() ==> #[trigger] edges[e].0 < n && edges[e].1 < n
        &&& lists_exactly(
            self.inputs@,
            n as int,
            |x: int| graph_nodes(self.graph)[x].node_type == NodeType::Input,
        )
    }

    /// An empty context.
    pub fn new() -> (r: Self)
        ensures
            r.wf(),
            r.nodes().len() == 0,
            r.edges().len() == 0,
            r.refused_uuids() == Set::<u128>::empty(),
            r.cached_visit_order() is None,
    {
        AudioContextInner {
            graph: graph_new(),
            node_uuids: HashSet::new(),
            uuids: Vec::new(),
            visit_order: None,
            inputs: Vec::new(),
        }
    }

    /// Adds a node with uuid `uuid`, unless the uuid is refused.
    pub fn add_node(&mut self, node: NodeInfo, uuid: u128) -> (r: &mut Self)
        requires
            old(self).wf(),
            old(self).nodes().len() < u32::MAX,
        ensures
            (*r).wf(),
            *final(self) == *final(r),
            old(self).refused_uuids().contains(uuid) ==> *r == *old(self),
            !old(self).refused_uuids().contains(uuid) ==> {
                &&& (*r).nodes() == old(self).nodes().push(node)
                &&& (*r).node_uuid_list() == old(self).node_uuid_list().push(uuid)
                &&& (*r).edges() == old(self).edges()
                &&& (*r).input_list() == if node.node_type == NodeType::Input {
                    old(self).input_list().push(old(self).nodes().len() as usize)
                } else {
                    old(self).input_list()
                }
                &&& (*r).refused_uuids() == old(self).refused_uuids()
                &&& (*r).cached_visit_order() == old(self).cached_visit_order()
            },
    {
        if self.node_uuids.contains(&uuid) {
            return self;
        }
        let ghost old_nodes = graph_nodes(self.graph);
        let is_input = node.node_type == NodeType::Input;
        let node_index = graph_add_node(&mut self.graph, node);
        self.uuids.push(uuid);
        if is_input {
            self.inputs.push(node_index);
        }
        proof {
            let nodes = graph_nodes(self.graph);
            crate::processor::lemma_lists_exactly_extend(
                old(self).inputs@,
                old_nodes.len() as int,
                |x: int| old_nodes[x].node_type == NodeType::Input,
                |x: int| nodes[x].node_type == NodeType::Input,
            );
        }
        self
    }

    /// The index of the first node with uuid `uuid`, if any.
    pub fn find_node_index(&self, uuid: u128) -> (r: Option<usize>)
        requires
            self.wf(),
        ensures
            match r {
                Some(i) => {
                    &&& i < self.node_uuid_list().len()
                    &&& self.node_uuid_list()[i as int] == uuid
                    &&& forall|j: int| 0 <= j < i ==> self.node_uuid_list()[j] != uuid
                },
                None => !self.node_uuid_list().contains(uuid),
            },
    {
        let mut i: usize = 0;
        while i < self.uuids.len()
            invariant
                i <= self.uuids@.len(),
                forall|j: int| 0 <= j < i ==> self.uuids@[j] != uuid,
            decreases self.uuids@.len() - i,
        {
            if self.uuids[i] == uuid {
                return Some(i);
            }
            i = i + 1;
        }
        None
    }

    /// Connects output `from_index` of the node with uuid `uuid_1` to input
    /// `to_index` of the node with uuid `uuid_2`, with a connection of one
    /// channel. Nothing is checked but that both nodes exist; where one does
    /// not, the context is left as it was.
    pub fn connect_nodes_with_indexes(&mut self, uuid_1: u128, from_index: usize, uuid_2: u128, to_index: usize) -> (r:
        &mut Self)
        requires
            old(self).wf(),
            old(self).edges().len() < u32::MAX,
        ensures
            (*r).wf(),
            *final(self) == *final(r),
            !(old(self).node_uuid_list().contains(uuid_1) && old(self).node_uuid_list().contains(uuid_2)) ==> *r
                == *old(self),
            old(self).node_uuid_list().contains(uuid_1) && old(self).node_uuid_list().contains(uuid_2) ==> {
                let a = first_index_of(old(self).node_uuid_list(), uuid_1);
                let b = first_index_of(old(self).node_uuid_list(), uuid_2);
                &&& (*r).edges().drop_last() == old(self).edges()
                &&& is_one_channel_edge((*r).edges().last(), a, b, from_index, to_index)
                &&& (*r).nodes() == old(self).nodes()
                &&& (*r).node_uuid_list() == old(self).node_uuid_list()
                &&& (*r).input_list() == old(self).input_list()
                &&& (*r).refused_uuids() == old(self).refused_uuids()
                &&& (*r).cached_visit_order() == old(self).cached_visit_order()
            },
    {
        let node_index_1 = match self.find_node_index(uuid_1) {
            Some(i) => i,
            None => return self,
        };
        let node_index_2 = match self.find_node_index(uuid_2) {
            Some(i) => i,
            None => return self,
        };
        proof {
            lemma_first_index_of(self.uuids@, uuid_1, node_index_1 as int);
            lemma_first_index_of(self.uuids@, uuid_2, node_index_2 as int);
        }
        let connection = Connection::from_indexes(NumChannels::new(1), from_index, to_index);
        let _edge_index = graph_add_edge(&mut self.graph, node_index_1, node_index_2, connection);
        proof {
            let edges = graph_edges(self.graph);
            assert forall|e: int| 0 <= e < edges.len() implies #[trigger] edges[e].0 < graph_nodes(self.graph).len()
                && edges[e].1 < graph_nodes(self.graph).len() by {
                if e < edges.len() - 1 {
                    assert(edges[e] == graph_edges(old(self).graph)[e]);
                }
            }
        }
        self
    }

    /// Connects the first output of the node with uuid `uuid_1` to the first
    /// input of the node with uuid `uuid_2`.
    pub fn connect_nodes(&mut self, uuid_1: u128, uuid_2: u128) -> (r: &mut Self)
        requires
            old(self).wf(),
            old(self).edges().len() < u32::MAX,
        ensures
            (*r).wf(),
            *final(self) == *final(r),
            !(old(self).node_uuid_list().contains(uuid_1) && old(self).node_uuid_list().contains(uuid_2)) ==> *r
                == *old(self),
            old(self).node_uuid_list().contains(uuid_1) && old(self).node_uuid_list().contains(uuid_2) ==> {
                let a = first_index_of(old(self).node_uuid_list(), uuid_1);
                let b = first_index_of(old(self).node_uuid_list(), uuid_2);
                &&& (*r).edges().drop_last() == old(self).edges()
                &&& is_one_channel_edge((*r).edges().last(), a, b, 0, 0)
                &&& (*r).nodes() == old(self).nodes()
                &&& (*r).node_uuid_list() == old(self).node_uuid_list()
                &&& (*r).input_list() == old(self).input_list()
                &&& (*r).refused_uuids() == old(self).refused_uuids()
                &&& (*r).cached_visit_order() == old(self).cached_visit_order()
            },
    {
        self.connect_nodes_with_indexes(uuid_1, 0, uuid_2, 0)
    }

    /// Computes and caches the order in which `run` visits the nodes: every
    /// node reachable from an input, each once, after all its parents. With
    /// no inputs the order is empty. The search gives up with
    /// `TooManyGraphVisits` after `MAX_GRAPH_VISITS` looks at a node, and the
    /// context is then left as it was.
    pub fn initialize_visit_order(&mut self) -> (r: Result<(), VisitOrderError>)
        requires
            old(self).wf(),
        ensures
            final(self).wf(),
            final(self).nodes() == old(self).nodes(),
            final(self).edges() == old(self).edges(),
            final(self).node_uuid_list() == old(self).node_uuid_list(),
            final(self).input_list() == old(self).input_list(),
            final(self).refused_uuids() == old(self).refused_uuids(),
            r is Ok ==> (final(self).cached_visit_order() matches Some(order) && is_visit_order(
                old(self).edges(),
                old(self).input_list(),
                order,
            )),
            r is Err ==> final(self).cached_visit_order() == old(self).cached_visit_order(),
            old(self).input_list().len() == 0 ==> (r is Ok && final(self).cached_visit_order() == Some(
                Seq::<usize>::empty(),
            )),
            acyclic(old(self).edges()) && parents_reachable(old(self).edges(), old(self).input_list()) && tri(
                old(self).nodes().len(),
            ) <= MAX_GRAPH_VISITS ==> r is Ok,
            (exists|lvl: spec_fn(int) -> nat, d: nat|
                #[trigger] layered(old(self).edges(), old(self).input_list(), lvl, d) && old(self).nodes().len() * (
                d + 1) <= MAX_GRAPH_VISITS) ==> r is Ok,
    {
        if self.inputs.len() == 0 {
            self.visit_order = Some(Vec::new());
            return Ok(());
        }
        proof {
            let n = graph_nodes(self.graph).len();
            assert forall|i: int| 0 <= i < self.inputs@.len() implies #[trigger] self.inputs@[i] < n by {
                assert(lists_exactly(self.inputs@, n as int, |x: int| graph_nodes(self.graph)[x].node_type == NodeType::Input));
            }
        }
        match compute_visit_order(&self.graph, &self.inputs) {
            Ok(order) => {
                self.visit_order = Some(order);
                Ok(())
            },
            Err(e) => Err(e),
        }
    }

    /// The cached visit order, if one has been computed.
    pub fn visit_order(&self) -> (r: Option<&Vec<usize>>)
        ensures
            match r {
                Some(order) => self.cached_visit_order() == Some(order@),
                None => self.cached_visit_order() is None,
            },
    {
        match &self.visit_order {
            Some(order) => Some(order),
            None => None,
        }
    }

    /// The number of nodes.
    pub fn node_count(&self) -> (r: usize)
        ensures
            r == self.nodes().len(),
    {
        graph_node_count(&self.graph)
    }

    /// The number of connections.
    pub fn edge_count(&self) -> (r: usize)
        ensures
            r == self.edges().len(),
    {
        graph_edge_count(&self.graph)
    }
}

} // verus!
