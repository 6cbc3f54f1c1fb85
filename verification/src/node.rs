use vstd::prelude::*;

use crate::messages::ConnectError;
use crate::units::NumChannels;

verus! {

/// Identifier that the processor gives a node when it is added to the graph.
pub type NodeUid = u32;

/// The role a node plays in the audio graph.
#[derive(Debug, Copy, Clone, PartialEq, Eq, PartialOrd, Ord, Structural)]
pub enum NodeType {
    Input,
    Effect,
    Output,
}

/// What the processor needs to know of a node to place it in the graph:
/// its identity, its role and the shape of its connections.
#[derive(Debug, Clone, PartialEq)]
pub struct NodeInfo {
    pub uid: NodeUid,
    pub name: String,
    pub node_type: NodeType,
    pub num_input_connections: usize,
    pub num_output_connections: usize,
    pub num_incoming_channels: NumChannels,
    pub num_outgoing_channels: NumChannels,
    pub is_dac: bool,
    pub requires_audio_updates: bool,
}

/// The largest index below a count of `n` outputs or inputs; 0 when there
/// are none.
pub open spec fn largest_index(n: usize) -> usize {
    if n == 0 {
        0
    } else {
        (n - 1) as usize
    }
}

/// The error for a connection whose indexes do not fit: the largest
/// `from_index` the parent allows and the largest `to_index` the child allows
/// (each one less than the number of outputs or inputs, and 0 where there are
/// none), with the indexes asked for and the names.
pub open spec fn index_error(parent: NodeInfo, child: NodeInfo, from_index: usize, to_index: usize) -> ConnectError {
    ConnectError::IncorrectIndex {
        expected_from_index: largest_index(parent.num_output_connections),
        expected_to_index: largest_index(child.num_input_connections),
        from_index,
        to_index,
        parent_node_name: parent.name,
        child_node_name: child.name,
    }
}

/// The largest index below a count of `n`, or 0 when `n` is 0.
fn largest_index_below(n: usize) -> (r: usize)
    ensures
        r == largest_index(n),
{
    if n == 0 {
        0
    } else {
        n - 1
    }
}

impl NodeInfo {
    /// Whether this node has no output `from_index` or `other` no input
    /// `to_index`.
    pub fn connection_index_out_of_bounds(&self, from_index: usize, other: &NodeInfo, to_index: usize) -> (r: bool)
        ensures
            r == (from_index >= self.num_output_connections || to_index >= other.num_input_connections),
    {
        from_index >= self.num_output_connections || to_index >= other.num_input_connections
    }

    /// Refuses a connection from output `from_index` of this node to input
    /// `to_index` of `other` that either lacks.
    pub fn check_index_out_of_bounds(&self, from_index: usize, other: &NodeInfo, to_index: usize) -> (r: Result<
        (),
        ConnectError,
    >)
        ensures
            from_index >= self.num_output_connections || to_index >= other.num_input_connections ==> r
                == Err::<(), ConnectError>(index_error(*self, *other, from_index, to_index)),
            !(from_index >= self.num_output_connections || to_index >= other.num_input_connections) ==> r is Ok,
    {
        if self.connection_index_out_of_bounds(from_index, other, to_index) {
            return Err(
                ConnectError::IncorrectIndex {
                    expected_from_index: largest_index_below(self.num_output_connections),
                    expected_to_index: largest_index_below(other.num_input_connections),
                    from_index,
                    to_index,
                    parent_node_name: self.name.clone(),
                    child_node_name: other.name.clone(),
                },
            );
        }
        Ok(())
    }
}

/// The largest allowed index is one less than the count, and 0 when there
/// is nothing to index.
pub proof fn law_largest_index_is_one_below_the_count(n: usize)
    ensures
        n > 0 ==> largest_index(n) + 1 == n,
        n == 0 ==> largest_index(n) == 0,
{
}

/// An index error reports the indexes asked for, the names of the two
/// nodes, and the largest indexes they allow.
pub proof fn law_index_error_reports_the_request(parent: NodeInfo, child: NodeInfo, from_index: usize, to_index: usize)
    ensures
        index_error(parent, child, from_index, to_index) matches ConnectError::IncorrectIndex {
            expected_from_index: ef,
            expected_to_index: et,
            from_index: f,
            to_index: t,
            parent_node_name: pn,
            child_node_name: cn,
        } && f == from_index && t == to_index && pn == parent.name && cn == child.name
            && ef == largest_index(parent.num_output_connections) && et == largest_index(
            child.num_input_connections,
        ),
{
}

} // verus!
