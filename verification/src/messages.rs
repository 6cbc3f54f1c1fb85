use vstd::prelude::*;

use crate::node::{NodeInfo, NodeUid};
use crate::units::NumChannels;

verus! {

/// Why a node refused a connection.
#[derive(Debug, Clone, PartialEq, Eq, PartialOrd, Ord)]
pub enum AddConnectionError {
    CantAcceptInputConnections { name: String },
    CantAcceptOutputConnections { name: String },
}

/// Why two nodes could not be connected.
#[derive(Debug, Clone, PartialEq)]
pub enum ConnectError {
    NodeNotFound { node_index: usize },
    NodeUidNotFound { node_uid: NodeUid },
    IncorrectIndex {
        expected_from_index: usize,
        expected_to_index: usize,
        from_index: usize,
        to_index: usize,
        parent_node_name: String,
        child_node_name: String,
    },
    IncompatibleNumChannels {
        parent_node_num_outgoing_channels: NumChannels,
        child_node_num_incoming_channels: NumChannels,
        parent_node_name: String,
        child_node_name: String,
    },
    AddConnectionError(AddConnectionError),
    NoMatchingMessageReceived,
    GraphCycleFound { parent_node_name: String, child_node_name: String },
}

/// Why a node could not be added to the graph.
#[derive(Debug, Clone, PartialEq)]
pub enum AddNodeError {
    AlreadyExists { name: String },
    NodeAlreadyAssociatedToContext { name: String },
    NoMatchingMessageReceived,
}

/// Why a node could not be updated.
#[derive(Debug, Clone, Copy, PartialEq)]
pub enum UpdateNodeError {
    NodeNotFound { uid: NodeUid },
    WrongNodeType { uid: NodeUid },
}

/// Why no traversal order could be found for the graph.
#[derive(Debug, Clone, Copy, PartialEq, Eq)]
pub enum VisitOrderError {
    /// The search for an order visited nodes more often than the limit allows.
    TooManyGraphVisits,
}

/// Why a message between the main thread and the processor failed.
#[derive(Debug, PartialEq)]
pub enum MessageError {
    NoMatchingMessageReceived,
    WrongResponseReceived,
    ConnectError(ConnectError),
    AddNodeError(AddNodeError),
    UpdateNodeError(UpdateNodeError),
}

impl From<ConnectError> for MessageError {
    fn from(e: ConnectError) -> (r: Self) {
        MessageError::ConnectError(e)
    }
}

impl vstd::std_specs::convert::FromSpecImpl<ConnectError> for MessageError {
    open spec fn obeys_from_spec() -> bool {
        true
    }

    open spec fn from_spec(v: ConnectError) -> MessageError {
        MessageError::ConnectError(v)
    }
}

impl From<AddNodeError> for MessageError {
    fn from(e: AddNodeError) -> (r: Self) {
        MessageError::AddNodeError(e)
    }
}

impl vstd::std_specs::convert::FromSpecImpl<AddNodeError> for MessageError {
    open spec fn obeys_from_spec() -> bool {
        true
    }

    open spec fn from_spec(v: AddNodeError) -> MessageError {
        MessageError::AddNodeError(v)
    }
}

impl From<UpdateNodeError> for MessageError {
    fn from(e: UpdateNodeError) -> (r: Self) {
        MessageError::UpdateNodeError(e)
    }
}

impl vstd::std_specs::convert::FromSpecImpl<UpdateNodeError> for MessageError {
    open spec fn obeys_from_spec() -> bool {
        true
    }

    open spec fn from_spec(v: UpdateNodeError) -> MessageError {
        MessageError::UpdateNodeError(v)
    }
}

/// A change to the audio graph that the main thread asks of the processor
/// once the processor runs in the audio thread. An update names the node it
/// is meant for; what it changes is up to that node.
#[derive(Debug, PartialEq)]
pub enum ProcessorMessageRequest {
    AddNode { request_id: u32, node: NodeInfo },
    Connect { request_id: u32, parent_node_uid: NodeUid, child_node_uid: NodeUid },
    UpdateNode { request_id: u32, node_uid: NodeUid },
}

/// The processor's answer to a request, under the request's id.
#[derive(Debug, PartialEq)]
pub enum ProcessorMessageResponse {
    AddNode { request_id: u32, result: Result<NodeUid, AddNodeError> },
    Connect { request_id: u32, result: Result<usize, ConnectError> },
    UpdateNode { request_id: u32, result: Result<(), UpdateNodeError> },
}

impl ProcessorMessageRequest {
    /// The id the request was sent under.
    pub open spec fn spec_request_id(&self) -> u32 {
        match self {
            ProcessorMessageRequest::AddNode { request_id, .. } => *request_id,
            ProcessorMessageRequest::Connect { request_id, .. } => *request_id,
            ProcessorMessageRequest::UpdateNode { request_id, .. } => *request_id,
        }
    }
}

impl ProcessorMessageResponse {
    /// The id of the request this answers.
    pub open spec fn spec_request_id(&self) -> u32 {
        match self {
            ProcessorMessageResponse::AddNode { request_id, .. } => *request_id,
            ProcessorMessageResponse::Connect { request_id, .. } => *request_id,
            ProcessorMessageResponse::UpdateNode { request_id, .. } => *request_id,
        }
    }

    pub fn request_id(&self) -> (r: u32)
        ensures
            r == self.spec_request_id(),
    {
        match self {
            ProcessorMessageResponse::AddNode { request_id, .. } => *request_id,
            ProcessorMessageResponse::Connect { request_id, .. } => *request_id,
            ProcessorMessageResponse::UpdateNode { request_id, .. } => *request_id,
        }
    }
}

} // verus!
