use vstd::prelude::*;

use crate::messages::{MessageError, ProcessorMessageResponse};
use crate::node::NodeUid;

verus! {

/// Hands out the ids under which requests are sent to the processor: each
/// new id is the previous one plus one, wrapping around.
#[derive(Debug, Clone, Copy, PartialEq, Eq)]
pub struct RequestIds {
    request_id: u32,
}

impl RequestIds {
    /// The last id handed out (0 before the first).
    pub closed spec fn last(&self) -> u32 {
        self.request_id
    }

    pub fn new() -> (r: Self)
        ensures
            r.last() == 0,
    {
        RequestIds { request_id: 0 }
    }

    /// The next request id.
    pub fn new_request_id(&mut self) -> (r: u32)
        ensures
            r == old(self).last().wrapping_add(1),
            final(self).last() == r,
    {
        self.request_id = self.request_id.wrapping_add(1);
        self.request_id
    }
}

/// Whether `response` answers the request sent under `request_id`; other
/// responses are passed over while waiting.
pub fn answers(response: &ProcessorMessageResponse, request_id: u32) -> (r: bool)
    ensures
        r == (response.spec_request_id() == request_id),
{
    response.request_id() == request_id
}

/// The outcome of a connect request, read from its response.
pub fn connect_response_result(response: ProcessorMessageResponse) -> (r: Result<usize, MessageError>)
    ensures
        match response {
            ProcessorMessageResponse::Connect { result: Ok(index), .. } => r == Ok::<usize, MessageError>(index),
            ProcessorMessageResponse::Connect { result: Err(e), .. } => r == Err::<usize, MessageError>(
                MessageError::ConnectError(e),
            ),
            _ => r == Err::<usize, MessageError>(MessageError::WrongResponseReceived),
        },
{
    match response {
        ProcessorMessageResponse::Connect { result, .. } => match result {
            Ok(index) => Ok(index),
            Err(e) => Err(MessageError::ConnectError(e)),
        },
        _ => Err(MessageError::WrongResponseReceived),
    }
}

/// The outcome of an add-node request, read from its response: the new
/// node's uid and the request id it came under.
pub fn add_node_response_result(response: ProcessorMessageResponse) -> (r: Result<(NodeUid, u32), MessageError>)
    ensures
        match response {
            ProcessorMessageResponse::AddNode { result: Ok(uid), request_id } => r == Ok::<
                (NodeUid, u32),
                MessageError,
            >((uid, request_id)),
            ProcessorMessageResponse::AddNode { result: Err(e), .. } => r == Err::<(NodeUid, u32), MessageError>(
                MessageError::AddNodeError(e),
            ),
            _ => r == Err::<(NodeUid, u32), MessageError>(MessageError::WrongResponseReceived),
        },
{
    match response {
        ProcessorMessageResponse::AddNode { result, request_id } => match result {
            Ok(uid) => Ok((uid, request_id)),
            Err(e) => Err(MessageError::AddNodeError(e)),
        },
        _ => Err(MessageError::WrongResponseReceived),
    }
}

/// The outcome of an update request, read from its response.
pub fn update_node_response_result(response: ProcessorMessageResponse) -> (r: Result<(), MessageError>)
    ensures
        match response {
            ProcessorMessageResponse::UpdateNode { result: Ok(()), .. } => r == Ok::<(), MessageError>(()),
            ProcessorMessageResponse::UpdateNode { result: Err(e), .. } => r == Err::<(), MessageError>(
                MessageError::UpdateNodeError(e),
            ),
            _ => r == Err::<(), MessageError>(MessageError::WrongResponseReceived),
        },
{
    match response {
        ProcessorMessageResponse::UpdateNode { result, .. } => match result {
            Ok(()) => Ok(()),
            Err(e) => Err(MessageError::UpdateNodeError(e)),
        },
        _ => Err(MessageError::WrongResponseReceived),
    }
}

} // verus!
