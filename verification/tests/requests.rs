use resonix::dac_config::DACConfig;
use resonix::messages::{AddNodeError, ConnectError, MessageError, ProcessorMessageResponse, UpdateNodeError};
use resonix::requests::{
    add_node_response_result, answers, connect_response_result, update_node_response_result, RequestIds,
};

#[test]
fn request_ids_count_up_and_wrap() {
    let mut ids = RequestIds::new();
    assert_eq!(ids.new_request_id(), 1);
    assert_eq!(ids.new_request_id(), 2);
    let mut ids = RequestIds::new();
    for _ in 0..3 {
        ids.new_request_id();
    }
    assert_eq!(ids.new_request_id(), 4);
}

#[test]
fn responses_are_matched_by_id() {
    let response = ProcessorMessageResponse::Connect { request_id: 9, result: Ok(2) };
    assert!(answers(&response, 9));
    assert!(!answers(&response, 8));
}

#[test]
fn responses_are_read_for_their_request() {
    assert_eq!(connect_response_result(ProcessorMessageResponse::Connect { request_id: 1, result: Ok(5) }), Ok(5));
    assert_eq!(
        connect_response_result(ProcessorMessageResponse::Connect {
            request_id: 1,
            result: Err(ConnectError::NodeUidNotFound { node_uid: 3 }),
        }),
        Err(MessageError::ConnectError(ConnectError::NodeUidNotFound { node_uid: 3 }))
    );
    assert_eq!(
        connect_response_result(ProcessorMessageResponse::UpdateNode { request_id: 1, result: Ok(()) }),
        Err(MessageError::WrongResponseReceived)
    );
    assert_eq!(
        add_node_response_result(ProcessorMessageResponse::AddNode { request_id: 6, result: Ok(4) }),
        Ok((4, 6))
    );
    assert_eq!(
        add_node_response_result(ProcessorMessageResponse::AddNode {
            request_id: 6,
            result: Err(AddNodeError::AlreadyExists { name: String::from("x") }),
        }),
        Err(MessageError::AddNodeError(AddNodeError::AlreadyExists { name: String::from("x") }))
    );
    assert_eq!(
        add_node_response_result(ProcessorMessageResponse::Connect { request_id: 6, result: Ok(0) }),
        Err(MessageError::WrongResponseReceived)
    );
    assert_eq!(update_node_response_result(ProcessorMessageResponse::UpdateNode { request_id: 2, result: Ok(()) }), Ok(()));
    assert_eq!(
        update_node_response_result(ProcessorMessageResponse::UpdateNode {
            request_id: 2,
            result: Err(UpdateNodeError::WrongNodeType { uid: 1 }),
        }),
        Err(MessageError::UpdateNodeError(UpdateNodeError::WrongNodeType { uid: 1 }))
    );
    assert_eq!(
        update_node_response_result(ProcessorMessageResponse::AddNode { request_id: 2, result: Ok(0) }),
        Err(MessageError::WrongResponseReceived)
    );
    assert_eq!(
        MessageError::from(UpdateNodeError::NodeNotFound { uid: 2 }),
        MessageError::UpdateNodeError(UpdateNodeError::NodeNotFound { uid: 2 })
    );
}

#[test]
fn mock_dac_config_defaults() {
    let config = DACConfig::from_defaults().unwrap();
    assert_eq!(config.num_channels(), 2);
    assert_eq!(config.sample_rate(), 44100);
    assert_eq!(config.num_frames(), u32::MAX);
    let config = DACConfig::from_data(6, 48000, 512).unwrap();
    assert_eq!((config.num_channels(), config.sample_rate(), config.num_frames()), (6, 48000, 512));
}
