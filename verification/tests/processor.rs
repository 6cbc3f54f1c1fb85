use resonix::messages::{AddNodeError, ConnectError, ProcessorMessageRequest, ProcessorMessageResponse, UpdateNodeError};
use resonix::node::{NodeInfo, NodeType};
use resonix::nodes::{Downmixer, DownmixNode, MulticoreNode, PassThroughNode};
use resonix::processor::{run_processor_message, Processor};
use resonix::units::NumChannels;

fn node(name: &str, node_type: NodeType, inputs: usize, outputs: usize, channels: usize) -> NodeInfo {
    NodeInfo {
        uid: 0,
        name: String::from(name),
        node_type,
        num_input_connections: inputs,
        num_output_connections: outputs,
        num_incoming_channels: NumChannels::new(channels),
        num_outgoing_channels: NumChannels::new(channels),
        is_dac: false,
        requires_audio_updates: false,
    }
}

#[test]
fn rejects_connection_to_self() {
    let mut processor = Processor::default();

    let pass_through_node = PassThroughNode::new(NumChannels::new(1));

    let uid = processor.add_node(pass_through_node.info()).unwrap();

    let result = processor.connect(uid, uid);

    assert!(result.is_err());
}

#[test]
fn rejects_single_edge_cyclical_connection() {
    let mut processor = Processor::default();

    let pass_through_node_a: PassThroughNode = PassThroughNode::new(NumChannels::new(1));
    let pass_through_node_b: PassThroughNode = PassThroughNode::new(NumChannels::new(1));

    let pass_through_node_a_uid = processor.add_node(pass_through_node_a.info()).unwrap();
    let pass_through_node_b_uid = processor.add_node(pass_through_node_b.info()).unwrap();

    processor.connect(pass_through_node_a_uid, pass_through_node_b_uid).unwrap();
    let result = processor.connect(pass_through_node_b_uid, pass_through_node_a_uid);

    assert!(matches!(result, Err(ConnectError::GraphCycleFound { .. })));
}

#[test]
fn rejects_multi_edge_cyclical_connection() {
    let mut processor = Processor::default();

    let pass_through_node_a: PassThroughNode = PassThroughNode::new(NumChannels::new(1));
    let pass_through_node_b: PassThroughNode = PassThroughNode::new(NumChannels::new(1));
    let pass_through_node_c: PassThroughNode = PassThroughNode::new(NumChannels::new(1));
    let pass_through_node_d: PassThroughNode = PassThroughNode::new(NumChannels::new(1));

    let pass_through_node_a_uid = processor.add_node(pass_through_node_a.info()).unwrap();
    let pass_through_node_b_uid = processor.add_node(pass_through_node_b.info()).unwrap();
    let pass_through_node_c_uid = processor.add_node(pass_through_node_c.info()).unwrap();
    let pass_through_node_d_uid = processor.add_node(pass_through_node_d.info()).unwrap();

    processor.connect(pass_through_node_a_uid, pass_through_node_b_uid).unwrap();
    processor.connect(pass_through_node_b_uid, pass_through_node_c_uid).unwrap();
    processor.connect(pass_through_node_c_uid, pass_through_node_d_uid).unwrap();
    let result = processor.connect(pass_through_node_d_uid, pass_through_node_a_uid);

    assert!(matches!(result, Err(ConnectError::GraphCycleFound { .. })));
}

#[test]
fn add_node_gives_consecutive_uids_and_refuses_a_node_with_a_uid() {
    let mut processor = Processor::new();
    assert_eq!(processor.add_node(node("a", NodeType::Input, 0, 1, 1)), Ok(0));
    assert_eq!(processor.add_node(node("b", NodeType::Effect, 1, 1, 1)), Ok(1));
    assert_eq!(processor.node_count(), 2);
    assert_eq!(processor.node_info(1).unwrap().uid, 1);
    assert_eq!(processor.input_node_indexes(), &vec![0]);

    let mut owned = node("c", NodeType::Effect, 1, 1, 1);
    owned.uid = 7;
    assert_eq!(
        processor.add_node(owned),
        Err(AddNodeError::NodeAlreadyAssociatedToContext { name: String::from("c") })
    );
    assert_eq!(processor.node_count(), 2);
}

#[test]
fn connect_reports_each_refusal() {
    let mut processor = Processor::new();
    let source = processor.add_node(node("source", NodeType::Input, 0, 1, 2)).unwrap();
    let mono = processor.add_node(node("mono", NodeType::Effect, 1, 1, 1)).unwrap();
    let stereo = processor.add_node(node("stereo", NodeType::Effect, 1, 1, 2)).unwrap();

    assert_eq!(processor.connect(source, 9), Err(ConnectError::NodeUidNotFound { node_uid: 9 }));
    assert_eq!(processor.connect(9, source), Err(ConnectError::NodeUidNotFound { node_uid: 9 }));
    assert_eq!(
        processor.connect(source, mono),
        Err(ConnectError::IncompatibleNumChannels {
            parent_node_num_outgoing_channels: NumChannels::new(2),
            child_node_num_incoming_channels: NumChannels::new(1),
            parent_node_name: String::from("source"),
            child_node_name: String::from("mono"),
        })
    );
    // a node without outputs cannot be a parent: the largest allowed
    // `from_index` is reported as 0
    let sink = processor.add_node(node("sink", NodeType::Output, 1, 0, 1)).unwrap();
    assert!(processor.has_room_for_a_connection());
    assert_eq!(
        processor.connect(sink, mono),
        Err(ConnectError::IncorrectIndex {
            expected_from_index: 0,
            expected_to_index: 0,
            from_index: 0,
            to_index: 0,
            parent_node_name: String::from("sink"),
            child_node_name: String::from("mono"),
        })
    );
    assert_eq!(processor.edge_count(), 0);
    assert_eq!(processor.connect(source, stereo), Ok(0));
    assert_eq!(processor.edge_count(), 1);
    let connection = processor.connection(0).unwrap();
    assert_eq!(connection.num_channels, NumChannels::new(2));
    assert_eq!(processor.outgoing_connection_indexes(&source), Some(&vec![0]));
    assert_eq!(processor.incoming_connection_indexes(&stereo), Some(&vec![0]));
    assert_eq!(processor.incoming_connection_indexes(&source), None);
}

#[test]
fn refused_index_against_no_outputs_or_no_inputs_reports_zero() {
    let mut processor = Processor::new();
    // a recording node: inputs but no outputs
    let record = processor.add_node(node("record", NodeType::Output, 1, 0, 1)).unwrap();
    let effect = processor.add_node(node("effect", NodeType::Effect, 1, 1, 1)).unwrap();
    // a source node: no inputs
    let source = processor.add_node(node("source", NodeType::Input, 0, 1, 1)).unwrap();
    assert_eq!(
        processor.connect(record, effect),
        Err(ConnectError::IncorrectIndex {
            expected_from_index: 0,
            expected_to_index: 0,
            from_index: 0,
            to_index: 0,
            parent_node_name: String::from("record"),
            child_node_name: String::from("effect"),
        })
    );
    assert_eq!(
        processor.connect(effect, source),
        Err(ConnectError::IncorrectIndex {
            expected_from_index: 0,
            expected_to_index: 0,
            from_index: 0,
            to_index: 0,
            parent_node_name: String::from("effect"),
            child_node_name: String::from("source"),
        })
    );
    assert_eq!(processor.edge_count(), 0);
    assert_eq!(processor.connect(source, effect), Ok(0));
}

#[test]
fn visit_order_puts_parents_first() {
    let mut processor = Processor::new();
    let input = processor.add_node(node("in", NodeType::Input, 0, 1, 1)).unwrap();
    let left = processor.add_node(node("left", NodeType::Effect, 1, 1, 1)).unwrap();
    let right = processor.add_node(node("right", NodeType::Effect, 1, 1, 1)).unwrap();
    let mix = processor.add_node(node("mix", NodeType::Effect, 2, 1, 1)).unwrap();
    let lonely = processor.add_node(node("lonely", NodeType::Effect, 1, 1, 1)).unwrap();
    processor.connect(right, mix).unwrap();
    processor.connect(input, left).unwrap();
    processor.connect(left, right).unwrap();
    processor.connect(input, mix).unwrap();

    assert!(processor.visit_order().is_none());
    assert_eq!(processor.initialize_visit_order(), Ok(()));
    let order = processor.visit_order().unwrap().clone();
    assert_eq!(order.len(), 4);
    assert!(!order.contains(&(lonely as usize)));
    let pos = |x: u32| order.iter().position(|&y| y == x as usize).unwrap();
    assert!(pos(input) < pos(left));
    assert!(pos(left) < pos(right));
    assert!(pos(right) < pos(mix));
    assert!(pos(input) < pos(mix));

    // a new connection forgets the cached order
    processor.connect(input, lonely).unwrap();
    assert!(processor.visit_order().is_none());
}

#[test]
fn visit_order_without_inputs_is_empty() {
    let mut processor = Processor::new();
    processor.add_node(node("a", NodeType::Effect, 1, 1, 1)).unwrap();
    assert_eq!(processor.initialize_visit_order(), Ok(()));
    assert_eq!(processor.visit_order(), Some(&Vec::new()));
}

#[test]
fn finds_nodes_for_updates() {
    let mut processor = Processor::new();
    let uid = processor.add_node(node("a", NodeType::Effect, 1, 1, 1)).unwrap();
    assert_eq!(processor.find_node_for_update(uid), Ok(0));
    assert_eq!(processor.find_node_for_update(5), Err(UpdateNodeError::NodeNotFound { uid: 5 }));
    assert_eq!(processor.node_index_by_uid(&uid), Some(0));
    assert_eq!(processor.node_index_by_uid(&5), None);
}

#[test]
fn processor_messages_are_answered_under_their_id() {
    let mut processor = Processor::new();
    let response = run_processor_message(
        &mut processor,
        ProcessorMessageRequest::AddNode { request_id: 3, node: node("a", NodeType::Input, 1, 1, 1) },
    );
    assert_eq!(response, ProcessorMessageResponse::AddNode { request_id: 3, result: Ok(0) });
    assert_eq!(response.request_id(), 3);
    let response = run_processor_message(
        &mut processor,
        ProcessorMessageRequest::AddNode { request_id: 4, node: node("b", NodeType::Effect, 1, 1, 1) },
    );
    assert_eq!(response, ProcessorMessageResponse::AddNode { request_id: 4, result: Ok(1) });
    let response = run_processor_message(
        &mut processor,
        ProcessorMessageRequest::Connect { request_id: 5, parent_node_uid: 0, child_node_uid: 1 },
    );
    assert_eq!(response, ProcessorMessageResponse::Connect { request_id: 5, result: Ok(0) });
    let response = run_processor_message(
        &mut processor,
        ProcessorMessageRequest::Connect { request_id: 6, parent_node_uid: 1, child_node_uid: 0 },
    );
    assert_eq!(response.request_id(), 6);
    assert!(matches!(
        response,
        ProcessorMessageResponse::Connect { result: Err(ConnectError::GraphCycleFound { .. }), .. }
    ));
    let response = run_processor_message(
        &mut processor,
        ProcessorMessageRequest::UpdateNode { request_id: 7, node_uid: 4 },
    );
    assert_eq!(
        response,
        ProcessorMessageResponse::UpdateNode { request_id: 7, result: Err(UpdateNodeError::NodeNotFound { uid: 4 }) }
    );
}

#[test]
fn nodes_describe_themselves_to_the_processor() {
    let downmix = DownmixNode::new(NumChannels::new(10), NumChannels::new(2), Downmixer::Panning);
    let info = downmix.info();
    assert_eq!(info.name, "DownmixNode");
    assert_eq!(info.num_incoming_channels, NumChannels::new(10));
    assert_eq!(info.num_outgoing_channels, NumChannels::new(2));
    assert_eq!(info.uid, 0);
    assert_eq!(downmix.downmixer(), Downmixer::Panning);
    assert_eq!(Downmixer::default(), Downmixer::Simple);

    let multicore = MulticoreNode::new_with_uid(4, 100);
    let info = multicore.info();
    assert_eq!(info.uid, 4);
    assert_eq!(info.num_input_connections, 100);
    assert_eq!(info.num_incoming_channels, NumChannels::new(1));
    assert_eq!(info.num_outgoing_channels, NumChannels::new(100));
    assert_eq!(multicore.name(), "MulticoreNode");

    let mut processor = Processor::new();
    let sources: Vec<u32> = (0..3)
        .map(|i| processor.add_node(node(&format!("s{}", i), NodeType::Input, 0, 1, 1)).unwrap())
        .collect();
    let combined = processor.add_node(MulticoreNode::new(3).info()).unwrap();
    // each source goes to the first input; the multicore node takes them all
    for s in &sources {
        assert!(processor.connect(*s, combined).is_ok());
    }
    assert_eq!(processor.incoming_connection_indexes(&combined), Some(&vec![0, 1, 2]));
}

#[test]
fn visit_order_waits_for_a_parent_found_later() {
    // the search meets `a` before its other parent `b`; `a` must wait
    let mut processor = Processor::new();
    let input = processor.add_node(node("in", NodeType::Input, 0, 1, 1)).unwrap();
    let a = processor.add_node(node("a", NodeType::Effect, 2, 1, 1)).unwrap();
    let b = processor.add_node(node("b", NodeType::Effect, 1, 1, 1)).unwrap();
    processor.connect(input, a).unwrap();
    processor.connect(input, b).unwrap();
    processor.connect(b, a).unwrap();
    assert_eq!(processor.initialize_visit_order(), Ok(()));
    assert_eq!(processor.visit_order(), Some(&vec![input as usize, b as usize, a as usize]));
}

#[test]
fn index_error_reports_the_largest_allowed_indexes() {
    // two inputs and one output: the largest allowed `from_index` is 0
    let multiply = node("MultiplyNode", NodeType::Effect, 2, 1, 1);
    let pass = node("PassThroughNode", NodeType::Effect, 1, 1, 1);
    assert!(multiply.connection_index_out_of_bounds(1, &pass, 0));
    assert_eq!(
        multiply.check_index_out_of_bounds(1, &pass, 0),
        Err(ConnectError::IncorrectIndex {
            expected_from_index: 0,
            expected_to_index: 0,
            from_index: 1,
            to_index: 0,
            parent_node_name: String::from("MultiplyNode"),
            child_node_name: String::from("PassThroughNode"),
        })
    );
    assert_eq!(pass.check_index_out_of_bounds(0, &multiply, 1), Ok(()));
    assert_eq!(
        pass.check_index_out_of_bounds(0, &multiply, 2),
        Err(ConnectError::IncorrectIndex {
            expected_from_index: 0,
            expected_to_index: 1,
            from_index: 0,
            to_index: 2,
            parent_node_name: String::from("PassThroughNode"),
            child_node_name: String::from("MultiplyNode"),
        })
    );
    // a source node (no inputs) with a bad `from_index` is reported too
    let source = node("source", NodeType::Input, 0, 1, 1);
    assert_eq!(
        source.check_index_out_of_bounds(1, &pass, 0),
        Err(ConnectError::IncorrectIndex {
            expected_from_index: 0,
            expected_to_index: 0,
            from_index: 1,
            to_index: 0,
            parent_node_name: String::from("source"),
            child_node_name: String::from("PassThroughNode"),
        })
    );
}

#[test]
fn visit_order_of_a_wide_shallow_graph() {
    // 400 nodes, two levels: far more than a pass-per-node bound allows
    let mut processor = Processor::new();
    let input = processor.add_node(node("in", NodeType::Input, 0, 1, 1)).unwrap();
    for i in 0..399 {
        let child = processor.add_node(node(&format!("c{}", i), NodeType::Effect, 1, 1, 1)).unwrap();
        processor.connect(input, child).unwrap();
    }
    assert_eq!(processor.initialize_visit_order(), Ok(()));
    let order = processor.visit_order().unwrap();
    assert_eq!(order.len(), 400);
    assert_eq!(order[0], input as usize);
}
