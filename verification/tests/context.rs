use resonix::context::AudioContextInner;
use resonix::node::{NodeInfo, NodeType};
use resonix::units::NumChannels;

fn node(name: &str, node_type: NodeType) -> NodeInfo {
    NodeInfo {
        uid: 0,
        name: String::from(name),
        node_type,
        num_input_connections: 1,
        num_output_connections: 1,
        num_incoming_channels: NumChannels::new(1),
        num_outgoing_channels: NumChannels::new(1),
        is_dac: false,
        requires_audio_updates: false,
    }
}

#[test]
fn context_connects_nodes_by_uuid() {
    let mut context = AudioContextInner::new();
    context.add_node(node("constant", NodeType::Input), 11);
    context.add_node(node("pass", NodeType::Effect), 22);
    context.add_node(node("record", NodeType::Output), 33);
    assert_eq!(context.find_node_index(22), Some(1));
    assert_eq!(context.find_node_index(44), None);

    context.connect_nodes(11, 22).connect_nodes_with_indexes(22, 0, 33, 0);
    // an unknown uuid leaves the graph as it was
    context.connect_nodes(11, 44);

    assert_eq!(context.initialize_visit_order(), Ok(()));
    assert_eq!(context.visit_order(), Some(&vec![0, 1, 2]));
    assert_eq!(context.edge_count(), 2);
}

#[test]
fn context_without_inputs_visits_nothing() {
    let mut context = AudioContextInner::new();
    context.add_node(node("pass", NodeType::Effect), 1);
    assert_eq!(context.initialize_visit_order(), Ok(()));
    assert_eq!(context.visit_order(), Some(&Vec::new()));
}
