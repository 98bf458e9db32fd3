use amplitude::audio::events::{AudioEvent, NodeInfo, NodeType, PortDirection, PortInfo};
use amplitude::audio::nodes::NodeManager;

fn node(id: u32, t: NodeType, app: Option<&str>, desc: Option<&str>) -> NodeInfo {
    NodeInfo {
        id,
        name: format!("node{}", id),
        description: desc.map(|d| d.to_string()),
        application_name: app.map(|a| a.to_string()),
        media_class: String::new(),
        node_type: t,
    }
}

fn port(id: u32, node_id: u32, d: PortDirection) -> PortInfo {
    PortInfo { id, node_id, name: format!("port{}", id), direction: d, channel: None }
}

fn ids(v: Vec<&NodeInfo>) -> Vec<u32> {
    let mut out: Vec<u32> = v.iter().map(|n| n.id).collect();
    out.sort();
    out
}

#[test]
fn nodes_are_sorted_by_type() {
    let mut nm = NodeManager::new();
    nm.handle_event(&AudioEvent::NodeAdded(node(1, NodeType::ApplicationOutput, Some("Firefox"), None)));
    nm.handle_event(&AudioEvent::NodeAdded(node(2, NodeType::ApplicationInput, None, None)));
    nm.handle_event(&AudioEvent::NodeAdded(node(3, NodeType::SinkDevice, None, Some("Speakers"))));
    nm.handle_event(&AudioEvent::NodeAdded(node(4, NodeType::SourceDevice, None, None)));
    nm.handle_event(&AudioEvent::NodeAdded(node(5, NodeType::SinkDevice, None, None)));
    assert_eq!(ids(nm.get_playback_applications()), vec![1]);
    assert_eq!(ids(nm.get_recording_applications()), vec![2]);
    assert_eq!(ids(nm.get_output_devices()), vec![3, 5]);
    assert_eq!(ids(nm.get_input_devices()), vec![4]);
    assert_eq!(ids(nm.all_nodes()), vec![1, 2, 3, 4, 5]);
}

#[test]
fn node_display_names_fall_back() {
    let mut nm = NodeManager::new();
    nm.handle_event(&AudioEvent::NodeAdded(node(1, NodeType::ApplicationOutput, Some("Firefox"), Some("d"))));
    nm.handle_event(&AudioEvent::NodeAdded(node(2, NodeType::SinkDevice, None, Some("Speakers"))));
    nm.handle_event(&AudioEvent::NodeAdded(node(3, NodeType::SinkDevice, None, None)));
    assert_eq!(nm.get_display_name(1), "Firefox");
    assert_eq!(nm.get_display_name(2), "Speakers");
    assert_eq!(nm.get_display_name(3), "node3");
    assert_eq!(nm.get_display_name(9), "Unknown");
}

#[test]
fn ports_follow_their_node() {
    let mut nm = NodeManager::new();
    nm.handle_event(&AudioEvent::NodeAdded(node(1, NodeType::ApplicationOutput, None, None)));
    nm.handle_event(&AudioEvent::PortAdded(port(10, 1, PortDirection::Output)));
    nm.handle_event(&AudioEvent::PortAdded(port(11, 1, PortDirection::Input)));
    nm.handle_event(&AudioEvent::PortAdded(port(12, 1, PortDirection::Output)));
    let outs: Vec<u32> = nm.get_output_ports(1).iter().map(|p| p.id).collect();
    assert_eq!(outs, vec![10, 12]);
    let ins: Vec<u32> = nm.get_input_ports(1).iter().map(|p| p.id).collect();
    assert_eq!(ins, vec![11]);
    assert_eq!(nm.get_node_ports(1).len(), 3);
    nm.handle_event(&AudioEvent::PortRemoved { id: 10, node_id: 1 });
    let outs: Vec<u32> = nm.get_output_ports(1).iter().map(|p| p.id).collect();
    assert_eq!(outs, vec![12]);
    nm.handle_event(&AudioEvent::NodeRemoved { id: 1 });
    assert!(nm.get_node(1).is_none());
    assert!(nm.get_node_ports(1).is_empty());
    // A later port of another node is unaffected.
    nm.handle_event(&AudioEvent::PortAdded(port(20, 2, PortDirection::Input)));
    assert_eq!(nm.get_input_ports(2).len(), 1);
}

#[test]
fn changed_nodes_replace_the_old_record() {
    let mut nm = NodeManager::new();
    nm.handle_event(&AudioEvent::NodeAdded(node(1, NodeType::ApplicationOutput, Some("A"), None)));
    nm.handle_event(&AudioEvent::NodeChanged(node(1, NodeType::ApplicationOutput, Some("B"), None)));
    assert_eq!(nm.get_display_name(1), "B");
    nm.handle_event(&AudioEvent::Ready);
    assert_eq!(nm.all_nodes().len(), 1);
}
