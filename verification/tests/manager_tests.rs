use amplitude::audio::client::PipeWireCommand;
use amplitude::audio::events::{AudioEvent, NodeInfo, NodeType, PortDirection, PortInfo, VirtualSinkInfo};
use amplitude::audio::manager::{AudioManager, ManagerAction};
use amplitude::audio::nodes::NodeManager;

fn discovered(id: u32, name: &str) -> AudioEvent {
    AudioEvent::VirtualSinkDiscovered(VirtualSinkInfo { id, name: name.to_string(), description: None })
}

fn sent(actions: &[ManagerAction]) -> Vec<PipeWireCommand> {
    actions
        .iter()
        .filter_map(|a| match a {
            ManagerAction::Send(c) => Some(c.clone()),
            ManagerAction::Broadcast(_) => None,
        })
        .collect()
}

fn connects(cmds: &[PipeWireCommand]) -> Vec<(u32, u32, u32)> {
    cmds.iter()
        .filter_map(|c| match c {
            PipeWireCommand::ConnectChannelToOutputs { channel_sink_id, monitor_sink_id, stream_sink_id } => {
                Some((*channel_sink_id, *monitor_sink_id, *stream_sink_id))
            }
            _ => None,
        })
        .collect()
}

fn sink_names(cmds: &[PipeWireCommand]) -> Vec<(String, String)> {
    cmds.iter()
        .filter_map(|c| match c {
            PipeWireCommand::CreateVirtualSink { name, description } => Some((name.clone(), description.clone())),
            _ => None,
        })
        .collect()
}

#[test]
fn ready_asks_for_the_bus_sinks_and_startup_channels() {
    let mut m = AudioManager::new();
    m.set_startup_channels(vec!["Games".to_string(), "Music".to_string(), "Games".to_string()]);
    let actions = m.handle_event(&AudioEvent::Ready);
    let cmds = sent(&actions);
    assert_eq!(cmds.len(), 6);
    assert!(matches!(cmds[2], PipeWireCommand::FindDefaultOutput));
    assert_eq!(
        sink_names(&cmds),
        vec![
            ("amplitude-monitor".to_string(), "Amplitude Monitor Output".to_string()),
            ("amplitude-stream".to_string(), "Amplitude Stream Output".to_string()),
            ("amplitude-channel-Games".to_string(), "Amplitude Channel: Games".to_string()),
            ("amplitude-channel-Music".to_string(), "Amplitude Channel: Music".to_string()),
            ("amplitude-channel-Games".to_string(), "Amplitude Channel: Games".to_string()),
        ]
    );
    // The startup list is used once.
    let again = sent(&m.handle_event(&AudioEvent::Ready));
    assert_eq!(again.len(), 3);
}

#[test]
fn channel_sinks_are_wired_once_both_buses_are_known() {
    let mut m = AudioManager::new();
    assert!(m.create_channel_sink("Games").is_some());
    let before = m.handle_event(&discovered(70, "amplitude-channel-Games"));
    // No bus sink yet: only the discovery is broadcast.
    assert_eq!(before.len(), 1);
    match &before[0] {
        ManagerAction::Broadcast(AudioEvent::ChannelSinkDiscovered { name, id }) => {
            assert_eq!((name.as_str(), *id), ("Games", 70));
        }
        other => panic!("unexpected {:?}", other),
    }
    assert_eq!(m.get_channel_sink_id("Games"), Some(70));
    // A known sink is not asked for again.
    assert!(m.create_channel_sink("Games").is_none());
    let mon = sent(&m.handle_event(&discovered(60, "amplitude-monitor")));
    assert!(matches!(mon.as_slice(), [PipeWireCommand::ConnectSinkToOutput { sink_node_id: 60 }]));
    assert_eq!(m.monitor_sink_id(), Some(60));
    let st = sent(&m.handle_event(&discovered(61, "amplitude-stream")));
    assert_eq!(connects(&st), vec![(70, 60, 61)]);
    assert_eq!(m.stream_sink_id(), Some(61));
    // Nothing waits any more: a port of the channel sink changes nothing.
    let port = PortInfo { id: 5, node_id: 70, name: "p".to_string(), direction: PortDirection::Input, channel: None };
    assert!(m.handle_event(&AudioEvent::PortAdded(port)).is_empty());
}

#[test]
fn a_channel_sink_found_after_the_buses_is_wired_at_once() {
    let mut m = AudioManager::new();
    m.handle_event(&AudioEvent::VirtualSinksStatus {
        monitor_exists: true,
        stream_exists: true,
        monitor_id: Some(60),
        stream_id: Some(61),
    });
    let actions = m.handle_event(&discovered(80, "amplitude-channel-Voice"));
    assert_eq!(connects(&sent(&actions)), vec![(80, 60, 61)]);
    assert!(matches!(actions.last(), Some(ManagerAction::Broadcast(AudioEvent::ChannelSinkDiscovered { id: 80, .. }))));
}

#[test]
fn other_events_call_for_nothing() {
    let mut m = AudioManager::new();
    assert!(m.handle_event(&AudioEvent::NodeRemoved { id: 3 }).is_empty());
    assert!(m.handle_event(&discovered(9, "something-else")).is_empty());
    assert!(m.handle_event(&AudioEvent::Error("x".to_string())).is_empty());
}

#[test]
fn routing_requests() {
    let m = AudioManager::new();
    assert_eq!(m.route_to_monitor(4).unwrap_err(), "Monitor sink not available");
    assert_eq!(m.route_to_stream(4).unwrap_err(), "Stream sink not available");
    assert!(m.route_to_virtual_sinks(4).is_empty());
    let (cmds, res) = m.route_app_to_channel(4, "Games");
    assert!(matches!(cmds.as_slice(), [PipeWireCommand::DestroyLinksFromNode { node_id: 4 }]));
    assert_eq!(res.unwrap_err(), "Channel sink for 'Games' not found");
    assert!(matches!(m.connect_channel_sink_to_outputs(3), None));
    let mut m = AudioManager::new();
    m.handle_event(&AudioEvent::VirtualSinksStatus {
        monitor_exists: true,
        stream_exists: false,
        monitor_id: Some(60),
        stream_id: None,
    });
    assert!(matches!(m.route_to_monitor(4), Ok(PipeWireCommand::RouteAppToSink { app_node_id: 4, sink_node_id: 60 })));
    assert!(matches!(
        m.connect_channel_sink_to_outputs(3),
        Some(PipeWireCommand::ConnectChannelToOutputs { channel_sink_id: 3, monitor_sink_id: 60, stream_sink_id: 60 })
    ));
    assert_eq!(m.route_to_virtual_sinks(4).len(), 1);
    m.handle_event(&discovered(70, "amplitude-channel-Games"));
    let (cmds, res) = m.route_app_to_channel(4, "Games");
    assert!(res.is_ok());
    assert!(matches!(cmds[1], PipeWireCommand::RouteAppToSink { app_node_id: 4, sink_node_id: 70 }));
}

#[test]
fn route_to_sink_links_equal_channels() {
    let mut nm = NodeManager::new();
    let node = |id: u32, t: NodeType| NodeInfo {
        id,
        name: format!("n{}", id),
        description: None,
        application_name: None,
        media_class: String::new(),
        node_type: t,
    };
    nm.handle_event(&AudioEvent::NodeAdded(node(1, NodeType::ApplicationOutput)));
    nm.handle_event(&AudioEvent::NodeAdded(node(2, NodeType::SinkDevice)));
    let port = |id: u32, node_id: u32, d: PortDirection, ch: Option<&str>| PortInfo {
        id,
        node_id,
        name: "p".to_string(),
        direction: d,
        channel: ch.map(|c| c.to_string()),
    };
    nm.handle_event(&AudioEvent::PortAdded(port(10, 1, PortDirection::Output, Some("FL"))));
    nm.handle_event(&AudioEvent::PortAdded(port(11, 1, PortDirection::Output, None)));
    nm.handle_event(&AudioEvent::PortAdded(port(20, 2, PortDirection::Input, Some("FL"))));
    nm.handle_event(&AudioEvent::PortAdded(port(21, 2, PortDirection::Input, None)));
    nm.handle_event(&AudioEvent::PortAdded(port(22, 2, PortDirection::Input, Some("FL"))));
    let m = AudioManager::new();
    let cmds = m.route_to_sink(&nm, 1, 2);
    let pairs: Vec<(u32, u32)> = cmds
        .iter()
        .map(|c| match c {
            PipeWireCommand::CreateLink { output_port, input_port } => (*output_port, *input_port),
            other => panic!("unexpected {:?}", other),
        })
        .collect();
    assert_eq!(pairs, vec![(10, 20), (10, 22), (11, 21)]);
}

#[test]
fn simple_commands() {
    let m = AudioManager::new();
    assert!(matches!(m.request_route_to_virtual_sinks(3), PipeWireCommand::RouteAppToVirtualSinks { app_node_id: 3 }));
    match m.request_route_to_channel(3, "Games") {
        PipeWireCommand::RouteAppToChannelByName { app_node_id, channel_name } => {
            assert_eq!((app_node_id, channel_name.as_str()), (3, "Games"));
        }
        other => panic!("unexpected {:?}", other),
    }
    match m.set_channel_volume("Games", 0.5f32.to_bits()) {
        PipeWireCommand::SetChannelVolume { channel_name, volume } => {
            assert_eq!(channel_name, "Games");
            assert_eq!(f32::from_bits(volume), 0.5);
        }
        other => panic!("unexpected {:?}", other),
    }
    assert!(matches!(m.set_channel_muted("Games", true), PipeWireCommand::SetChannelMuted { muted: true, .. }));
    assert_eq!(sink_names(&[m.request_channel_sink("X")]), vec![(
        "amplitude-channel-X".to_string(),
        "Amplitude Channel: X".to_string()
    )]);
    assert_eq!(m.ensure_virtual_sinks().len(), 2);
}

#[test]
fn undelivered_wiring_is_tried_again() {
    let mut m = AudioManager::new();
    m.handle_event(&AudioEvent::VirtualSinksStatus {
        monitor_exists: true,
        stream_exists: true,
        monitor_id: Some(60),
        stream_id: Some(61),
    });
    let first = sent(&m.handle_event(&discovered(80, "amplitude-channel-Voice")));
    assert_eq!(connects(&first), vec![(80, 60, 61)]);
    // The command could not be sent: the sink waits again, and its next port
    // retries the wiring.
    m.requeue_connection(80);
    m.requeue_connection(80);
    let port = PortInfo { id: 5, node_id: 80, name: "p".to_string(), direction: PortDirection::Output, channel: None };
    let retry = sent(&m.handle_event(&AudioEvent::PortAdded(port)));
    assert_eq!(connects(&retry), vec![(80, 60, 61)]);
}
