use std::collections::HashMap;

use amplitude::audio::client::{
    channel_sink_name, classify_node, create_channel_sink_command, pair_ports, PipeWireCommand, PipeWireState,
    PwAction, CHANNEL_SINK_PREFIX, MONITOR_SINK_NAME, STREAM_SINK_NAME,
};
use amplitude::audio::events::{AudioEvent, NodeType, PortDirection, PortInfo};
use amplitude::pipewire::global::{Global, ObjectKind};

fn props(pairs: &[(&str, &str)]) -> HashMap<String, String> {
    pairs.iter().map(|(k, v)| (k.to_string(), v.to_string())).collect()
}

fn global(id: u32, kind: ObjectKind, pairs: &[(&str, &str)]) -> Global {
    Global { id, kind, props: Some(props(pairs)) }
}

fn node(st: &mut PipeWireState, id: u32, name: &str, class: &str) -> Vec<AudioEvent> {
    st.handle_global_added(&global(id, ObjectKind::Node, &[("node.name", name), ("media.class", class)]))
}

fn port(st: &mut PipeWireState, id: u32, node_id: u32, dir: &str, channel: &str) -> Vec<AudioEvent> {
    st.handle_global_added(&global(
        id,
        ObjectKind::Port,
        &[("port.name", "p"), ("node.id", &node_id.to_string()), ("port.direction", dir), ("audio.channel", channel)],
    ))
}

fn links(actions: &[PwAction]) -> Vec<(u32, u32)> {
    actions
        .iter()
        .map(|a| match a {
            PwAction::CreateLink { output_port, input_port } => (*output_port, *input_port),
            other => panic!("unexpected action {:?}", other),
        })
        .collect()
}

fn port_info(id: u32, channel: Option<&str>) -> PortInfo {
    PortInfo {
        id,
        node_id: 1,
        name: "p".to_string(),
        direction: PortDirection::Output,
        channel: channel.map(|c| c.to_string()),
    }
}

#[test]
fn sink_names() {
    assert_eq!(MONITOR_SINK_NAME, "amplitude-monitor");
    assert_eq!(STREAM_SINK_NAME, "amplitude-stream");
    assert_eq!(CHANNEL_SINK_PREFIX, "amplitude-channel-");
    assert_eq!(channel_sink_name("Games"), "amplitude-channel-Games");
    match create_channel_sink_command("Games") {
        PipeWireCommand::CreateVirtualSink { name, description } => {
            assert_eq!(name, "amplitude-channel-Games");
            assert_eq!(description, "Amplitude Channel: Games");
        }
        other => panic!("unexpected {:?}", other),
    }
}

#[test]
fn classify_media_classes() {
    assert_eq!(classify_node("Stream/Output/Audio"), NodeType::ApplicationOutput);
    assert_eq!(classify_node("Stream/Input/Audio"), NodeType::ApplicationInput);
    assert_eq!(classify_node("Audio/Sink"), NodeType::SinkDevice);
    assert_eq!(classify_node("Audio/Source"), NodeType::SourceDevice);
    assert_eq!(classify_node("Audio/Sink/Virtual"), NodeType::Virtual);
    assert_eq!(classify_node("Audio/Source/Virtual"), NodeType::Virtual);
    assert_eq!(classify_node("Video/Source"), NodeType::Unknown);
}

#[test]
fn pairing_takes_the_first_matching_channel() {
    let src = [port_info(1, Some("FL")), port_info(2, Some("FR")), port_info(3, None), port_info(4, Some("LFE"))];
    let dst = [port_info(10, Some("FR")), port_info(11, Some("FL")), port_info(12, None)];
    let s: Vec<&PortInfo> = src.iter().collect();
    let d: Vec<&PortInfo> = dst.iter().collect();
    assert_eq!(pair_ports(&s, &d), vec![(1, 11), (2, 10), (3, 10), (4, 12)]);
    let none: Vec<&PortInfo> = Vec::new();
    assert!(pair_ports(&s, &none).is_empty());
}

#[test]
fn nodes_ports_and_links_are_recorded() {
    let mut st = PipeWireState::new();
    let ev = node(&mut st, 40, "firefox", "Stream/Output/Audio");
    assert_eq!(ev.len(), 1);
    match &ev[0] {
        AudioEvent::NodeAdded(n) => {
            assert_eq!(n.id, 40);
            assert_eq!(n.name, "firefox");
            assert_eq!(n.node_type, NodeType::ApplicationOutput);
            assert_eq!(n.media_class, "Stream/Output/Audio");
        }
        other => panic!("unexpected {:?}", other),
    }
    // A node of no interest is ignored.
    assert!(node(&mut st, 41, "camera", "Video/Source").is_empty());
    assert!(!st.nodes.contains_key(&41));
    // A node without a name is called Unknown.
    let ev = st.handle_global_added(&global(42, ObjectKind::Node, &[("media.class", "Audio/Sink")]));
    match &ev[0] {
        AudioEvent::NodeAdded(n) => assert_eq!(n.name, "Unknown"),
        other => panic!("unexpected {:?}", other),
    }
    let ev = port(&mut st, 100, 40, "out", "FL");
    match &ev[0] {
        AudioEvent::PortAdded(p) => {
            assert_eq!((p.id, p.node_id, p.direction), (100, 40, PortDirection::Output));
            assert_eq!(p.channel.as_deref(), Some("FL"));
        }
        other => panic!("unexpected {:?}", other),
    }
    // A port without a known direction is ignored.
    assert!(port(&mut st, 101, 40, "sideways", "FL").is_empty());
    let ev = st.handle_global_added(&global(
        200,
        ObjectKind::Link,
        &[("link.output.port", "100"), ("link.input.port", "7"), ("link.output.node", "40"), ("link.input.node", "x")],
    ));
    match &ev[0] {
        AudioEvent::LinkAdded(l) => {
            assert_eq!((l.id, l.output_port, l.input_port, l.output_node, l.input_node), (200, 100, 7, 40, 0));
        }
        other => panic!("unexpected {:?}", other),
    }
    assert_eq!(st.get_links_from_node(40), vec![200]);
    // Globals without properties, or of other types, are ignored.
    assert!(st.handle_global_added(&Global { id: 300, kind: ObjectKind::Node, props: None }).is_empty());
    assert!(st.handle_global_added(&global(301, ObjectKind::Other, &[("media.class", "Audio/Sink")])).is_empty());
}

#[test]
fn removing_a_node_takes_its_ports() {
    let mut st = PipeWireState::new();
    node(&mut st, 40, "firefox", "Stream/Output/Audio");
    port(&mut st, 100, 40, "out", "FL");
    port(&mut st, 101, 40, "out", "FR");
    port(&mut st, 102, 50, "in", "FL");
    let ev = st.handle_global_removed(40);
    assert!(matches!(ev.as_slice(), [AudioEvent::NodeRemoved { id: 40 }]));
    assert!(!st.ports.contains_key(&100) && !st.ports.contains_key(&101));
    assert!(st.ports.contains_key(&102));
    let ev = st.handle_global_removed(102);
    assert!(matches!(ev.as_slice(), [AudioEvent::PortRemoved { id: 102, node_id: 50 }]));
    assert!(st.get_input_ports(50).is_empty());
    assert!(st.handle_global_removed(999).is_empty());
}

#[test]
fn removing_a_link_takes_it_off_its_port() {
    let mut st = PipeWireState::new();
    node(&mut st, 40, "firefox", "Stream/Output/Audio");
    port(&mut st, 100, 40, "out", "FL");
    st.handle_global_added(&global(200, ObjectKind::Link, &[("link.output.port", "100")]));
    st.handle_global_added(&global(201, ObjectKind::Link, &[("link.output.port", "100")]));
    assert_eq!(st.get_links_from_node(40), vec![200, 201]);
    let ev = st.handle_global_removed(200);
    assert!(matches!(ev.as_slice(), [AudioEvent::LinkRemoved { id: 200 }]));
    assert_eq!(st.get_links_from_node(40), vec![201]);
}

#[test]
fn mixer_sinks_are_noted_when_discovered() {
    let mut st = PipeWireState::new();
    let ev = node(&mut st, 60, "amplitude-monitor", "Audio/Sink");
    assert_eq!(ev.len(), 2);
    match &ev[0] {
        AudioEvent::VirtualSinkDiscovered(v) => {
            assert_eq!(v.id, 60);
            assert_eq!(v.name, "amplitude-monitor");
        }
        other => panic!("unexpected {:?}", other),
    }
    assert!(st.has_virtual_sink("amplitude-monitor"));
    node(&mut st, 61, "amplitude-channel-Games", "Audio/Sink");
    assert!(st.has_virtual_sink("amplitude-channel-Games"));
    node(&mut st, 62, "alsa_output.pci", "Audio/Sink");
    assert!(!st.has_virtual_sink("alsa_output.pci"));
    let actions = st.handle_command(PipeWireCommand::CheckVirtualSinks);
    match actions.as_slice() {
        [PwAction::Emit(AudioEvent::VirtualSinksStatus { monitor_exists, stream_exists, monitor_id, stream_id })] => {
            assert!(*monitor_exists && !*stream_exists);
            assert_eq!((*monitor_id, *stream_id), (Some(60), None));
        }
        other => panic!("unexpected {:?}", other),
    }
    // An existing sink is not created again.
    let again = st.handle_command(PipeWireCommand::CreateVirtualSink {
        name: "amplitude-monitor".to_string(),
        description: "Amplitude Monitor Output".to_string(),
    });
    assert!(again.is_empty());
    let fresh = st.handle_command(PipeWireCommand::CreateVirtualSink {
        name: "amplitude-stream".to_string(),
        description: "Amplitude Stream Output".to_string(),
    });
    assert!(matches!(fresh.as_slice(), [PwAction::CreateNullSink { name, .. }] if name == "amplitude-stream"));
}

#[test]
fn routing_links_matching_channels() {
    let mut st = PipeWireState::new();
    node(&mut st, 40, "firefox", "Stream/Output/Audio");
    node(&mut st, 61, "amplitude-channel-Games", "Audio/Sink");
    port(&mut st, 100, 40, "out", "FL");
    port(&mut st, 101, 40, "out", "FR");
    port(&mut st, 110, 61, "in", "FR");
    port(&mut st, 111, 61, "in", "FL");
    port(&mut st, 112, 61, "out", "FL");
    let a = st.handle_command(PipeWireCommand::RouteAppToSink { app_node_id: 40, sink_node_id: 61 });
    assert_eq!(links(&a), vec![(100, 111), (101, 110)]);
    let b = st.handle_command(PipeWireCommand::RouteAppToChannelByName {
        app_node_id: 40,
        channel_name: "Games".to_string(),
    });
    assert_eq!(links(&b), vec![(100, 111), (101, 110)]);
    let c = st.handle_command(PipeWireCommand::RouteAppToChannelByName {
        app_node_id: 40,
        channel_name: "Nope".to_string(),
    });
    assert!(c.is_empty());
    // Without the bus sinks, routing to them asks for nothing.
    assert!(st.handle_command(PipeWireCommand::RouteAppToVirtualSinks { app_node_id: 40 }).is_empty());
    let d = st.handle_command(PipeWireCommand::CreateLink { output_port: 1, input_port: 2 });
    assert_eq!(links(&d), vec![(1, 2)]);
    assert!(st.handle_command(PipeWireCommand::DestroyLink { link_id: 3 }).is_empty());
    assert!(st.handle_command(PipeWireCommand::Shutdown).is_empty());
    assert!(st
        .handle_command(PipeWireCommand::SetChannelVolume { channel_name: "Games".to_string(), volume: 0.5f32.to_bits() })
        .is_empty());
}

#[test]
fn channel_sinks_connect_to_both_buses() {
    let mut st = PipeWireState::new();
    node(&mut st, 60, "amplitude-monitor", "Audio/Sink");
    node(&mut st, 61, "amplitude-stream", "Audio/Sink");
    node(&mut st, 62, "amplitude-channel-Games", "Audio/Sink");
    port(&mut st, 120, 62, "out", "FL");
    port(&mut st, 121, 62, "out", "FR");
    port(&mut st, 130, 60, "in", "FL");
    port(&mut st, 131, 60, "in", "FR");
    port(&mut st, 140, 61, "in", "FL");
    port(&mut st, 141, 61, "in", "FR");
    let a = st.handle_command(PipeWireCommand::ConnectChannelToOutputs {
        channel_sink_id: 62,
        monitor_sink_id: 60,
        stream_sink_id: 61,
    });
    assert_eq!(links(&a), vec![(120, 130), (121, 131), (120, 140), (121, 141)]);
    // No default output yet: the monitor is not connected.
    assert!(st.handle_command(PipeWireCommand::ConnectSinkToOutput { sink_node_id: 60 }).is_empty());
}

#[test]
fn default_output_prefers_hardware() {
    let mut st = PipeWireState::new();
    node(&mut st, 1, "amplitude-monitor", "Audio/Sink");
    node(&mut st, 2, "null-sink-0", "Audio/Sink");
    node(&mut st, 3, "bluez_output.headset", "Audio/Sink");
    node(&mut st, 4, "alsa_output.pci-analog", "Audio/Sink");
    assert!(st.handle_command(PipeWireCommand::FindDefaultOutput).is_empty());
    assert_eq!(st.default_output_id, Some(4));
    let mut other = PipeWireState::new();
    node(&mut other, 1, "amplitude-monitor", "Audio/Sink");
    node(&mut other, 3, "bluez_output.headset", "Audio/Sink");
    other.find_default_output();
    assert_eq!(other.default_output_id, Some(3));
    let mut none = PipeWireState::new();
    node(&mut none, 2, "null-sink-0", "Audio/Sink");
    none.find_default_output();
    assert_eq!(none.default_output_id, None);
    // Once known, the monitor is wired to it.
    port(&mut st, 10, 1, "out", "FL");
    port(&mut st, 20, 4, "in", "FL");
    let a = st.handle_command(PipeWireCommand::ConnectSinkToOutput { sink_node_id: 1 });
    assert_eq!(links(&a), vec![(10, 20)]);
}
