use std::collections::HashMap;
use std::sync::mpsc::sync_channel;

use amplitude::audio::backend::{
    process_event, AppInfo as BackendAppInfo, AudioEvent as BackendAudioEvent, AudioNode,
    MediaClass as BackendMediaClass,
};
use amplitude::mixer::audio::backend::{BackendCommand, BackendEvent};
use amplitude::mixer::audio::node::MediaClass as MixerMediaClass;
use amplitude::mixer::backend::pipewire::{capitalise, PwThreadAction, PwThreadState, AMPLITUDE_PREFIX};
use amplitude::pipewire::global::{Global, ObjectKind};
use amplitude::pipewire::pw_core::{node_event, removal_event, stops_thread, PwCommand, PwEvent};
use amplitude::pipewire::pw_node::{AppInfo, MediaClass, PwNode};
use amplitude::pipewire::pw_registry::{NodeType, PwRegistry};
use amplitude::pipewire::pw_sink::{sink_node_name, PwSinkManager};

fn props(pairs: &[(&str, &str)]) -> HashMap<String, String> {
    pairs.iter().map(|(k, v)| (k.to_string(), v.to_string())).collect()
}

#[test]
fn media_classes() {
    assert_eq!(MediaClass::from_str("Audio/Sink"), MediaClass::AudioSink);
    assert_eq!(MediaClass::from_str("Stream/Input/Audio"), MediaClass::StreamInputAudio);
    assert_eq!(MediaClass::from_str("audio/sink"), MediaClass::Unknown);
    assert!(MediaClass::AudioSink.is_device() && MediaClass::AudioSink.is_output());
    assert!(MediaClass::StreamOutputAudio.is_stream() && MediaClass::StreamOutputAudio.is_output());
    assert!(MediaClass::AudioSource.is_input() && !MediaClass::AudioSource.is_stream());
    assert!(!MediaClass::Unknown.is_device() && !MediaClass::Unknown.is_input());
    assert_eq!(BackendMediaClass::from_str("Audio/Source"), BackendMediaClass::AudioSource);
    assert_eq!(BackendMediaClass::from_str("Midi/Bridge"), BackendMediaClass::Unknown);
    assert_eq!(MixerMediaClass::parse("Stream/Output/Audio"), MixerMediaClass::StreamOutputAudio);
    assert!(!MixerMediaClass::parse("Video/Source").is_relevant());
    assert!(MixerMediaClass::parse("Audio/Sink").is_relevant());
}

#[test]
fn display_names_fall_back() {
    let mut a = AppInfo { name: Some("Firefox".to_string()), binary: Some("firefox-bin".to_string()), pid: None, icon_name: None };
    assert_eq!(a.display_name(), "Firefox");
    a.name = None;
    assert_eq!(a.display_name(), "firefox-bin");
    a.binary = None;
    assert_eq!(a.display_name(), "Unknown Application");
    let b = BackendAppInfo { name: None, binary: None, pid: Some(3), icon_name: None };
    assert_eq!(b.display_name(), "Unknown Application");
}

#[test]
fn pw_node_from_stream_props() {
    let p = props(&[
        ("media.class", "Stream/Output/Audio"),
        ("node.name", "firefox"),
        ("application.name", "Firefox"),
        ("application.process.binary", "firefox-bin"),
        ("application.process.id", "4242"),
        ("audio.rate", "48000"),
        ("audio.format", "F32LE"),
    ]);
    let n = PwNode::from_props(9, &p);
    assert_eq!(n.id, 9);
    assert_eq!(n.name, "firefox");
    assert_eq!(n.media_class, MediaClass::StreamOutputAudio);
    assert_eq!(n.sample_rate, Some(48000));
    assert_eq!(n.format.as_deref(), Some("F32LE"));
    let app = n.app_info.expect("streams carry application details");
    assert_eq!(app.pid, Some(4242));
    // Without an icon name, the binary stands in.
    assert_eq!(app.icon_name.as_deref(), Some("firefox-bin"));
    assert!(n.device_info.is_none());
}

#[test]
fn pw_node_from_device_props() {
    let p = props(&[("media.class", "Audio/Sink"), ("device.description", "Speakers"), ("audio.rate", "fast")]);
    let n = PwNode::from_props(12, &p);
    assert_eq!(n.name, "Node 12");
    assert_eq!(n.sample_rate, None);
    assert!(n.app_info.is_none());
    let d = n.device_info.expect("devices carry device details");
    assert_eq!(d.description.as_deref(), Some("Speakers"));
    assert!(d.card_name.is_none() && !d.is_default);
}

#[test]
fn backend_audio_node_from_props() {
    let p = props(&[
        ("name", "n"),
        ("media.class", "Audio/Source"),
        ("application.name", "Recorder"),
        ("format.sample_rate", "abc"),
    ]);
    let n = AudioNode::from_props(3, &p);
    assert_eq!(n.name, "n");
    assert_eq!(n.media_class, BackendMediaClass::AudioSource);
    assert_eq!(n.app_info.as_ref().and_then(|a| a.name.clone()).as_deref(), Some("Recorder"));
    assert!(n.device_info.is_none());
    // A present but unreadable rate reads as 0.
    assert_eq!(n.sample_rate, Some(0));
    let mut table = HashMap::new();
    process_event(&mut table, BackendAudioEvent::NodeAdded(n));
    assert!(table.contains_key(&3));
    process_event(&mut table, BackendAudioEvent::NodeRemoved(3));
    assert!(table.is_empty());
}

#[test]
fn registry_keeps_audio_nodes() {
    let mut reg = PwRegistry::new();
    reg.add_node(&Global {
        id: 5,
        kind: ObjectKind::Node,
        props: Some(props(&[("media.class", "Stream/Output/Audio"), ("node.name", "mpv")])),
    });
    reg.add_node(&Global { id: 6, kind: ObjectKind::Node, props: Some(props(&[("media.class", "Video/Source")])) });
    reg.add_node(&Global { id: 7, kind: ObjectKind::Port, props: Some(props(&[("media.class", "Audio/Sink")])) });
    reg.add_node(&Global { id: 8, kind: ObjectKind::Node, props: Some(props(&[("media.class", "Audio/Sink")])) });
    let n = reg.get_node(5).expect("kept");
    assert_eq!(n.node_type, NodeType::StreamSink);
    assert!(reg.get_node(6).is_none() && reg.get_node(7).is_none());
    assert_eq!(reg.get_node(8).map(|n| n.name.clone()).as_deref(), Some("Unknown"));
    let streams: Vec<u32> = reg.get_playback_stream().iter().map(|n| n.id).collect();
    assert_eq!(streams, vec![5]);
    reg.remove_node(&5);
    assert!(reg.get_node(5).is_none());
    assert!(reg.get_playback_stream().is_empty());
}

#[test]
fn core_events() {
    let g = Global {
        id: 4,
        kind: ObjectKind::Node,
        props: Some(props(&[("media.class", "Audio/Source"), ("node.name", "mic")])),
    };
    match node_event(&g) {
        Some(PwEvent::NodeAdded(n)) => assert_eq!((n.id, n.name.as_str()), (4, "mic")),
        other => panic!("unexpected {:?}", other),
    }
    assert!(node_event(&Global { id: 4, kind: ObjectKind::Node, props: None }).is_none());
    assert!(node_event(&Global { id: 4, kind: ObjectKind::Link, props: g.props.clone() }).is_none());
    assert!(matches!(removal_event(4), PwEvent::NodeRemoved(4)));
    assert!(stops_thread(PwCommand::Terminate));
    let mut nodes = HashMap::new();
    if let Some(ev) = node_event(&g) {
        amplitude::pipewire::pw_core::process_event(&mut nodes, ev);
    }
    assert!(nodes.contains_key(&4));
    amplitude::pipewire::pw_core::process_event(&mut nodes, PwEvent::NodeRemoved(4));
    assert!(nodes.is_empty());
}

#[test]
fn sink_manager_records_sinks() {
    assert_eq!(sink_node_name("abc"), "amplitude_channel_abc");
    let mut m = PwSinkManager::new();
    assert!(m.get_sink("abc").is_none());
    assert_eq!(m.record_virtual_sink("abc".to_string(), sink_node_name("abc"), 31), 31);
    assert_eq!(m.get_sink("abc"), Some((31, "amplitude_channel_abc")));
    m.record_virtual_sink("abc".to_string(), "other".to_string(), 32);
    assert_eq!(m.get_sink("abc"), Some((32, "other")));
}

#[test]
fn capitalise_first_character() {
    assert_eq!(capitalise("monitor"), "Monitor");
    assert_eq!(capitalise(""), "");
    assert_eq!(capitalise("ßtream"), "SStream");
    assert_eq!(capitalise("Échos"), "Échos");
    assert_eq!(AMPLITUDE_PREFIX, "amplitude-");
}

#[test]
fn sink_creation_waits_for_its_node() {
    let mut st = PwThreadState::new();
    let (tx, rx) = sync_channel(1);
    match st.handle_command(BackendCommand::CreateVirtualSink { name: "monitor".to_string(), reply: tx }) {
        PwThreadAction::CreateNullSink { factory, node_name, description, props, keep_under } => {
            assert_eq!(keep_under, u64::MAX);
            assert_eq!(node_name, "amplitude-monitor");
            assert_eq!(description, "Amplitude Monitor");
            assert_eq!(factory, "adapter");
            let expected: Vec<(String, String)> = [
                ("factory.name", "support.null-audio-sink"),
                ("node.name", "amplitude-monitor"),
                ("node.description", "Amplitude Monitor"),
                ("media.class", "Audio/Sink"),
                ("audio.position", "[ FL FR ]"),
                ("node.virtual", "true"),
                ("node.driver", "true"),
            ]
            .iter()
            .map(|(k, v)| (k.to_string(), v.to_string()))
            .collect();
            assert_eq!(props, expected);
        }
        other => panic!("unexpected {:?}", other),
    }
    // A foreign node answers nothing but is reported.
    let (reply, event) = st.handle_node_global(
        50,
        &Some(props(&[("node.name", "alsa_output"), ("media.class", "Audio/Sink")])),
    );
    assert!(reply.is_none());
    match event {
        Some(BackendEvent::NodeAdded(n)) => {
            assert_eq!(n.name, "alsa_output");
            assert!(!n.is_amplitude_virtual);
            assert_eq!(n.media_class.as_deref(), Some("Audio/Sink"));
        }
        other => panic!("unexpected {:?}", other),
    }
    let (reply, _) = st.handle_node_global(51, &Some(props(&[("node.name", "amplitude-monitor"), ("media.class", "Audio/Sink")])));
    let answer = reply.expect("the waiting sink is answered");
    assert_eq!((answer.from, answer.to), (u64::MAX, 51));
    assert_eq!(answer.result, Ok(51));
    answer.reply.send(answer.result).unwrap();
    assert_eq!(rx.recv().unwrap(), Ok(51));
    assert!(st.pending_sink.is_none());
    // Nodes of other classes are not reported.
    let (_, event) = st.handle_node_global(52, &Some(props(&[("node.name", "x"), ("media.class", "Midi/Bridge")])));
    assert!(event.is_none());
    let (reply, event) = st.handle_node_global(53, &None);
    assert!(reply.is_none() && event.is_none());
}

#[test]
fn failed_creations_answer_with_the_error() {
    let mut st = PwThreadState::new();
    let (tx, _rx) = sync_channel(1);
    st.handle_command(BackendCommand::CreateVirtualSink { name: "x".to_string(), reply: tx });
    let (_, res) = st.sink_creation_failed("boom").expect("a sink waited");
    assert_eq!(res, Err("create_object failed: boom".to_string()));
    assert!(st.sink_creation_failed("again").is_none());
    let (tx, _rx) = sync_channel(1);
    match st.handle_command(BackendCommand::CreateLink { output_node_id: 10, input_node_id: 20, reply: tx }) {
        PwThreadAction::CreateLink { output_node, input_node, keep_under } => {
            assert_eq!(keep_under, u64::MAX);
            assert_eq!((output_node.as_str(), input_node.as_str()), ("10", "20"));
        }
        other => panic!("unexpected {:?}", other),
    }
    let (_, res) = st.link_creation_failed("nope").expect("a link waited");
    assert_eq!(res, Err("link create_object failed: nope".to_string()));
}

#[test]
fn link_creation_waits_for_its_link() {
    let mut st = PwThreadState::new();
    let (tx, rx) = sync_channel(1);
    st.handle_command(BackendCommand::CreateLink { output_node_id: 10, input_node_id: 20, reply: tx });
    assert!(st.handle_link_global(70, &Some(props(&[("link.output.node", "10"), ("link.input.node", "21")]))).is_none());
    assert!(st.handle_link_global(71, &None).is_none());
    let answer = st
        .handle_link_global(72, &Some(props(&[("link.output.node", "10"), ("link.input.node", "20")])))
        .expect("the waiting link is answered");
    assert_eq!((answer.from, answer.to), (u64::MAX, 72));
    answer.reply.send(answer.result).unwrap();
    assert_eq!(rx.recv().unwrap(), Ok(72));
    assert!(st.pending_link.is_none());
    assert!(matches!(st.handle_command(BackendCommand::DestroyLink { link_id: 72 }), PwThreadAction::ForgetLink { link_id: 72 }));
    assert!(matches!(
        st.handle_command(BackendCommand::DestroyVirtualSink { external_id: 9 }),
        PwThreadAction::ForgetSink { external_id: 9 }
    ));
    assert!(matches!(st.handle_global_removed(5), BackendEvent::NodeRemoved(5)));
}
