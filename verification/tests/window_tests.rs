use std::collections::HashMap;

use amplitude::audio::audio_manager::{AudioManager as WindowAudio, ChannelBus};
use amplitude::audio::bus::Bus;
use amplitude::audio::channel::{BusOptions, Channel as Strip, NewChannelData, DEFAULT_SEND_VOLUME_BITS};
use amplitude::audio::channel_manager::ChannelManager as StripManager;
use amplitude::audio::channels::ChannelManager;
use amplitude::audio::events::{AudioEvent, NodeInfo, NodeType};
use amplitude::config::{Channel, Config};
use amplitude::mixer::channels::{Channel as SendChannel, Send};
use amplitude::pipewire::pw_core::PwEvent;
use amplitude::shell::app::{App, Effect, Message};
use amplitude::shell::config::Config as WindowConfig;
use amplitude::shell::icon::Icon;
use amplitude::shell::modal::Modal;
use amplitude::ui::model::{app_label, AssignResult, UiChange, UiModel};

fn app_node(id: u32, app: Option<&str>, name: &str) -> NodeInfo {
    NodeInfo {
        id,
        name: name.to_string(),
        description: None,
        application_name: app.map(|a| a.to_string()),
        media_class: "Stream/Output/Audio".to_string(),
        node_type: NodeType::ApplicationOutput,
    }
}

#[test]
fn modal_shows_and_closes_keeping_its_data() {
    let mut m = Modal::new(NewChannelData { name: "x".to_string() });
    assert!(!m.show_modal);
    m.show();
    assert!(m.show_modal);
    m.close();
    assert!(!m.show_modal);
    assert_eq!(m.data.map(|d| d.name), Some("x".to_string()));
    assert_eq!(NewChannelData::default().name, "");
}

#[test]
fn strips_and_buses_start_at_point_eight() {
    assert_eq!(f32::from_bits(DEFAULT_SEND_VOLUME_BITS), 0.8);
    let b = Bus::new("Monitor".to_string());
    assert_eq!((b.id.as_str(), b.volume, b.muted), ("Monitor", DEFAULT_SEND_VOLUME_BITS, false));
    let s = Strip::new("Games".to_string(), Icon::Speaker);
    assert_eq!(s.monitor_bus_options, BusOptions::new(DEFAULT_SEND_VOLUME_BITS, false));
    assert_eq!(s.stream_bus_options.level, 0);
    let mut saved = s.clone();
    saved.monitor_bus_options.level = 0.5f32.to_bits();
    saved.stream_bus_options.muted = true;
    let loaded = Strip::from_config(&saved);
    assert_eq!(loaded.id, s.id);
    assert_eq!(loaded.monitor_bus_options.level, 0);
    assert!(loaded.stream_bus_options.muted);
    let send = Send::new(7, 0.5f32.to_bits(), true);
    let c = SendChannel::new("Voice".to_string(), vec![send]);
    assert_eq!(c.sends, vec![Send { bus_id: 7, volume: 0.5f32.to_bits(), muted: true }]);
    assert_ne!(c.id, 0);
}

#[test]
fn toggling_a_mute_twice_restores_it() {
    let mut m = StripManager::new();
    let id = m.add_channel("Games");
    assert_eq!(m.get_channels()[&id].icon, Icon::Speaker);
    m.toggle_mute(id, ChannelBus::Monitor);
    assert!(m.get_channels()[&id].monitor_bus_options.muted);
    assert!(!m.get_channels()[&id].stream_bus_options.muted);
    m.toggle_mute(id, ChannelBus::Monitor);
    assert!(!m.get_channels()[&id].monitor_bus_options.muted);
    m.update_volume(id, 0.3f32.to_bits(), ChannelBus::Stream);
    assert_eq!(f32::from_bits(m.get_channels()[&id].stream_bus_options.volume), 0.3);
    m.update_volume(id + 1, 0.1f32.to_bits(), ChannelBus::Stream);
    assert_eq!(m.get_channels().len(), 1);
}

#[test]
fn window_audio_has_two_buses() {
    let mut a = WindowAudio::new();
    let busses = a.get_busses();
    assert_eq!(busses.len(), 2);
    assert_eq!((busses[0].0, busses[0].1.id.as_str()), (ChannelBus::Stream, "Stream"));
    assert_eq!((busses[1].0, busses[1].1.id.as_str()), (ChannelBus::Monitor, "Monitor"));
    let id = a.add_channel("Chat");
    a.toggle_mute(id, ChannelBus::Stream);
    a.update_volume(id, 0.6f32.to_bits(), ChannelBus::Monitor);
    let ch = &a.get_channels()[&id];
    assert!(ch.stream_bus_options.muted);
    assert_eq!(f32::from_bits(ch.monitor_bus_options.volume), 0.6);
}

#[test]
fn window_config_starts_with_a_microphone() {
    let c = WindowConfig::new();
    assert_eq!(c.channels.len(), 1);
    assert_eq!(c.channels[0].channel_name, "Microphone");
    assert_eq!(c.channels[0].icon, Icon::Microphone);
    let mut table = HashMap::new();
    let a = Strip::new("A".to_string(), Icon::Speaker);
    let b = Strip::new("B".to_string(), Icon::Stream);
    table.insert(a.id, a.clone());
    table.insert(b.id, b.clone());
    let mut c = c;
    c.set_channels(&table);
    let mut got: Vec<String> = c.channels.iter().map(|s| s.channel_name.clone()).collect();
    got.sort();
    assert_eq!(got, vec!["A".to_string(), "B".to_string()]);
}

#[test]
fn app_messages() {
    let mut app = App::new(WindowConfig::new());
    assert_eq!(app.update(Message::ShowCreateChannelModal), Effect::Nothing);
    assert!(app.create_channel_modal.show_modal);
    app.update(Message::NewChannelContentChanged("Games".to_string()));
    assert_eq!(app.update(Message::AddChannel), Effect::SaveConfig);
    assert_eq!(app.config.channels.len(), 1);
    assert_eq!(app.config.channels[0].channel_name, "Games");
    let id = app.config.channels[0].id;
    app.update(Message::MonitorMuteToggled(id));
    app.update(Message::StreamVolumeChanged(id, 0.2f32.to_bits()));
    let ch = &app.audio_manager.get_channels()[&id];
    assert!(ch.monitor_bus_options.muted);
    assert_eq!(f32::from_bits(ch.stream_bus_options.volume), 0.2);
    assert_eq!(app.update(Message::PipeWireEvent(PwEvent::NodeRemoved(3))), Effect::ProcessBackendEvents);
    assert_eq!(app.update(Message::HideCreateChannelModal), Effect::Nothing);
    assert!(!app.create_channel_modal.show_modal);
    assert_eq!(app.update(Message::ShowAppNamesModal(id)), Effect::Nothing);
}

fn model() -> UiModel {
    let mut music = Channel::new("Music".to_string());
    music.add_application("Spotify".to_string());
    music.stream_volume = 0.25f64.to_bits();
    UiModel::new(ChannelManager::new(Config { channels: vec![music] }))
}

#[test]
fn labels_prefer_the_application_name() {
    assert_eq!(app_label(&app_node(1, Some("Spotify"), "spotify-node")), "Spotify");
    assert_eq!(app_label(&app_node(1, None, "spotify-node")), "spotify-node");
}

#[test]
fn window_places_new_application_nodes() {
    let mut m = model();
    match m.on_event(&AudioEvent::NodeAdded(app_node(1, Some("spotify"), "n1"))) {
        UiChange::ShowInChannel { channel, node_id, label } => {
            assert_eq!((channel.as_str(), node_id, label.as_str()), ("Music", 1, "spotify"));
        }
        other => panic!("unexpected {:?}", other),
    }
    // Seen already: nothing changes.
    assert!(matches!(m.on_event(&AudioEvent::NodeAdded(app_node(1, Some("spotify"), "n1"))), UiChange::Nothing));
    match m.on_event(&AudioEvent::NodeAdded(app_node(2, None, "mpv"))) {
        UiChange::ShowUnassigned { node_id, label } => assert_eq!((node_id, label.as_str()), (2, "mpv")),
        other => panic!("unexpected {:?}", other),
    }
    let mut sink = app_node(3, None, "speakers");
    sink.node_type = NodeType::SinkDevice;
    assert!(matches!(m.on_event(&AudioEvent::NodeAdded(sink)), UiChange::Nothing));
    assert!(matches!(m.on_event(&AudioEvent::NodeRemoved { id: 1 }), UiChange::Forget { node_id: 1 }));
    assert!(m.channel_manager.get_channel_nodes("Music").is_empty());
    assert!(!m.known_nodes.contains_key(&1));
    assert!(matches!(m.on_event(&AudioEvent::Ready), UiChange::Nothing));
}

#[test]
fn window_dialogs() {
    let mut m = model();
    let s = m.strip_settings("Music");
    assert_eq!(f64::from_bits(s.stream_volume), 0.25);
    assert_eq!(f64::from_bits(s.monitor_volume), 0.8);
    let d = m.strip_settings("Nothing");
    assert_eq!((f64::from_bits(d.monitor_volume), f64::from_bits(d.stream_volume)), (0.8, 0.7));
    assert!(!m.create_channel_from_dialog(String::new()));
    assert!(!m.create_channel_from_dialog("Music".to_string()));
    assert!(m.create_channel_from_dialog("Games".to_string()));
    let names = m.channel_names();
    assert_eq!(names, vec!["Music".to_string(), "Games".to_string()]);
    m.on_event(&AudioEvent::NodeAdded(app_node(9, Some("Steam"), "steam")));
    assert!(matches!(m.assign_from_dialog(9, "Steam", &names, 5), AssignResult::OutOfRange));
    match m.assign_from_dialog(9, "Steam", &names, 1) {
        AssignResult::Assigned { channel, label } => {
            assert_eq!(channel, "Games");
            assert_eq!(label.as_deref(), Some("Steam"));
        }
        other => panic!("unexpected {:?}", other),
    }
    assert_eq!(m.channel_manager.get_node_channel(9), Some("Games"));
    let stale = vec!["Gone".to_string()];
    match m.assign_from_dialog(9, "Steam", &stale, 0) {
        AssignResult::Failed { error } => assert_eq!(error, "Channel 'Gone' not found"),
        other => panic!("unexpected {:?}", other),
    }
}
