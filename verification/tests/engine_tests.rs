use amplitude::mixer::audio::backend::BackendEvent;
use amplitude::mixer::audio::node::NodeInfo;
use amplitude::mixer::audio::sink::Sink;
use amplitude::mixer::backend::coreaudio::CoreAudioBackend;
use amplitude::mixer::session::config::Config;
use amplitude::mixer::session::engine::AudioEngine;

fn uuid_text(id: u128) -> String {
    uuid::Uuid::from_u128(id).to_string()
}

fn order_names(engine: &AudioEngine<CoreAudioBackend>) -> Vec<String> {
    engine.ordered_channels().iter().map(|c| c.name.clone()).collect()
}

#[test]
fn new_engine_has_two_buses_and_a_mic() {
    let engine = AudioEngine::new(CoreAudioBackend::new());
    assert_eq!(engine.buses.len(), 2);
    let mut bus_names: Vec<String> = engine.buses.values().map(|b| b.name.clone()).collect();
    bus_names.sort();
    assert_eq!(bus_names, vec!["monitor".to_string(), "stream".to_string()]);
    assert_eq!(engine.default_sends.len(), 2);
    for s in &engine.default_sends {
        assert_eq!(f32::from_bits(s.volume), 0.8);
        assert!(!s.muted);
        assert!(engine.buses.contains_key(&s.bus_id));
    }
    assert_eq!(order_names(&engine), vec!["mic".to_string()]);
    let mic = &engine.ordered_channels()[0];
    // The mic channel feeds both buses.
    assert_eq!(mic.bus_links.len(), 2);
    assert!(engine.get_nodes().is_empty());
}

#[test]
fn channels_are_added_in_order_and_listed_once() {
    let mut engine = AudioEngine::new(CoreAudioBackend::new());
    let games = engine.add_channel("Games".to_string()).unwrap();
    let music = engine.add_channel("Music".to_string()).unwrap();
    assert_eq!(order_names(&engine), vec!["mic", "Games", "Music"]);
    assert_eq!(games.sends.len(), 2);
    engine.reorder_channels(vec![music.id, music.id, 12345, games.id]);
    assert_eq!(order_names(&engine), vec!["Music", "Games", "mic"]);
    let payload = engine.to_payload();
    assert_eq!(payload.channels.len(), 3);
    assert_eq!(payload.buses.len(), 2);
}

#[test]
fn deleting_channels() {
    let mut engine = AudioEngine::new(CoreAudioBackend::new());
    let mic_id = engine.ordered_channels()[0].id;
    assert_eq!(engine.delete_channel(mic_id), Err("cannot delete the mic channel".to_string()));
    let games = engine.add_channel("Games".to_string()).unwrap();
    assert_eq!(engine.delete_channel(games.id), Ok(()));
    assert_eq!(order_names(&engine), vec!["mic"]);
    assert_eq!(engine.delete_channel(games.id), Err(format!("channel {} not found", uuid_text(games.id))));
}

#[test]
fn sends_buses_and_connections() {
    let mut engine = AudioEngine::new(CoreAudioBackend::new());
    let games = engine.add_channel("Games".to_string()).unwrap();
    let bus_id = games.sends[0].bus_id;
    assert_eq!(engine.update_channel_send(games.id, bus_id, Some(0.25f32.to_bits()), Some(true)), Ok(()));
    let ch = &engine.channels[&games.id];
    assert_eq!(f32::from_bits(ch.sends[0].volume), 0.25);
    assert!(ch.sends[0].muted);
    assert_eq!(
        engine.update_channel_send(games.id, 77, None, None),
        Err(format!("send to bus {} not found on channel {}", uuid_text(77), uuid_text(games.id)))
    );
    assert_eq!(engine.update_channel_send(5, bus_id, None, None), Err(format!("channel {} not found", uuid_text(5))));
    assert_eq!(engine.update_bus(bus_id, Some(0.5f32.to_bits()), None), Ok(()));
    assert_eq!(f32::from_bits(engine.buses[&bus_id].volume), 0.5);
    assert_eq!(engine.update_bus(9, None, Some(true)), Err(format!("bus {} not found", uuid_text(9))));
    assert_eq!(engine.update_channel_connections(games.id, vec!["firefox".to_string()]), Ok(()));
    assert_eq!(engine.channels[&games.id].connections.len(), 1);
    assert_eq!(engine.channels[&games.id].connections[0].process_name, "firefox");
    assert_eq!(engine.set_channel_input(3, 1), Err(format!("channel {} not found", uuid_text(3))));
    assert_eq!(engine.set_bus_output(3, 1), Err(format!("bus {} not found", uuid_text(3))));
}

#[test]
fn a_saved_engine_loads_back() {
    let mut engine = AudioEngine::new(CoreAudioBackend::new());
    let games = engine.add_channel("Games".to_string()).unwrap();
    engine.reorder_channels(vec![games.id]);
    let config = Config::from_payload(engine.to_save_payload());
    assert_eq!(config.channel_order.len(), 2);
    let loaded = AudioEngine::from_config(config, CoreAudioBackend::new());
    assert_eq!(order_names(&loaded), vec!["Games", "mic"]);
    assert_eq!(loaded.buses.len(), 2);
}

#[test]
fn a_differently_cased_mic_counts_as_the_mic() {
    let mut engine = AudioEngine::new(CoreAudioBackend::new());
    let mic_id = engine.ordered_channels()[0].id;
    if let Some(mic) = engine.channels.get_mut(&mic_id) {
        mic.name = "MiC".to_string();
    }
    let config = Config::from_payload(engine.to_save_payload());
    let loaded = AudioEngine::from_config(config, CoreAudioBackend::new());
    assert_eq!(order_names(&loaded), vec!["MiC"]);
    let mut loaded = loaded;
    assert_eq!(loaded.delete_channel(mic_id), Err("cannot delete the mic channel".to_string()));
}

#[test]
fn nodes_are_listed_by_id() {
    let mut engine = AudioEngine::new(CoreAudioBackend::new());
    for id in [9u32, 2, 5] {
        engine.nodes.insert(
            id,
            NodeInfo {
                id,
                name: format!("n{}", id),
                description: None,
                app_name: None,
                app_binary: None,
                media_class: None,
                icon: None,
                is_amplitude_virtual: false,
            },
        );
    }
    let ids: Vec<u32> = engine.get_nodes().iter().map(|n| n.id).collect();
    assert_eq!(ids, vec![2, 5, 9]);
    assert!(engine.poll_events().is_empty());
}

fn plain_node(id: u32) -> NodeInfo {
    NodeInfo {
        id,
        name: format!("n{}", id),
        description: None,
        app_name: None,
        app_binary: None,
        media_class: None,
        icon: None,
        is_amplitude_virtual: false,
    }
}

#[test]
fn channel_from_a_backend_error_is_not_added() {
    let mut engine = AudioEngine::new(CoreAudioBackend::new());
    let r = engine.add_channel_with_sink("Games".to_string(), Err("no sink".to_string()));
    assert_eq!(r.err(), Some("no sink".to_string()));
    assert_eq!(order_names(&engine), vec!["mic".to_string()]);
    assert_eq!(engine.channels.len(), 1);
}

#[test]
fn channel_from_a_sink_keeps_that_sink_and_is_wired() {
    let mut engine = AudioEngine::new(CoreAudioBackend::new());
    let sink = Sink { id: 77, external_id: 4242 };
    let games = engine.add_channel_with_sink("Games".to_string(), Ok(sink)).unwrap();
    assert_eq!(games.name, "Games");
    assert_eq!(games.virtual_sink, sink);
    assert_eq!(games.bus_links.len(), 2);
    for l in &games.bus_links {
        assert_eq!(l.output_node_id, 4242);
    }
    assert_eq!(order_names(&engine), vec!["mic".to_string(), "Games".to_string()]);
}

#[test]
fn recorded_events_update_the_node_cache_in_order() {
    let mut engine = AudioEngine::new(CoreAudioBackend::new());
    let events = vec![
        BackendEvent::NodeAdded(plain_node(3)),
        BackendEvent::NodeAdded(plain_node(8)),
        BackendEvent::NodeRemoved(3),
        BackendEvent::NodeRemoved(99),
    ];
    engine.record_events(&events);
    let ids: Vec<u32> = engine.get_nodes().iter().map(|n| n.id).collect();
    assert_eq!(ids, vec![8]);
    assert_eq!(engine.channels.len(), 1);
}
