use amplitude::mixer::audio::backend::{AudioBackend, BackendEvent};
use amplitude::mixer::audio::link::Link;
use amplitude::mixer::audio::sink::Sink;
use amplitude::mixer::backend::coreaudio::CoreAudioBackend;
use amplitude::mixer::session::channels::{Channel, Send};
use amplitude::mixer::session::config::Config;
use amplitude::mixer::session::engine::AudioEngine;
use std::collections::HashMap;

/// A backend that records what it is asked and fails where told to.
#[derive(Default)]
struct ScriptedBackend {
    next: u64,
    log: Vec<String>,
    fail_sink_destroy: bool,
    fail_links: bool,
}

impl AudioBackend for ScriptedBackend {
    fn create_bus_sink(&mut self, name: &str) -> Result<Sink, String> {
        self.next += 1;
        self.log.push(format!("bus-sink {}", name));
        Ok(Sink { id: self.next as u128, external_id: 100 + self.next })
    }
    fn create_virtual_sink(&mut self, name: &str) -> Result<Sink, String> {
        self.next += 1;
        self.log.push(format!("sink {}", name));
        Ok(Sink { id: self.next as u128, external_id: 100 + self.next })
    }
    fn destroy_virtual_sink(&mut self, sink: &Sink) -> Result<(), String> {
        self.log.push(format!("destroy-sink {}", sink.external_id));
        if self.fail_sink_destroy {
            Err("sink busy".to_string())
        } else {
            Ok(())
        }
    }
    fn create_link(&mut self, output_node_id: u64, input_node_id: u64) -> Result<u64, String> {
        self.log.push(format!("link {} {}", output_node_id, input_node_id));
        if self.fail_links {
            return Err("no link".to_string());
        }
        self.next += 1;
        Ok(self.next)
    }
    fn destroy_link(&mut self, link_id: u64) -> Result<(), String> {
        self.log.push(format!("destroy-link {}", link_id));
        Ok(())
    }
    fn poll_events(&mut self) -> Vec<BackendEvent> {
        self.log.push("poll".to_string());
        vec![BackendEvent::NodeRemoved(7)]
    }
}

fn order_names<B: AudioBackend>(engine: &AudioEngine<B>) -> Vec<String> {
    engine.ordered_channels().iter().map(|c| c.name.clone()).collect()
}

#[test]
fn a_channel_whose_sink_cannot_be_destroyed_stays() {
    let mut engine = AudioEngine::new(ScriptedBackend::default());
    let games = engine.add_channel("Games".to_string()).unwrap();
    engine.backend.fail_sink_destroy = true;
    engine.backend.log.clear();
    assert_eq!(engine.delete_channel(games.id), Err("sink busy".to_string()));
    assert!(engine.channels.contains_key(&games.id));
    assert_eq!(order_names(&engine), vec!["mic", "Games"]);
    // Both bus links went, then the sink was asked for.
    let mut expected: Vec<String> = games.bus_links.iter().map(|l| format!("destroy-link {}", l.id)).collect();
    expected.push(format!("destroy-sink {}", games.virtual_sink.external_id));
    assert_eq!(engine.backend.log, expected);
}

#[test]
fn deleting_destroys_links_then_sink() {
    let mut engine = AudioEngine::new(ScriptedBackend::default());
    let games = engine.add_channel("Games".to_string()).unwrap();
    engine.set_channel_input(games.id, 42).unwrap();
    let input = engine.channels[&games.id].input_link.unwrap();
    engine.backend.log.clear();
    assert_eq!(engine.delete_channel(games.id), Ok(()));
    assert!(!engine.channels.contains_key(&games.id));
    let mut expected = vec![format!("destroy-link {}", input.id)];
    expected.extend(games.bus_links.iter().map(|l| format!("destroy-link {}", l.id)));
    expected.push(format!("destroy-sink {}", games.virtual_sink.external_id));
    assert_eq!(engine.backend.log, expected);
}

#[test]
fn refused_deletions_leave_the_backend_alone() {
    let mut engine = AudioEngine::new(ScriptedBackend::default());
    let mic_id = engine.ordered_channels()[0].id;
    engine.backend.log.clear();
    assert!(engine.delete_channel(mic_id).is_err());
    assert!(engine.delete_channel(mic_id + 1).is_err());
    assert!(engine.set_channel_input(mic_id + 1, 3).is_err());
    assert!(engine.backend.log.is_empty());
}

#[test]
fn channel_input_link_is_what_the_backend_made() {
    let mut engine = AudioEngine::new(ScriptedBackend::default());
    let games = engine.add_channel("Games".to_string()).unwrap();
    let sink = games.virtual_sink.external_id;
    engine.set_channel_input(games.id, 42).unwrap();
    let first = engine.channels[&games.id].input_link.unwrap();
    assert_eq!((first.output_node_id, first.input_node_id), (42, sink));
    engine.backend.log.clear();
    engine.set_channel_input(games.id, 43).unwrap();
    let second = engine.channels[&games.id].input_link.unwrap();
    assert_eq!(second, Link { id: engine.backend.next, output_node_id: 43, input_node_id: sink });
    assert_eq!(engine.backend.log, vec![format!("destroy-link {}", first.id), format!("link 43 {}", sink)]);
}

#[test]
fn a_refused_input_link_reports_the_backend_error() {
    let mut engine = AudioEngine::new(ScriptedBackend::default());
    let games = engine.add_channel("Games".to_string()).unwrap();
    engine.set_channel_input(games.id, 42).unwrap();
    engine.backend.fail_links = true;
    assert_eq!(engine.set_channel_input(games.id, 43), Err("no link".to_string()));
    assert_eq!(engine.channels[&games.id].input_link, None);
}

#[test]
fn bus_output_link_is_what_the_backend_made() {
    let mut engine = AudioEngine::new(ScriptedBackend::default());
    let bus_id = engine.default_sends[0].bus_id;
    let sink = engine.buses[&bus_id].sink.external_id;
    engine.backend.log.clear();
    engine.set_bus_output(bus_id, 9).unwrap();
    let link = engine.buses[&bus_id].output_link.unwrap();
    assert_eq!(link, Link { id: engine.backend.next, output_node_id: sink, input_node_id: 9 });
    assert_eq!(engine.backend.log, vec![format!("link {} 9", sink)]);
    engine.backend.fail_links = true;
    assert_eq!(engine.set_bus_output(bus_id, 10), Err("no link".to_string()));
    assert_eq!(engine.buses[&bus_id].output_link, None);
}

#[test]
fn recording_answers_directly() {
    let mut engine = AudioEngine::new(CoreAudioBackend::new());
    let mic_id = engine.ordered_channels()[0].id;
    assert_eq!(engine.record_input_link(mic_id, 5, 6, Err("x".to_string())), Err("x".to_string()));
    assert_eq!(engine.record_input_link(mic_id, 5, 6, Ok(77)), Ok(()));
    assert_eq!(engine.channels[&mic_id].input_link, Some(Link { id: 77, output_node_id: 5, input_node_id: 6 }));
    let bus_id = engine.default_sends[1].bus_id;
    assert_eq!(engine.record_bus_output(bus_id, 6, 8, Ok(78)), Ok(()));
    assert_eq!(engine.buses[&bus_id].output_link, Some(Link { id: 78, output_node_id: 6, input_node_id: 8 }));
    assert!(engine.record_bus_output(bus_id + 1, 6, 8, Ok(79)).is_err());
}

#[test]
fn new_channel_asks_for_its_sink_then_one_link_per_bus() {
    let mut engine = AudioEngine::new(ScriptedBackend::default());
    engine.backend.log.clear();
    let games = engine.add_channel("Games".to_string()).unwrap();
    assert_eq!(engine.backend.log[0], "sink Games");
    assert_eq!(engine.backend.log.len(), 3);
    let mut targets: Vec<u64> = engine.buses.values().map(|b| b.sink.external_id).collect();
    targets.sort();
    let mut linked: Vec<u64> = games.bus_links.iter().map(|l| l.input_node_id).collect();
    linked.sort();
    assert_eq!(linked, targets);
    for l in &games.bus_links {
        assert_eq!(l.output_node_id, games.virtual_sink.external_id);
    }
}

#[test]
fn polled_events_are_handed_back_and_applied() {
    let mut engine = AudioEngine::new(ScriptedBackend::default());
    let events = engine.poll_events();
    assert_eq!(events.len(), 1);
    assert_eq!(engine.backend.log.last().unwrap(), "poll");
}

#[test]
fn new_engine_buses_and_mic() {
    let engine = AudioEngine::new(CoreAudioBackend::new());
    for s in &engine.default_sends {
        let b = &engine.buses[&s.bus_id];
        assert_eq!(f32::from_bits(b.volume), 0.8);
        assert!(!b.muted);
    }
    let mic = &engine.channels[&engine.channel_order[0]];
    assert_eq!(mic.name, "mic");
    assert_eq!(mic.sends.len(), 2);
    for (a, b) in mic.sends.iter().zip(engine.default_sends.iter()) {
        assert_eq!(a, b);
    }
}

fn saved_channel(id: u128, name: &str) -> Channel {
    Channel {
        id,
        name: name.to_string(),
        sends: vec![],
        connections: vec![],
        virtual_sink: Sink { id: id + 1000, external_id: 0 },
        input_link: None,
        bus_links: vec![],
    }
}

#[test]
fn saved_order_is_kept_each_channel_once() {
    let u1: u128 = 0x1111;
    let config = Config {
        channels: HashMap::from([(u1, saved_channel(u1, "mic"))]),
        buses: HashMap::new(),
        channel_order: vec![u1, u1],
    };
    let e = AudioEngine::from_config(config, CoreAudioBackend::new());
    assert_eq!(e.channel_order, vec![u1]);
    assert_eq!(e.channels.len(), 1);
    assert_eq!(e.channels[&u1].name, "mic");
    assert!(e.buses.is_empty());
    assert!(e.default_sends.is_empty());
}

#[test]
fn saved_order_then_missing_channels_then_a_new_mic() {
    let (a, b, c): (u128, u128, u128) = (1, 2, 3);
    let config = Config {
        channels: HashMap::from([(a, saved_channel(a, "A")), (b, saved_channel(b, "B")), (c, saved_channel(c, "C"))]),
        buses: HashMap::new(),
        channel_order: vec![c, 99, a, c],
    };
    let e = AudioEngine::from_config(config, CoreAudioBackend::new());
    assert_eq!(e.channel_order.len(), 4);
    assert_eq!(&e.channel_order[..3], &[c, a, b]);
    let mic = &e.channels[&e.channel_order[3]];
    assert_eq!(mic.name, "mic");
    assert_eq!(mic.sends.len(), e.default_sends.len());
}

#[test]
fn one_default_send_per_saved_bus() {
    let mut engine = AudioEngine::new(CoreAudioBackend::new());
    engine.add_channel("Games".to_string()).unwrap();
    let config = Config::from_payload(engine.to_save_payload());
    let loaded = AudioEngine::from_config(config, CoreAudioBackend::new());
    let mut ids: Vec<u128> = loaded.default_sends.iter().map(|s: &Send| s.bus_id).collect();
    ids.sort();
    let mut buses: Vec<u128> = loaded.buses.keys().copied().collect();
    buses.sort();
    assert_eq!(ids, buses);
}

#[test]
fn ordered_channels_are_full_copies() {
    let mut engine = AudioEngine::new(CoreAudioBackend::new());
    let games = engine.add_channel("Games".to_string()).unwrap();
    engine.set_channel_input(games.id, 4).unwrap();
    let listed = engine.ordered_channels();
    let stored = &engine.channels[&games.id];
    assert_eq!(listed[1].virtual_sink, stored.virtual_sink);
    assert_eq!(listed[1].input_link, stored.input_link);
    assert_eq!(listed[1].bus_links, stored.bus_links);
}

#[test]
fn a_saved_mic_keeps_its_settings() {
    let u1: u128 = 0x2222;
    let mut mic = saved_channel(u1, "MIC");
    mic.sends = vec![Send { bus_id: 7, volume: 0.25f32.to_bits(), muted: true }];
    let config = Config {
        channels: HashMap::from([(u1, mic)]),
        buses: HashMap::new(),
        channel_order: vec![u1, u1],
    };
    let e = AudioEngine::from_config(config, CoreAudioBackend::new());
    assert_eq!(e.channel_order, vec![u1]);
    assert_eq!(e.channels.len(), 1);
    assert_eq!(e.channels[&u1].name, "MIC");
    assert_eq!(e.channels[&u1].sends, vec![Send { bus_id: 7, volume: 0.25f32.to_bits(), muted: true }]);
}

#[test]
fn reordering_twice_with_the_same_order_changes_nothing_more() {
    let mut engine = AudioEngine::new(CoreAudioBackend::new());
    let a = engine.add_channel("A".to_string()).unwrap();
    let b = engine.add_channel("B".to_string()).unwrap();
    let order = vec![b.id, 5, b.id];
    engine.reorder_channels(order.clone());
    let once = engine.channel_order.clone();
    engine.reorder_channels(order);
    assert_eq!(engine.channel_order, once);
    assert_eq!(once[0], b.id);
    assert!(once.contains(&a.id));
    assert_eq!(once.len(), 3);
}

#[test]
fn new_engine_makes_its_bus_sinks_then_the_mic() {
    let engine = AudioEngine::new(ScriptedBackend::default());
    assert_eq!(&engine.backend.log[..3], &["bus-sink monitor", "bus-sink stream", "sink mic"]);
    let monitor = &engine.buses[&engine.default_sends[0].bus_id];
    let stream = &engine.buses[&engine.default_sends[1].bus_id];
    assert_eq!((monitor.sink.external_id, stream.sink.external_id), (101, 102));
    let mic = &engine.channels[&engine.channel_order[0]];
    assert_eq!(mic.virtual_sink.external_id, 103);
    let mut targets: Vec<u64> = mic.bus_links.iter().map(|l| l.input_node_id).collect();
    targets.sort();
    assert_eq!(targets, vec![101, 102]);
}

#[test]
fn restoring_recreates_sinks_and_wires_channels() {
    let mut engine = AudioEngine::new(CoreAudioBackend::new());
    let games = engine.add_channel("Games".to_string()).unwrap();
    let mut config = Config::from_payload(engine.to_save_payload());
    for ch in config.channels.values_mut() {
        ch.virtual_sink.external_id = 0;
        ch.bus_links.clear();
    }
    for b in config.buses.values_mut() {
        b.sink.external_id = 0;
    }
    let loaded = AudioEngine::from_config(config, ScriptedBackend::default());
    let bus_sinks: Vec<u64> = loaded.buses.values().map(|b| b.sink.external_id).collect();
    assert!(bus_sinks.iter().all(|&e| e != 0));
    let restored = &loaded.channels[&games.id];
    assert_ne!(restored.virtual_sink.external_id, 0);
    assert_eq!(restored.bus_links.len(), 2);
    for l in &restored.bus_links {
        assert_eq!(l.output_node_id, restored.virtual_sink.external_id);
        assert!(bus_sinks.contains(&l.input_node_id));
    }
    assert!(loaded.backend.log.contains(&"sink Games".to_string()));
}
