use amplitude::mixer::audio::sink::Sink;
use amplitude::mixer::session::channels::Channel;
use amplitude::mixer::session::config::Config;
use amplitude::mixer::session::state::AppState;
use std::collections::HashMap;

fn saved(id: u128, name: &str) -> Channel {
    Channel {
        id,
        name: name.to_string(),
        sends: vec![],
        connections: vec![],
        virtual_sink: Sink { id: id + 500, external_id: 0 },
        input_link: None,
        bus_links: vec![],
    }
}

#[test]
fn default_state_has_two_buses_and_a_mic() {
    let st = AppState::default();
    assert_eq!(st.buses.len(), 2);
    assert_eq!(st.default_sends.len(), 2);
    for s in &st.default_sends {
        let b = &st.buses[&s.bus_id];
        assert_eq!(f32::from_bits(b.volume), 0.8);
        assert!(!b.muted);
        assert_eq!(b.sink.external_id, 0);
    }
    assert_eq!(st.channel_order.len(), 1);
    assert_eq!(st.channels[&st.channel_order[0]].name, "mic");
}

#[test]
fn state_keeps_saved_order_with_repeats_then_missing_channels() {
    let (a, b, c): (u128, u128, u128) = (1, 2, 3);
    let config = Config {
        channels: HashMap::from([(a, saved(a, "A")), (b, saved(b, "B")), (c, saved(c, "C"))]),
        buses: HashMap::new(),
        channel_order: vec![c, 9, a, c],
    };
    let st = AppState::from_config(config);
    assert_eq!(st.channel_order, vec![c, a, c, b]);
    assert_eq!(st.channels.len(), 3);
    let names: Vec<String> = st.ordered_channels().iter().map(|ch| ch.name.clone()).collect();
    assert_eq!(names, vec!["C", "A", "C", "B"]);
    assert!(st.default_sends.is_empty());
}

#[test]
fn empty_saved_state_gets_a_mic() {
    let config = Config { channels: HashMap::new(), buses: HashMap::new(), channel_order: vec![5] };
    let st = AppState::from_config(config);
    assert_eq!(st.channel_order.len(), 1);
    assert_eq!(st.channels[&st.channel_order[0]].name, "mic");
}

#[test]
fn adding_a_channel_lists_it_once() {
    let mut st = AppState::default();
    let ch = saved(42, "Games");
    st.add_channel(ch.clone());
    st.add_channel(ch);
    assert_eq!(st.channel_order.len(), 2);
    assert_eq!(st.channel_order[1], 42);
    let p = st.to_payload();
    assert_eq!(p.channels.len(), 2);
    assert_eq!(p.buses.len(), 2);
}
