use amplitude::audio::channels::ChannelManager;
use amplitude::config::{Channel, Config};

fn system() -> Channel {
    let mut c = Channel::new("System".to_string());
    c.is_builtin = true;
    c
}

fn manager() -> ChannelManager {
    let mut music = Channel::new("Music".to_string());
    music.add_application("Spotify".to_string());
    ChannelManager::new(Config { channels: vec![system(), music] })
}

fn sorted(mut v: Vec<u32>) -> Vec<u32> {
    v.sort();
    v
}

#[test]
fn create_channel_rejects_taken_names() {
    let mut m = manager();
    assert_eq!(m.create_channel("Music".to_string()), Err("Channel 'Music' already exists".to_string()));
    assert_eq!(m.channels().len(), 2);
    assert_eq!(m.create_channel("Voice".to_string()), Ok(()));
    assert_eq!(m.channels().len(), 3);
    assert_eq!(m.channels()[2].name, "Voice");
    assert!(m.get_channel_nodes("Voice").is_empty());
}

#[test]
fn builtin_channels_cannot_be_deleted() {
    let mut m = manager();
    assert!(m.is_builtin_channel("System"));
    assert!(!m.is_builtin_channel("Music"));
    assert!(!m.is_builtin_channel("Nothing"));
    assert_eq!(m.delete_channel("System"), Err("Cannot delete built-in channel 'System'".to_string()));
    assert_eq!(m.channels().len(), 2);
}

#[test]
fn deleting_a_channel_moves_its_nodes_to_system() {
    let mut m = manager();
    assert_eq!(m.on_node_added(7, "spotify"), Some("Music".to_string()));
    assert_eq!(m.on_node_added(8, "SPOTIFY"), Some("Music".to_string()));
    assert_eq!(m.delete_channel("Music"), Ok(()));
    assert_eq!(m.channels().len(), 1);
    assert_eq!(m.get_node_channel(7), Some("System"));
    assert_eq!(m.get_node_channel(8), Some("System"));
    assert_eq!(sorted(m.get_channel_nodes("System")), vec![7, 8]);
    assert!(m.get_channel_nodes("Music").is_empty());
}

#[test]
fn deleting_an_unknown_channel_fails() {
    let mut m = manager();
    assert_eq!(m.delete_channel("Ghost"), Err("Failed to remove channel 'Ghost'".to_string()));
    assert_eq!(m.channels().len(), 2);
}

#[test]
fn nodes_join_the_channel_of_their_application() {
    let mut m = manager();
    assert_eq!(m.on_node_added(1, "Spotify"), Some("Music".to_string()));
    assert_eq!(m.on_node_added(2, "Firefox"), None);
    assert_eq!(m.get_node_channel(1), Some("Music"));
    assert_eq!(m.get_node_channel(2), None);
    assert_eq!(m.get_channel_nodes("Music"), vec![1]);
    assert_eq!(m.get_unassigned_nodes(), vec![2]);
    m.on_node_removed(1);
    m.on_node_removed(2);
    assert_eq!(m.get_node_channel(1), None);
    assert!(m.get_channel_nodes("Music").is_empty());
    assert!(m.get_unassigned_nodes().is_empty());
}

#[test]
fn assigned_application_is_found_in_its_channel_only() {
    let mut m = manager();
    assert_eq!(m.assign_app_to_channel("spotify", "System"), Ok(()));
    assert_eq!(m.config().find_channel_for_app("Spotify").map(|c| c.name.clone()), Some("System".to_string()));
    assert!(m.channels()[1].applications.is_empty());
    assert_eq!(m.channels()[0].applications, vec!["spotify".to_string()]);
}

#[test]
fn assigning_to_an_unknown_channel_still_unassigns() {
    let mut m = manager();
    assert_eq!(m.assign_app_to_channel("Spotify", "Nowhere"), Err("Channel 'Nowhere' not found".to_string()));
    assert!(m.config().find_channel_for_app("Spotify").is_none());
}

#[test]
fn unassigned_application_is_not_found() {
    let mut m = manager();
    m.unassign_app("SpOtIfY");
    assert!(m.config().find_channel_for_app("spotify").is_none());
}

#[test]
fn assign_node_moves_the_running_node() {
    let mut m = manager();
    assert_eq!(m.on_node_added(5, "Firefox"), None);
    assert_eq!(m.assign_node_to_channel(5, "Firefox", "Music"), Ok(()));
    assert_eq!(m.get_node_channel(5), Some("Music"));
    assert!(m.get_unassigned_nodes().is_empty());
    assert_eq!(m.get_channel_nodes("Music"), vec![5]);
    assert_eq!(m.config().find_channel_for_app("firefox").map(|c| c.name.clone()), Some("Music".to_string()));
    assert_eq!(m.assign_node_to_channel(5, "Firefox", "Nope"), Err("Channel 'Nope' not found".to_string()));
    assert_eq!(m.get_node_channel(5), None);
    assert!(m.get_channel_nodes("Music").is_empty());
}

#[test]
fn channel_settings_change_the_named_channel() {
    let mut m = manager();
    m.set_channel_monitor_volume("Music", 0.25f64.to_bits());
    m.set_channel_monitor_muted("Music", true);
    m.set_channel_stream_volume("Music", 0.5f64.to_bits());
    m.set_channel_stream_muted("Music", true);
    m.set_channel_stream_muted("Ghost", true);
    let music = &m.channels()[1];
    assert_eq!(f64::from_bits(music.monitor_volume), 0.25);
    assert_eq!(f64::from_bits(music.stream_volume), 0.5);
    assert!(music.monitor_muted && music.stream_muted);
    assert!(!m.channels()[0].stream_muted);
}

#[test]
fn move_channel_in_the_manager() {
    let mut m = manager();
    m.move_channel("Music", 0);
    assert_eq!(m.channels()[0].name, "Music");
    assert_eq!(m.channels()[1].name, "System");
    m.config_mut().add_channel("Extra".to_string());
    assert_eq!(m.channels().len(), 3);
}
