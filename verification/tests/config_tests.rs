use amplitude::config::{
    Channel, Config, DEFAULT_MONITOR_LEVEL_BITS, DEFAULT_STREAM_LEVEL_BITS, SYSTEM_CHANNEL_NAME,
};

fn named(name: &str, apps: &[&str]) -> Channel {
    let mut c = Channel::new(name.to_string());
    for a in apps {
        c.add_application(a.to_string());
    }
    c
}

fn names(config: &Config) -> Vec<String> {
    config.channels.iter().map(|c| c.name.clone()).collect()
}

#[test]
fn new_channel_has_default_levels() {
    let c = Channel::new("Games".to_string());
    assert_eq!(c.name, "Games");
    assert!(c.applications.is_empty());
    assert_eq!(f64::from_bits(c.monitor_volume), 0.8);
    assert_eq!(f64::from_bits(c.stream_volume), 0.7);
    assert_eq!(c.monitor_volume, DEFAULT_MONITOR_LEVEL_BITS);
    assert_eq!(c.stream_volume, DEFAULT_STREAM_LEVEL_BITS);
    assert!(!c.monitor_muted && !c.stream_muted && !c.is_builtin);
}

#[test]
fn system_channel_name() {
    assert_eq!(SYSTEM_CHANNEL_NAME, "System");
}

#[test]
fn applications_match_ignoring_ascii_case() {
    let c = named("Music", &["Spotify"]);
    assert!(c.matches_application("spotify"));
    assert!(c.matches_application("SPOTIFY"));
    assert!(!c.matches_application("Spotif"));
    assert!(!c.matches_application("Firefox"));
}

#[test]
fn add_application_skips_names_already_listed() {
    let mut c = named("Music", &["Spotify"]);
    c.add_application("spotify".to_string());
    assert_eq!(c.applications, vec!["Spotify".to_string()]);
    c.add_application("Rhythmbox".to_string());
    assert_eq!(c.applications, vec!["Spotify".to_string(), "Rhythmbox".to_string()]);
}

#[test]
fn remove_application_drops_every_spelling() {
    let mut c = Channel::new("Music".to_string());
    c.applications = vec!["Spotify".to_string(), "vlc".to_string(), "SPOTIFY".to_string()];
    c.remove_application("spotify");
    assert_eq!(c.applications, vec!["vlc".to_string()]);
    c.remove_application("absent");
    assert_eq!(c.applications, vec!["vlc".to_string()]);
}

#[test]
fn find_channel_for_app_takes_the_first_listing() {
    let config = Config {
        channels: vec![named("A", &["x"]), named("B", &["firefox"]), named("C", &["Firefox"])],
    };
    assert_eq!(config.find_channel_index_for_app("FIREFOX"), Some(1));
    assert_eq!(config.find_channel_for_app("firefox").map(|c| c.name.clone()), Some("B".to_string()));
    assert!(config.find_channel_for_app("chrome").is_none());
}

#[test]
fn get_channel_is_exact_on_names() {
    let config = Config { channels: vec![named("Games", &[]), named("games", &[])] };
    assert_eq!(config.get_channel_index("games"), Some(1));
    assert_eq!(config.get_channel("Games").map(|c| c.name.clone()), Some("Games".to_string()));
    assert!(config.get_channel("GAMES").is_none());
}

#[test]
fn added_channel_is_found() {
    let mut config = Config { channels: vec![named("System", &[])] };
    config.add_channel("Voice".to_string());
    assert_eq!(config.channels.len(), 2);
    assert_eq!(config.get_channel_index("Voice"), Some(1));
    assert_eq!(config.channels[1].monitor_volume, DEFAULT_MONITOR_LEVEL_BITS);
}

#[test]
fn remove_channel_reports_whether_it_removed() {
    let mut config = Config { channels: vec![named("A", &[]), named("B", &[]), named("A", &[])] };
    assert!(config.remove_channel("A"));
    assert_eq!(names(&config), vec!["B".to_string()]);
    assert!(!config.remove_channel("A"));
    assert!(config.get_channel("A").is_none());
}

#[test]
fn get_channel_mut_changes_the_first_named() {
    let mut config = Config { channels: vec![named("A", &[]), named("B", &[])] };
    if let Some(c) = config.get_channel_mut("B") {
        c.stream_muted = true;
    }
    assert!(config.channels[1].stream_muted);
    assert!(config.get_channel_mut("Z").is_none());
}

#[test]
fn move_channel_reorders_without_losing_any() {
    let mut config = Config { channels: vec![named("A", &[]), named("B", &[]), named("C", &[]), named("D", &[])] };
    config.move_channel("A", 2);
    assert_eq!(names(&config), vec!["B", "C", "A", "D"]);
    config.move_channel("D", 0);
    assert_eq!(names(&config), vec!["D", "B", "C", "A"]);
    // A position past the end puts the channel last.
    config.move_channel("B", 99);
    assert_eq!(names(&config), vec!["D", "C", "A", "B"]);
    // An unknown name changes nothing.
    config.move_channel("Z", 0);
    assert_eq!(names(&config), vec!["D", "C", "A", "B"]);
    let mut sorted = names(&config);
    sorted.sort();
    assert_eq!(sorted, vec!["A", "B", "C", "D"]);
}

#[test]
fn changing_channels_in_place() {
    let mut config = Config::default();
    assert!(config.channels.is_empty());
    config.add_channel("Games".to_string()).add_application("Steam".to_string());
    assert_eq!(config.channels[0].applications, vec!["Steam".to_string()]);
    if let Some(c) = config.find_channel_for_app_mut("steam") {
        c.monitor_muted = true;
    }
    assert!(config.channels[0].monitor_muted);
    assert!(config.find_channel_for_app_mut("discord").is_none());
}
