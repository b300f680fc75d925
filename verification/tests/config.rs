use yubikey_notifier::config::{parse_config, Config, ConfigMap};
use yubikey_notifier::sound::{DEFAULT_SOUND, DEFAULT_VOLUME};

#[test]
fn parse_empty() {
    let map = parse_config("");
    assert!(map.is_empty());
}

#[test]
fn parse_comments_and_whitespace() {
    let input = "# comment\n  \n  key = value  \n";
    let map = parse_config(input);
    assert_eq!(map.get("key").unwrap(), "value");
}

#[test]
fn parse_multiple_keys() {
    let input = "scdaemon=/usr/bin/scdaemon\nsound=Funk.aiff\nvolume=1.5\n";
    let map = parse_config(input);
    assert_eq!(map.get("scdaemon").unwrap(), "/usr/bin/scdaemon");
    assert_eq!(map.get("sound").unwrap(), "Funk.aiff");
    assert_eq!(map.get("volume").unwrap(), "1.5");
}

#[test]
fn config_round_trip() {
    let config = Config {
        scdaemon: Some("/usr/bin/scdaemon".to_string()),
        sound: "/System/Library/Sounds/Funk.aiff".to_string(),
        volume: "1.5".to_string(),
    };
    let serialized = config.serialize();
    let map = parse_config(&serialized);
    assert_eq!(map.get("scdaemon").unwrap(), "/usr/bin/scdaemon");
    assert_eq!(map.get("sound").unwrap(), "/System/Library/Sounds/Funk.aiff");
    assert_eq!(map.get("volume").unwrap(), "1.5");
}

#[test]
fn config_round_trip_no_scdaemon() {
    let config = Config {
        scdaemon: None,
        ..Config::default()
    };
    let serialized = config.serialize();
    let map = parse_config(&serialized);
    assert!(!map.contains_key("scdaemon"));
}

#[test]
fn serialize_writes_one_line_per_setting() {
    let config = Config {
        scdaemon: Some("/opt/scd".to_string()),
        sound: "a.aiff".to_string(),
        volume: "3".to_string(),
    };
    assert_eq!(config.serialize(), "scdaemon=/opt/scd\nsound=a.aiff\nvolume=3\n");
    let config = Config { scdaemon: None, ..config };
    assert_eq!(config.serialize(), "sound=a.aiff\nvolume=3\n");
}

#[test]
fn saved_config_loads_back_unchanged() {
    let config = Config {
        scdaemon: Some("/usr/local/libexec/scdaemon".to_string()),
        sound: "/System/Library/Sounds/Ping.aiff".to_string(),
        volume: "0.5".to_string(),
    };
    let loaded = Config::from_contents(Some(&config.serialize()));
    assert_eq!(loaded, config);
    let without = Config { scdaemon: None, ..Config::default() };
    assert_eq!(Config::from_contents(Some(&without.serialize())), without);
}

#[test]
fn no_config_file_gives_defaults() {
    let config = Config::from_contents(None);
    assert_eq!(config, Config::default());
    assert_eq!(config.scdaemon, None);
    assert_eq!(config.sound, DEFAULT_SOUND);
    assert_eq!(config.volume, DEFAULT_VOLUME);
}

#[test]
fn empty_scdaemon_counts_as_unset() {
    let config = Config::from_contents(Some("scdaemon=\nvolume=1\n"));
    assert_eq!(config.scdaemon, None);
    assert_eq!(config.sound, DEFAULT_SOUND);
    assert_eq!(config.volume, "1");
}

#[test]
fn later_setting_replaces_earlier() {
    let map = parse_config("sound=a\nsound = b\r\n");
    assert_eq!(map.get("sound").unwrap(), "b");
}

#[test]
fn lines_without_equals_or_commented_are_ignored() {
    let map = parse_config("just text\n  # key=value\n=empty key\n");
    assert!(!map.contains_key("just text"));
    assert!(!map.contains_key("# key"));
    assert_eq!(map.get("").unwrap(), "empty key");
}

#[test]
fn value_keeps_later_equals_signs() {
    let map = parse_config("volume = 1=2 \t");
    assert_eq!(map.get("volume").unwrap(), "1=2");
}

#[test]
fn unicode_whitespace_is_trimmed() {
    let map = parse_config("\u{3000}key\u{a0}=\u{2003}v\u{85}\n");
    assert_eq!(map.get("key").unwrap(), "v");
}

#[test]
fn config_map_insert_and_get() {
    let mut map = ConfigMap::new();
    assert!(map.is_empty());
    map.insert("a".to_string(), "1".to_string());
    map.insert("b".to_string(), "2".to_string());
    map.insert("a".to_string(), "3".to_string());
    assert!(!map.is_empty());
    assert_eq!(map.get("a").unwrap(), "3");
    assert_eq!(map.get("b").unwrap(), "2");
    assert!(map.get("c").is_none());
}
