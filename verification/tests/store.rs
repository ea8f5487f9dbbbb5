use message_logger::store::LogConfig;

#[test]
fn empty_config_has_no_channels() {
    let config = LogConfig::new();
    assert_eq!(config.get(42), None);
    assert!(config.all_keys().is_empty());
    assert!(config.all_entries().is_empty());
}

#[test]
fn put_then_get() {
    let mut config = LogConfig::new();
    config.put(10, 100);
    config.put(20, 200);
    assert_eq!(config.get(10), Some(100));
    assert_eq!(config.get(20), Some(200));
    assert_eq!(config.get(30), None);
}

#[test]
fn put_overwrites_an_existing_channel() {
    let mut config = LogConfig::new();
    config.put(10, 100);
    config.put(10, 101);
    assert_eq!(config.get(10), Some(101));
    assert_eq!(config.all_entries().len(), 1);
}

#[test]
fn remove_returns_the_old_channel() {
    let mut config = LogConfig::new();
    config.put(10, 100);
    assert_eq!(config.remove(10), Some(100));
    assert_eq!(config.get(10), None);
    assert_eq!(config.remove(10), None);
}

#[test]
fn retain_drops_servers_the_bot_left() {
    let mut config = LogConfig::new();
    config.put(1, 11);
    config.put(2, 22);
    config.put(3, 33);
    config.retain_servers(&vec![1, 3, 9]);
    assert_eq!(config.get(1), Some(11));
    assert_eq!(config.get(2), None);
    assert_eq!(config.get(3), Some(33));
    assert_eq!(config.all_entries().len(), 2);
}

#[test]
fn from_entries_takes_the_last_entry_per_server() {
    let entries = vec![(1, 10), (2, 20), (1, 11)];
    let config = LogConfig::from_entries(&entries);
    assert_eq!(config.get(1), Some(11));
    assert_eq!(config.get(2), Some(20));
    assert_eq!(config.all_entries().len(), 2);
}

#[test]
fn all_keys_lists_each_server_once() {
    let mut config = LogConfig::new();
    config.put(7, 70);
    config.put(8, 80);
    config.put(7, 71);
    let mut keys = config.all_keys();
    keys.sort();
    assert_eq!(keys, vec![7, 8]);
}

#[test]
fn entries_round_trip_through_persistence() {
    let mut config = LogConfig::new();
    config.put(5, 50);
    config.put(6, 60);
    let stored = config.all_entries();
    let reloaded = LogConfig::from_entries(&stored);
    assert_eq!(reloaded.get(5), Some(50));
    assert_eq!(reloaded.get(6), Some(60));
    assert_eq!(reloaded.all_entries().len(), 2);
}
