use xterm_rs::config::{
    default_layout, default_theme, AppConfig, ChangeKind, ConfigWatcher, DEBOUNCE_MILLIS,
};

#[test]
fn defaults_are_qwerty_and_default() {
    assert_eq!(default_layout(), "qwerty");
    assert_eq!(default_theme(), "Default");
    let config = AppConfig::default();
    assert_eq!(config.layout, "qwerty");
    assert_eq!(config.theme, "Default");
}

#[test]
fn missing_keys_take_defaults() {
    let config = AppConfig::from_parts(None, None);
    assert_eq!((config.layout.as_str(), config.theme.as_str()), ("qwerty", "Default"));
    let config = AppConfig::from_parts(Some("azerty".to_string()), None);
    assert_eq!((config.layout.as_str(), config.theme.as_str()), ("azerty", "Default"));
    let config = AppConfig::from_parts(None, Some("Solarized".to_string()));
    assert_eq!((config.layout.as_str(), config.theme.as_str()), ("qwerty", "Solarized"));
    let config = AppConfig::from_parts(Some("a".to_string()), Some("b".to_string()));
    assert_eq!((config.layout.as_str(), config.theme.as_str()), ("a", "b"));
}

#[test]
fn clone_keeps_both_keys() {
    let config = AppConfig { layout: "colemak".to_string(), theme: "Light".to_string() };
    let copy = config.clone();
    assert_eq!(copy.layout, "colemak");
    assert_eq!(copy.theme, "Light");
}

#[test]
fn watcher_starts_with_defaults_when_read_failed() {
    let watcher = ConfigWatcher::new(None, "config.toml".to_string());
    let current = watcher.current();
    assert_eq!((current.layout.as_str(), current.theme.as_str()), ("qwerty", "Default"));
    let given = AppConfig { layout: "dvorak".to_string(), theme: "Dark".to_string() };
    let watcher = ConfigWatcher::new(Some(given), "config.toml".to_string());
    let current = watcher.current();
    assert_eq!((current.layout.as_str(), current.theme.as_str()), ("dvorak", "Dark"));
}

#[test]
fn watcher_passes_over_siblings_and_other_kinds() {
    let watcher = ConfigWatcher::new(None, "config.toml".to_string());
    let target = "config.toml".to_string();
    let sibling = "config.toml.swp".to_string();
    assert!(watcher.concerns(Some(&target), ChangeKind::Any));
    assert!(watcher.concerns(Some(&target), ChangeKind::AnyContinuous));
    assert!(!watcher.concerns(Some(&target), ChangeKind::Other));
    assert!(!watcher.concerns(Some(&sibling), ChangeKind::Any));
    assert!(!watcher.concerns(None, ChangeKind::Any));
}

#[test]
fn reload_publishes_what_was_read() {
    let mut watcher = ConfigWatcher::new(None, "config.toml".to_string());
    assert!(watcher.reloaded(None).is_none());
    assert_eq!(watcher.current().layout, "qwerty");
    let read = AppConfig { layout: "dvorak".to_string(), theme: "Dark".to_string() };
    match watcher.reloaded(Some(read)) {
        Some(published) => {
            assert_eq!(published.layout, "dvorak");
            assert_eq!(published.theme, "Dark");
        }
        None => panic!("a configuration that was read is published"),
    }
    assert_eq!(watcher.current().layout, "dvorak");
    assert_eq!(watcher.current().theme, "Dark");
    assert!(watcher.reloaded(None).is_none());
    assert_eq!(watcher.current().theme, "Dark");
    let target = "config.toml".to_string();
    assert!(watcher.concerns(Some(&target), ChangeKind::Any));
}

#[test]
fn changes_are_debounced_for_fifty_milliseconds() {
    assert_eq!(DEBOUNCE_MILLIS, 50);
}
