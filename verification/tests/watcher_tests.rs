use plato_config::watcher::{ConfigWatcher, DEFAULT_POLL_MS};

#[test]
fn reload_only_on_change() {
    let mut st = ConfigWatcher::start(Some(10));
    assert!(!ConfigWatcher::observe(&mut st, Some(10)));
    assert!(ConfigWatcher::observe(&mut st, Some(11)));
    assert_eq!(st.last_modified, Some(11));
    assert!(!ConfigWatcher::observe(&mut st, Some(11)));
}

#[test]
fn missing_file_counts_as_change() {
    let mut st = ConfigWatcher::start(None);
    assert!(!ConfigWatcher::observe(&mut st, None));
    assert!(ConfigWatcher::observe(&mut st, Some(-5)));
    assert!(ConfigWatcher::observe(&mut st, None));
    assert_eq!(st.last_modified, None);
}

#[test]
fn default_poll_is_one_second() {
    assert_eq!(DEFAULT_POLL_MS, 1000);
}
