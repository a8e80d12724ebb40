use station_emulator::tracker::CorrelationTracker;

fn s(x: &str) -> String {
    x.to_string()
}

#[test]
fn resolve_returns_the_tracked_action_exactly_once() {
    let mut t = CorrelationTracker::new();
    t.track(s("id-1"), s("BootNotification"));
    t.track(s("id-2"), s("Heartbeat"));
    assert!(t.contains("id-1"));
    assert_eq!(t.resolve("id-1"), Some(s("BootNotification")));
    assert!(!t.contains("id-1"));
    assert_eq!(t.resolve("id-1"), None);
    assert_eq!(t.resolve("id-2"), Some(s("Heartbeat")));
    assert_eq!(t.resolve("id-2"), None);
}

#[test]
fn resolving_an_untracked_id_changes_nothing() {
    let mut t = CorrelationTracker::new();
    t.track(s("id-1"), s("StatusNotification"));
    assert_eq!(t.resolve("other"), None);
    assert!(t.contains("id-1"));
}

#[test]
fn tracking_an_id_again_replaces_its_entry() {
    let mut t = CorrelationTracker::new();
    t.track(s("id-1"), s("Heartbeat"));
    t.track(s("id-1"), s("StopTransaction"));
    assert_eq!(t.resolve("id-1"), Some(s("StopTransaction")));
    assert_eq!(t.resolve("id-1"), None);
}
