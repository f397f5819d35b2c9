use run_coordination::watcher::{EngineEvent, Observation, Watcher};

fn changed(address: &str) -> EngineEvent<String> {
    EngineEvent::AddressChanged { address: address.to_string() }
}

fn address_of(observation: Option<Observation<String>>) -> Option<String> {
    match observation {
        Some(Observation::Address { address }) => Some(address),
        _ => None,
    }
}

#[test]
fn a_new_watcher_is_armed_and_holds_nothing() {
    let mut w: Watcher<String> = Watcher::new();
    assert!(w.is_armed());
    assert!(w.take().is_none());
    assert!(w.is_armed());
}

#[test]
fn other_events_leave_the_watcher_armed() {
    let mut w: Watcher<String> = Watcher::new();
    for _ in 0..5 {
        w.on_event(EngineEvent::Other);
        assert!(w.is_armed());
    }
    assert!(w.take().is_none());
}

#[test]
fn the_first_address_change_fires_the_watcher() {
    let mut w: Watcher<String> = Watcher::new();
    w.on_event(EngineEvent::Other);
    w.on_event(changed("10.0.0.7:9000"));
    assert!(!w.is_armed());
    assert_eq!(address_of(w.take()), Some("10.0.0.7:9000".to_string()));
}

#[test]
fn later_events_are_dropped() {
    let mut w: Watcher<String> = Watcher::new();
    w.on_event(changed("10.0.0.7:9000"));
    w.on_event(changed("10.0.0.8:9000"));
    w.on_event(EngineEvent::Other);
    w.on_feed_closed();
    assert!(!w.is_armed());
    assert_eq!(address_of(w.take()), Some("10.0.0.7:9000".to_string()));
}

#[test]
fn a_feed_that_closes_first_is_reported_as_closed() {
    let mut w: Watcher<String> = Watcher::new();
    w.on_event(EngineEvent::Other);
    w.on_feed_closed();
    assert!(!w.is_armed());
    assert!(matches!(w.take(), Some(Observation::FeedClosed)));
}

#[test]
fn an_empty_feed_is_reported_as_closed() {
    let mut w: Watcher<String> = Watcher::new();
    w.on_feed_closed();
    assert!(matches!(w.take(), Some(Observation::FeedClosed)));
}

#[test]
fn a_closed_watcher_does_not_arm_again() {
    let mut w: Watcher<String> = Watcher::new();
    w.on_feed_closed();
    w.on_event(changed("10.0.0.7:9000"));
    assert!(!w.is_armed());
    assert!(matches!(w.take(), Some(Observation::FeedClosed)));
}

#[test]
fn the_result_is_handed_out_once() {
    let mut w: Watcher<String> = Watcher::new();
    w.on_event(changed("10.0.0.7:9000"));
    assert!(w.take().is_some());
    assert!(w.take().is_none());
    assert!(w.take().is_none());
    assert!(!w.is_armed());
    w.on_event(changed("10.0.0.9:9000"));
    w.on_feed_closed();
    assert!(w.take().is_none());
}
