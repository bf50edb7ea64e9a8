//! The event history and its live feed.

use bun::events::{EventKind, EventSeverity, EventStore, EVENT_BUFFER_CAP};

fn record(store: &mut EventStore, app: &str, severity: EventSeverity) -> u64 {
    store.record(
        1,
        EventKind::Deploy,
        severity,
        Some(app.to_string()),
        Some("default".to_string()),
        None,
        format!("deployed {app}"),
    )
}

#[test]
fn sequence_increases_and_ring_discards_oldest() {
    let mut store = EventStore::new();
    for index in 0..EVENT_BUFFER_CAP + 2 {
        record(&mut store, &format!("app-{index}"), EventSeverity::Info);
    }
    let events = store.recent(EVENT_BUFFER_CAP, None, None);
    assert_eq!(events.len(), EVENT_BUFFER_CAP);
    assert_eq!(events.first().map(|event| event.sequence), Some(3));
    assert_eq!(events.last().map(|event| event.sequence), Some(1026));
}

#[test]
fn recent_filters_by_app_and_minimum_severity() {
    let mut store = EventStore::new();
    record(&mut store, "web", EventSeverity::Info);
    record(&mut store, "web", EventSeverity::Critical);
    record(&mut store, "worker", EventSeverity::Critical);
    let events = store.recent(10, Some("web"), Some(EventSeverity::Warning));
    assert_eq!(events.len(), 1);
    assert_eq!(events[0].app.as_deref(), Some("web"));
}

#[test]
fn subscribers_receive_new_events() {
    let mut store = EventStore::new();
    let mut receiver = store.subscribe();
    record(&mut store, "web", EventSeverity::Info);
    assert_eq!(receiver.try_recv().unwrap().sequence, 1);
}

#[test]
fn recording_without_subscribers_is_no_error() {
    let mut store = EventStore::default();
    assert_eq!(record(&mut store, "web", EventSeverity::Info), 1);
    let mut receiver = store.subscribe();
    assert!(receiver.try_recv().is_err());
    assert_eq!(record(&mut store, "api", EventSeverity::Warning), 2);
    let event = receiver.try_recv().unwrap();
    assert_eq!(event.app.as_deref(), Some("api"));
    assert_eq!(event.message, "deployed api");
}

#[test]
fn recent_keeps_the_latest_in_order() {
    let mut store = EventStore::new();
    for app in ["a", "b", "c"] {
        record(&mut store, app, EventSeverity::Info);
    }
    let apps: Vec<_> = store.recent(2, None, None).into_iter().map(|e| e.app.unwrap()).collect();
    assert_eq!(apps, vec!["b", "c"]);
    assert!(store.recent(0, None, None).is_empty());
}

#[test]
fn subscribers_hear_exactly_what_follows() {
    let mut store = EventStore::new();
    let mut early = store.subscribe();
    record(&mut store, "a", EventSeverity::Info);
    let mut late = store.subscribe();
    record(&mut store, "b", EventSeverity::Critical);
    assert_eq!(early.try_recv().unwrap().app.as_deref(), Some("a"));
    let heard = early.try_recv().unwrap();
    assert_eq!(Some(&heard), store.recent(1, None, None).last());
    assert_eq!(late.try_recv().unwrap(), heard);
    assert!(early.try_recv().is_err() && late.try_recv().is_err());
}
