use std::cell::RefCell;
use tailsend::telemetry::events;
use tailsend::telemetry::{
    init, is_enabled, length_bucket, log_event, record_error, remote_lookup, remote_string,
    set_enabled, set_user_property, TelemetryBackend, TelemetryEvent, TelemetryState,
};

/// A backend that counts what reaches it.
#[derive(Default)]
struct CountingBackend {
    events: RefCell<usize>,
    properties: RefCell<usize>,
    last: RefCell<Option<(String, Vec<(String, String)>)>>,
    remote: RefCell<Option<String>>,
    collection: RefCell<Option<bool>>,
}

impl TelemetryBackend for CountingBackend {
    fn log_event(&self, name: &str, params: &[(String, String)]) {
        self.last.replace(Some((name.to_string(), params.to_vec())));
        *self.events.borrow_mut() += 1;
    }
    fn set_user_property(&self, _name: &str, _value: &str) {
        *self.properties.borrow_mut() += 1;
    }
    fn set_collection_enabled(&self, enabled: bool) {
        self.collection.replace(Some(enabled));
    }
    fn remote_config_string(&self, _key: &str) -> Option<String> {
        self.remote.borrow().clone()
    }
}

/// Hands what the state lets through to the backend, as the process-wide
/// telemetry does.
fn deliver(backend: &CountingBackend, event: Option<TelemetryEvent>) {
    if let Some(e) = event {
        backend.log_event(&e.name, &e.params);
    }
}

fn property(backend: &CountingBackend, p: Option<(String, String)>) {
    if let Some((k, v)) = p {
        backend.set_user_property(&k, &v);
    }
}

fn remote(state: &TelemetryState, backend: &CountingBackend, key: &str, default: &str) -> String {
    let answer = if remote_lookup(state) { backend.remote_config_string(key) } else { None };
    remote_string(state, default, answer)
}

#[test]
fn records_events_and_respects_disabled_state() {
    let backend = CountingBackend::default();
    let mut state = TelemetryState::new();

    // Before init: log_event is a no-op, remote_string returns default.
    deliver(&backend, log_event(&state, "app_start", &[("platform", "test")]));
    assert_eq!(remote(&state, &backend, "k", "fallback"), "fallback");

    init(&mut state, true);
    deliver(&backend, log_event(&state, "app_start", &[("platform", "test")]));
    deliver(&backend, events::error(&state, "other"));
    property(&backend, set_user_property(&state, "platform", "test"));
    assert_eq!(2, *backend.events.borrow());
    assert_eq!(1, *backend.properties.borrow());
    assert_eq!(
        Some(("error".to_string(), vec![("category".to_string(), "other".to_string())])),
        backend.last.borrow().clone()
    );

    if set_enabled(&mut state, false) {
        backend.set_collection_enabled(false);
    }
    deliver(&backend, log_event(&state, "app_start", &[]));
    property(&backend, set_user_property(&state, "k", "v"));
    assert_eq!(2, *backend.events.borrow());
    assert_eq!(1, *backend.properties.borrow());
    assert_eq!(remote(&state, &backend, "k", "d"), "d");
    assert_eq!(*backend.collection.borrow(), Some(false));

    set_enabled(&mut state, true);
    deliver(&backend, log_event(&state, "app_start", &[]));
    assert_eq!(3, *backend.events.borrow());

    // Remote config passthrough.
    backend.remote.replace(Some("value".to_string()));
    assert_eq!(remote(&state, &backend, "cfg", "d"), "value");
}

#[test]
fn length_buckets_are_stable() {
    assert_eq!(length_bucket(0), "xs");
    assert_eq!(length_bucket(20), "xs");
    assert_eq!(length_bucket(100), "s");
    assert_eq!(length_bucket(500), "m");
    assert_eq!(length_bucket(2000), "l");
    assert_eq!(length_bucket(2001), "xl");
}

#[test]
fn length_bucket_edges() {
    assert_eq!(length_bucket(21), "s");
    assert_eq!(length_bucket(101), "m");
    assert_eq!(length_bucket(501), "l");
    assert_eq!(length_bucket(usize::MAX), "xl");
}

#[test]
fn state_starts_enabled_and_uninstalled() {
    let mut state = TelemetryState::new();
    assert!(is_enabled(&state));
    assert!(!remote_lookup(&state));
    assert!(!set_enabled(&mut state, false));
    assert!(!is_enabled(&state));
    init(&mut state, false);
    assert!(!remote_lookup(&state));
    assert!(record_error(&state, "storage").is_none());
    init(&mut state, true);
    let e = record_error(&state, "storage").unwrap();
    assert_eq!(e.name, "error");
    assert_eq!(e.params, vec![("category".to_string(), "storage".to_string())]);
}

#[test]
fn event_helpers_send_counts_and_never_names() {
    let mut state = TelemetryState::new();
    init(&mut state, true);
    let e = events::transfer_started(&state, 3, "direct", "send").unwrap();
    assert_eq!(e.name, "transfer_started");
    assert_eq!(
        e.params,
        vec![
            ("file_count".to_string(), "3".to_string()),
            ("transport".to_string(), "direct".to_string()),
            ("direction".to_string(), "send".to_string()),
        ]
    );
    let e = events::app_end(&state, 123_456_789_012_345_678_901).unwrap();
    assert_eq!(e.name, "app_end");
    assert_eq!(
        e.params,
        vec![("session_duration_ms".to_string(), "123456789012345678901".to_string())]
    );
    let e = events::text_message_sent(&state, length_bucket(42)).unwrap();
    assert_eq!(e.params, vec![("length_bucket".to_string(), "s".to_string())]);
}
