use tailsend::platform::ReceivedItem;
use tailsend::session::service::{BackendSnapshot, ServiceCore};
use tailsend::session::state::{AppEvent, SessionState};
use tailsend::session::ui::{map_event, ui_event_sequence, UiEvent, UiSnapshot, UiStateAdapter};
use tailsend::transport::TransportPath;

fn snapshot(sequence: u64) -> UiSnapshot {
    let mut backend = BackendSnapshot::default();
    backend.sequence = sequence;
    UiSnapshot::from_backend(backend, Vec::new())
}

#[test]
fn interface_starts_from_the_booting_snapshot() {
    let adapter = UiStateAdapter::default();
    assert!(adapter.current_snapshot.invite_qr_url.is_none());
    assert!(!adapter.current_snapshot.can_send);
    let ui = snapshot(0);
    assert_eq!(ui.state, "booting");
    assert_eq!(ui.api_version, 2);
}

#[test]
fn progress_and_terminal_events_name_the_transfer() {
    let event = map_event(
        snapshot(7),
        8,
        AppEvent::TransferProgress { transfer_id: [0xab; 16], bytes_done: 3, bytes_total: 9 },
    );
    match &event {
        UiEvent::Progress { sequence, id, done, total } => {
            assert_eq!(*sequence, 8);
            assert_eq!(id, &"ab".repeat(16));
            assert_eq!((*done, *total), (3, 9));
        }
        _ => panic!("expected progress"),
    }
    assert_eq!(ui_event_sequence(&event), 8);

    let cancelled = map_event(
        snapshot(7),
        9,
        AppEvent::TransferCancelled {
            transfer_id: [1; 16],
            reason: "Transfer cancelled by user".into(),
        },
    );
    assert!(matches!(cancelled, UiEvent::Terminal { status: "cancelled", .. }));
    let failed = map_event(
        snapshot(7),
        9,
        AppEvent::TransferCancelled { transfer_id: [1; 16], reason: "disk".into() },
    );
    assert!(matches!(failed, UiEvent::Terminal { status: "failed", message: Some(_), .. }));
    let done = map_event(snapshot(7), 10, AppEvent::TransferCompleted { transfer_id: [1; 16] });
    assert!(matches!(done, UiEvent::Terminal { status: "completed", message: None, .. }));
}

#[test]
fn error_events_mark_only_the_current_snapshot() {
    let current = map_event(
        snapshot(5),
        5,
        AppEvent::ErrorOccurred { code: 1004, message: "expired".into() },
    );
    match current {
        UiEvent::Snapshot { sequence, snapshot } => {
            assert_eq!(sequence, 5);
            assert_eq!(snapshot.error.as_deref(), Some("1004: expired"));
        }
        _ => panic!("expected a snapshot"),
    }
    let late = map_event(
        snapshot(6),
        5,
        AppEvent::ErrorOccurred { code: 1004, message: "expired".into() },
    );
    match late {
        UiEvent::Snapshot { sequence, snapshot } => {
            assert_eq!(sequence, 6);
            assert!(snapshot.error.is_none());
        }
        _ => panic!("expected a snapshot"),
    }
}

#[test]
fn received_files_and_texts_are_passed_on() {
    let files = map_event(
        snapshot(1),
        2,
        AppEvent::FilesReceived {
            items: vec![ReceivedItem {
                name: "a.txt".into(),
                size: 3,
                local_path_or_handle: "/d/a.txt".into(),
            }],
        },
    );
    match files {
        UiEvent::Files { items, .. } => {
            assert_eq!(items.len(), 1);
            assert_eq!(items[0].name, "a.txt");
            assert_eq!(items[0].local_path_or_handle, "/d/a.txt");
        }
        _ => panic!("expected files"),
    }
    let text = map_event(snapshot(1), 3, AppEvent::TextReceived { text: "hi".into() });
    assert!(matches!(text, UiEvent::Text { sequence: 3, incoming: true, .. }));
    let path = map_event(snapshot(4), 3, AppEvent::TransportChanged(TransportPath::Derp));
    assert!(matches!(path, UiEvent::Snapshot { sequence: 4, .. }));
}

#[test]
fn delayed_error_does_not_taint_a_replacement_session_snapshot() {
    let mut service = ServiceCore::new(32);
    let earlier = service
        .emit(AppEvent::ErrorOccurred { code: 1, message: "old connection".into() }, 0)
        .pop()
        .unwrap();
    let current = service.begin_session();
    service.emit_for(current, AppEvent::StateChanged(SessionState::Booting), 0).unwrap();
    let ui = UiSnapshot::from_backend(service.snapshot(0), Vec::new());
    let UiEvent::Snapshot { snapshot, .. } = map_event(ui, earlier.sequence, earlier.event) else {
        panic!("expected snapshot")
    };
    assert_eq!(snapshot.state, "booting");
    assert!(snapshot.error.is_none());
}

#[test]
fn peer_and_transport_cancellations_end_as_cancelled() {
    for reason in ["Transfer cancelled by peer", "Operation cancelled"] {
        let event = map_event(
            snapshot(3),
            4,
            AppEvent::TransferCancelled { transfer_id: [2; 16], reason: reason.into() },
        );
        match event {
            UiEvent::Terminal { sequence, status, message, .. } => {
                assert_eq!(sequence, 4);
                assert_eq!(status, "cancelled");
                assert_eq!(message.as_deref(), Some(reason));
            }
            _ => panic!("expected a terminal event"),
        }
    }
}
