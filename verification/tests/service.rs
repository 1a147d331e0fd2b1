use tailsend::protocol::control::{Capabilities, PeerInfo, PlatformKind};
use tailsend::session::service::{terminal_transfer, ServiceCore};
use tailsend::session::state::{AppEvent, SessionState};
use tailsend::transport::TransportPath;

fn awaiting(url: &str, expires_at: u64) -> SessionState {
    SessionState::AwaitingPeer {
        invite_url: url.into(),
        expires_at,
        host_address: "host".into(),
    }
}

#[test]
fn replacing_session_cancels_all_streams_and_rejects_late_updates() {
    let mut service = ServiceCore::new(32);
    let previous = service.begin_session();
    let current = service.begin_session();
    assert!(service
        .emit_for(
            current,
            AppEvent::StateChanged(SessionState::AwaitingPeer {
                invite_url: "new".into(),
                expires_at: 0,
                host_address: "new".into(),
            }),
            0
        )
        .is_some());
    let sequence = service.snapshot(0).sequence;
    assert!(!service.is_current(previous));
    assert!(service
        .emit_for(previous, AppEvent::TextReceived { text: "stale".into() }, 0)
        .is_none());
    assert!(service
        .emit_for(
            previous,
            AppEvent::StateChanged(SessionState::Error { code: 1, message: "late close".into() }),
            0
        )
        .is_none());
    assert!(service.progress_for(previous, [1; 16], 10, 10, 0).is_none());
    assert!(service.restore_connected_idle(previous, [1; 16], 0).is_none());
    assert_eq!(service.snapshot(0).sequence, sequence);
    assert!(service.snapshot(0).received_messages.is_empty());
    assert_eq!(service.snapshot(0).app.invite_qr_url.as_deref(), Some("new"));
}

#[test]
fn finishing_one_transfer_preserves_peer_metadata_and_other_active_transfer() {
    let mut service = ServiceCore::new(32);
    let scope = service.begin_session();
    let connected = SessionState::ConnectedIdle {
        peer_info: PeerInfo::new_native("Phone".into(), PlatformKind::IOS, "test".into()),
        peer_capabilities: Capabilities::default(),
        peer_address: "peer-address".into(),
        transport_path: TransportPath::Derp,
    };
    service.emit_for(scope, AppEvent::StateChanged(connected.clone()), 0).unwrap();
    service
        .emit_for(
            scope,
            AppEvent::StateChanged(SessionState::Transferring {
                transfer_id: [2; 16],
                is_incoming: true,
                is_files: true,
                bytes_done: 0,
                bytes_total: 10,
                current_item_name: "file".into(),
            }),
            0,
        )
        .unwrap();
    assert!(service.restore_connected_idle(scope, [1; 16], 0).is_none());
    assert!(matches!(service.snapshot(0).app.state, SessionState::Transferring { .. }));
    assert!(service.restore_connected_idle(scope, [2; 16], 0).is_some());
    assert_eq!(service.snapshot(0).app.state, connected);
    assert!(service.snapshot(0).app.can_send);
    let disconnected = service.begin_session();
    service
        .emit_for(
            disconnected,
            AppEvent::StateChanged(SessionState::Disconnected { reason: "done".into() }),
            0,
        )
        .unwrap();
    assert!(service.restore_connected_idle(scope, [2; 16], 0).is_none());
    assert!(!service.snapshot(0).app.can_send);
}

#[test]
fn completed_transfer_survives_snapshot_resynchronization() {
    let mut service = ServiceCore::new(2);
    let scope = service.begin_session();
    service
        .emit_for(
            scope,
            AppEvent::StateChanged(SessionState::Transferring {
                transfer_id: [4; 16],
                is_incoming: false,
                is_files: true,
                bytes_done: 0,
                bytes_total: 100,
                current_item_name: "example".into(),
            }),
            0,
        )
        .unwrap();
    service.emit_for(scope, AppEvent::TransferCompleted { transfer_id: [4; 16] }, 0).unwrap();
    service
        .emit_for(
            scope,
            AppEvent::StateChanged(SessionState::Disconnected { reason: "done".into() }),
            0,
        )
        .unwrap();
    let snapshot = service.snapshot(0);
    let outcome = snapshot.last_transfer.unwrap();
    assert_eq!(outcome.status, "completed");
    assert_eq!(outcome.done, 100);
    assert!(!outcome.incoming);
    assert_eq!(outcome.name, "example");
    assert_eq!(outcome.id, "04040404040404040404040404040404");
}

#[test]
fn snapshot_retains_received_text_after_progress_exhausts_event_replay() {
    let mut service = ServiceCore::new(2);
    service.emit(AppEvent::TextReceived { text: "keep this message".into() }, 0);
    for index in 0..5 {
        service.emit(
            AppEvent::TransportChanged(if index % 2 == 0 {
                TransportPath::Derp
            } else {
                TransportPath::WebRtc
            }),
            0,
        );
    }
    assert!(service.events_since(0, 0).is_err());
    let snapshot = service.snapshot(0);
    assert_eq!(snapshot.received_messages.len(), 1);
    assert_eq!(snapshot.received_messages[0].sequence, 1);
    assert_eq!(snapshot.received_messages[0].text, "keep this message");
    for _ in 0..150 {
        service.emit(AppEvent::TextReceived { text: "bounded".into() }, 0);
    }
    assert_eq!(service.snapshot(0).received_messages.len(), 128);
}

#[test]
fn state_event_has_monotonic_sequence_and_snapshot() {
    let mut service = ServiceCore::new(32);
    let state = SessionState::Disconnected { reason: "test".to_string() };
    let events = service.emit(AppEvent::StateChanged(state.clone()), 0);
    let snapshot = service.snapshot(0);
    assert_eq!(events.len(), 1);
    assert_eq!(events[0].sequence, 1);
    assert_eq!(snapshot.sequence, 1);
    assert_eq!(snapshot.app.state, state);
}

#[test]
fn transport_event_updates_the_path_during_a_transfer() {
    let mut service = ServiceCore::new(32);
    let events = service.emit(AppEvent::TransportChanged(TransportPath::Derp), 0);
    let snapshot = service.snapshot(0);
    assert!(matches!(events[0].event, AppEvent::TransportChanged(TransportPath::Derp)));
    assert_eq!(snapshot.app.transport_path, TransportPath::Derp);
}

#[test]
fn terminal_events_are_retained_in_a_bounded_queue() {
    let mut service = ServiceCore::new(2);
    for (code, message) in [(1, "one"), (2, "two"), (3, "three")] {
        service.emit(AppEvent::ErrorOccurred { code, message: message.to_string() }, 0);
    }
    let retained = service.events_since(1, 0).unwrap();
    assert_eq!(retained.len(), 2);
    assert_eq!(retained[0].sequence, 2);
    assert!(service.events_since(0, 0).is_err());
}

#[test]
fn subscription_snapshot_and_replay_report_gaps() {
    let mut service = ServiceCore::new(2);
    assert_eq!(service.snapshot(0).sequence, 0);
    for code in 1..=3 {
        let events =
            service.emit(AppEvent::ErrorOccurred { code, message: "test".into() }, 0);
        assert_eq!(events.last().unwrap().sequence, code as u64);
    }
    let gap = service.events_since(0, 0).unwrap_err();
    assert_eq!(gap.snapshot.sequence, 3);
    let events = service.events_since(1, 0).unwrap();
    assert_eq!(events.iter().map(|event| event.sequence).collect::<Vec<_>>(), vec![2, 3]);
    assert!(service.events_since(4, 0).is_err());
    assert!(service.events_since(3, 0).unwrap().is_empty());
}

#[test]
fn terminal_event_flushes_final_progress_before_itself() {
    let mut service = ServiceCore::new(32);
    assert!(service.progress([1; 16], 1, 10, 1_000).is_some());
    assert!(service.progress([1; 16], 10, 10, 1_000).is_none());
    service.emit(AppEvent::TransferCompleted { transfer_id: [1; 16] }, 0);
    let events = service.events_since(0, 0).unwrap();
    assert!(matches!(
        events[events.len() - 2].event,
        AppEvent::TransferProgress { bytes_done: 10, .. }
    ));
    assert!(matches!(events.last().unwrap().event, AppEvent::TransferCompleted { .. }));
    assert!(service.flush_progress([1; 16]).is_none());
}

#[test]
fn progress_is_published_again_after_the_interval() {
    let mut service = ServiceCore::new(32);
    assert!(service.progress([3; 16], 1, 10, 1_000).is_some());
    assert!(service.progress([3; 16], 2, 10, 1_100).is_none());
    let published = service.progress([3; 16], 3, 10, 1_200).unwrap();
    assert!(matches!(published.event, AppEvent::TransferProgress { bytes_done: 3, .. }));
    service.finish_transfer([3; 16]);
    assert!(service.flush_progress([3; 16]).is_none());
}

#[test]
fn emitted_state_updates_snapshot_and_clears_old_invitation() {
    let mut service = ServiceCore::new(32);
    service.emit(AppEvent::StateChanged(awaiting("https://example.test/#i=test", 0)), 0);
    assert_eq!(service.snapshot(0).app.invite_expires_in_secs, 0);
    assert!(service.snapshot(0).app.can_disconnect);
    service.emit(AppEvent::StateChanged(SessionState::Booting), 0);
    assert!(service.snapshot(0).app.invite_qr_url.is_none());
    assert!(!service.snapshot(0).app.can_disconnect);
    service.emit(AppEvent::StateChanged(SessionState::DialingHost { host_address: "test".into() }), 0);
    assert!(service.snapshot(0).app.can_disconnect);
}

#[test]
fn invitation_countdown_follows_the_clock() {
    let mut service = ServiceCore::new(32);
    service.emit(AppEvent::StateChanged(awaiting("u", 1_000)), 400);
    assert_eq!(service.snapshot(400).app.invite_expires_in_secs, 600);
    assert_eq!(service.snapshot(999).app.invite_expires_in_secs, 1);
    assert_eq!(service.snapshot(5_000).app.invite_expires_in_secs, 0);
}

#[test]
fn cancelled_transfer_records_why_it_ended() {
    let mut service = ServiceCore::new(32);
    service.emit(
        AppEvent::StateChanged(SessionState::Transferring {
            transfer_id: [9; 16],
            is_incoming: true,
            is_files: false,
            bytes_done: 3,
            bytes_total: 10,
            current_item_name: "note".into(),
        }),
        0,
    );
    service.emit(
        AppEvent::TransferCancelled {
            transfer_id: [9; 16],
            reason: "Transfer cancelled by user".into(),
        },
        0,
    );
    let outcome = service.snapshot(0).last_transfer.unwrap();
    assert_eq!(outcome.status, "cancelled");
    assert_eq!(outcome.message.as_deref(), Some("Transfer cancelled by user"));
    assert_eq!(outcome.done, 3);

    service.emit(
        AppEvent::StateChanged(SessionState::Transferring {
            transfer_id: [8; 16],
            is_incoming: false,
            is_files: true,
            bytes_done: 0,
            bytes_total: 10,
            current_item_name: "f".into(),
        }),
        0,
    );
    service.emit(
        AppEvent::TransferCancelled { transfer_id: [8; 16], reason: "disk full".into() },
        0,
    );
    assert_eq!(service.snapshot(0).last_transfer.unwrap().status, "failed");
}

#[test]
fn telemetry_observations_follow_the_events() {
    let service = ServiceCore::new(32);
    assert!(service.observe_telemetry(&AppEvent::TextReceived { text: "x".into() }).is_some());
    assert!(service
        .observe_telemetry(&AppEvent::TransportChanged(TransportPath::Derp))
        .is_none());
}

#[test]
fn peer_cancellation_is_recorded_as_cancelled() {
    let mut service = ServiceCore::new(32);
    service.emit(
        AppEvent::StateChanged(SessionState::Transferring {
            transfer_id: [4; 16],
            is_incoming: true,
            is_files: true,
            bytes_done: 1,
            bytes_total: 10,
            current_item_name: "a".into(),
        }),
        0,
    );
    service.emit(
        AppEvent::TransferCancelled {
            transfer_id: [4; 16],
            reason: "Transfer cancelled by peer".into(),
        },
        0,
    );
    let outcome = service.snapshot(0).last_transfer.unwrap();
    assert_eq!(outcome.status, "cancelled");
    assert_eq!(outcome.message.as_deref(), Some("Transfer cancelled by peer"));
}

#[test]
fn history_keeps_the_newest_events_after_several_emits() {
    let mut service = ServiceCore::new(2);
    for code in 1..=3u32 {
        service.emit(AppEvent::ErrorOccurred { code, message: "test".into() }, 0);
    }
    let replay = service.events_since(1, 0).ok().unwrap();
    let sequences: Vec<u64> = replay.iter().map(|e| e.sequence).collect();
    assert_eq!(sequences, vec![2, 3]);
    assert!(service.events_since(3, 0).ok().unwrap().is_empty());
    assert!(service.events_since(0, 0).is_err());
}

#[test]
fn only_completions_and_cancellations_end_a_transfer() {
    assert_eq!(terminal_transfer(&AppEvent::TransferCompleted { transfer_id: [5; 16] }), Some([5; 16]));
    assert_eq!(
        terminal_transfer(&AppEvent::TransferCancelled { transfer_id: [6; 16], reason: "x".into() }),
        Some([6; 16])
    );
    assert_eq!(terminal_transfer(&AppEvent::TextReceived { text: "x".into() }), None);
}
