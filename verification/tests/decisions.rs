use tailsend::desktop::{host_invite_step, HostAction, HostEvent, HANDSHAKE_FAILED_CODE, LISTEN_FAILED_CODE};
use tailsend::ipc::{
    resubscribe_sequence, route, wait_decision, MessageKind, Opcode, Route, WaitAction, MAX_EVENT_BATCH,
};
use tailsend::protocol::limits::{CHUNK_SIZE_BYTES, CONTROL_PORT, FILE_PORT, TEXT_PORT};
use tailsend::transfer::{
    receive_failure_error, receive_step, ReceiveAction, ReceiveEvent, ReceiveFailure, ReceivePhase,
    ReceiveState, TransferError,
};
use tailsend::share::{
    item_port, share_session_step, ShareAction, ShareEvent, ShareFailure, ShareKind, SharePhase,
    ShareSessionState,
};

#[test]
fn hosting_session_invites_waits_and_sends_every_item() {
    let s = ShareSessionState::start(true, 2);
    let (s, a) = share_session_step(s, ShareEvent::Start);
    assert_eq!(a, ShareAction::CreateInvite);
    let (s, a) = share_session_step(s, ShareEvent::InviteReady);
    assert_eq!((s.phase, a), (SharePhase::Waiting, ShareAction::AcceptPeer));
    let (s, a) = share_session_step(s, ShareEvent::Accepted { port: CONTROL_PORT });
    assert_eq!((s.phase, a), (SharePhase::Connecting, ShareAction::HostHandshake));
    let (s, a) = share_session_step(s, ShareEvent::Connected);
    assert_eq!((s.phase, a), (SharePhase::Sending, ShareAction::SendItem { index: 0 }));
    let (s, a) = share_session_step(s, ShareEvent::ItemSent { size: 5 });
    assert_eq!(a, ShareAction::SendItem { index: 1 });
    assert_eq!(s.finished_bytes, 5);
    let (s, a) = share_session_step(s, ShareEvent::ItemSent { size: 7 });
    assert_eq!((s.phase, a), (SharePhase::Completed, ShareAction::Finish));
    assert_eq!(s.finished_bytes, 12);
}

#[test]
fn joining_session_dials_the_host() {
    let (s, a) = share_session_step(ShareSessionState::start(false, 1), ShareEvent::Start);
    assert_eq!((s.phase, a), (SharePhase::Connecting, ShareAction::JoinHandshake));
}

#[test]
fn wrong_port_and_timeout_fail_the_session() {
    let waiting = share_session_step(
        share_session_step(ShareSessionState::start(true, 1), ShareEvent::Start).0,
        ShareEvent::InviteReady,
    )
    .0;
    let (s, a) = share_session_step(waiting, ShareEvent::Accepted { port: TEXT_PORT });
    assert_eq!((s.phase, a), (SharePhase::Failed, ShareAction::RejectConnection));
    let (s, a) = share_session_step(waiting, ShareEvent::AcceptTimedOut);
    assert_eq!(s.phase, SharePhase::Failed);
    assert_eq!(a, ShareAction::Fail { failure: ShareFailure::InvitationExpired });
}

#[test]
fn nothing_moves_a_cancelled_session() {
    let s = ShareSessionState::start(false, 3);
    let (s, _) = share_session_step(s, ShareEvent::Start);
    let (s, a) = share_session_step(s, ShareEvent::CancelRequested);
    assert_eq!((s.phase, a), (SharePhase::Cancelled, ShareAction::Stop));
    for event in [ShareEvent::Connected, ShareEvent::StepFailed, ShareEvent::ItemSent { size: 1 }] {
        let (after, a) = share_session_step(s, event);
        assert_eq!(after, s);
        assert_eq!(a, ShareAction::Nothing);
    }
}

#[test]
fn items_go_out_on_the_port_of_their_kind() {
    assert_eq!(item_port(ShareKind::Text), TEXT_PORT);
    assert_eq!(item_port(ShareKind::File), FILE_PORT);
}

#[test]
fn wait_answers_follow_the_subscription_and_history() {
    assert_eq!(wait_decision(true, true, 0, Ok(3), 0), WaitAction::Closed);
    assert_eq!(wait_decision(false, true, 4, Err(9), 0), WaitAction::Resubscribe { gap_sequence: 9 });
    assert_eq!(wait_decision(false, true, 4, Ok(2), 0), WaitAction::Wait);
    assert_eq!(wait_decision(false, false, 4, Ok(50), 54), WaitAction::Replay { count: MAX_EVENT_BATCH });
    assert_eq!(wait_decision(false, false, 4, Ok(3), 7), WaitAction::Replay { count: 3 });
    assert_eq!(wait_decision(false, false, 0, Err(12), 12), WaitAction::Snapshot { sequence: 12 });
    assert_eq!(wait_decision(false, false, 3, Ok(0), 5), WaitAction::Snapshot { sequence: 5 });
    assert_eq!(wait_decision(false, false, 5, Ok(0), 5), WaitAction::Wait);
    assert_eq!(resubscribe_sequence(4, 9), 9);
    assert_eq!(resubscribe_sequence(10, 9), 10);
}

#[test]
fn invitation_steps_follow_the_scope() {
    assert_eq!(host_invite_step(true, HostEvent::PreviousClosed, 0, 600), HostAction::EnterBooting);
    assert_eq!(host_invite_step(false, HostEvent::PreviousClosed, 0, 600), HostAction::Abort);
    assert_eq!(
        host_invite_step(true, HostEvent::ListenFailed, 0, 600),
        HostAction::ReportError { code: LISTEN_FAILED_CODE }
    );
    assert_eq!(host_invite_step(false, HostEvent::Listening, 0, 600), HostAction::CloseAndAbort);
    assert_eq!(
        host_invite_step(true, HostEvent::InvitationBuilt, 1_000, 600),
        HostAction::AwaitPeer { expires_at: 1_600 }
    );
    assert_eq!(
        host_invite_step(true, HostEvent::HandshakeDone { cancelled: false }, 0, 600),
        HostAction::Connected
    );
    assert_eq!(
        host_invite_step(false, HostEvent::HandshakeDone { cancelled: false }, 0, 600),
        HostAction::CloseListener
    );
    assert_eq!(
        host_invite_step(true, HostEvent::HandshakeFailed { cancelled: false }, 0, 600),
        HostAction::ReportError { code: HANDSHAKE_FAILED_CODE }
    );
    assert_eq!(
        host_invite_step(true, HostEvent::HandshakeFailed { cancelled: true }, 0, 600),
        HostAction::Nothing
    );
}

#[test]
fn a_file_is_committed_after_exactly_its_bytes() {
    let s = ReceiveState::new(Some(70_000));
    let (s, a) = receive_step(s, ReceiveEvent::HeaderRead { size: 70_000, cancelled: false });
    assert_eq!(a, ReceiveAction::PrepareSink);
    let (s, a) = receive_step(s, ReceiveEvent::SinkReady { cancelled: false });
    assert_eq!(a, ReceiveAction::ReadBody { len: CHUNK_SIZE_BYTES });
    let (s, a) = receive_step(s, ReceiveEvent::Read { count: 65_536 });
    assert_eq!(a, ReceiveAction::Write { count: 65_536 });
    let (s, a) = receive_step(s, ReceiveEvent::Written { cancelled: false });
    assert_eq!(a, ReceiveAction::ReadBody { len: 4_464 });
    let (s, _) = receive_step(s, ReceiveEvent::Read { count: 4_464 });
    let (s, a) = receive_step(s, ReceiveEvent::Written { cancelled: false });
    assert_eq!((s.phase, a), (ReceivePhase::Checking, ReceiveAction::CheckExcess));
    assert_eq!(s.received, 70_000);
    let (s, a) = receive_step(s, ReceiveEvent::Drained { pending: 0, cancelled: false });
    assert_eq!((s.phase, a), (ReceivePhase::AwaitingEof, ReceiveAction::ReadEnd));
    let (s, a) = receive_step(s, ReceiveEvent::EndRead { count: 0, cancelled: false });
    assert_eq!(a, ReceiveAction::Commit);
    let (s, a) = receive_step(s, ReceiveEvent::Committed);
    assert_eq!((s.phase, a), (ReceivePhase::Received, ReceiveAction::Deliver));
}

#[test]
fn receive_failures_abort_only_a_prepared_sink() {
    let (_, a) = receive_step(ReceiveState::new(Some(4)), ReceiveEvent::HeaderRead { size: 5, cancelled: false });
    assert_eq!(a, ReceiveAction::Fail { failure: ReceiveFailure::SizeMismatch { expected: 4, actual: 5 } });
    let (s, _) = receive_step(ReceiveState::new(None), ReceiveEvent::HeaderRead { size: 5, cancelled: false });
    let (s, _) = receive_step(s, ReceiveEvent::SinkReady { cancelled: false });
    let (_, a) = receive_step(s, ReceiveEvent::Read { count: 0 });
    assert_eq!(a, ReceiveAction::Abort { failure: ReceiveFailure::UnexpectedEof });
    let (_, a) = receive_step(s, ReceiveEvent::Read { count: 6 });
    assert_eq!(a, ReceiveAction::Abort { failure: ReceiveFailure::ReadOverrun { requested: 5, actual: 6 } });
    let (s, _) = receive_step(s, ReceiveEvent::Read { count: 5 });
    let (s, _) = receive_step(s, ReceiveEvent::Written { cancelled: false });
    let (_, a) = receive_step(s, ReceiveEvent::Drained { pending: 3, cancelled: false });
    assert_eq!(a, ReceiveAction::Abort { failure: ReceiveFailure::SizeMismatch { expected: 5, actual: 8 } });
    let (_, a) = receive_step(s, ReceiveEvent::Drained { pending: 0, cancelled: true });
    assert_eq!(a, ReceiveAction::Abort { failure: ReceiveFailure::Cancelled });
    assert!(matches!(receive_failure_error(ReceiveFailure::UnexpectedEof), Some(TransferError::UnexpectedEof)));
    assert!(receive_failure_error(ReceiveFailure::Reported).is_none());
}

#[test]
fn bytes_instead_of_the_end_of_stream_abort_the_file() {
    let (s, _) = receive_step(ReceiveState::new(None), ReceiveEvent::HeaderRead { size: 2, cancelled: false });
    let (s, _) = receive_step(s, ReceiveEvent::SinkReady { cancelled: false });
    let (s, _) = receive_step(s, ReceiveEvent::Read { count: 2 });
    let (s, _) = receive_step(s, ReceiveEvent::Written { cancelled: false });
    let (s, _) = receive_step(s, ReceiveEvent::Drained { pending: 0, cancelled: false });
    let (after, a) = receive_step(s, ReceiveEvent::EndRead { count: 4, cancelled: false });
    assert_eq!(after.phase, ReceivePhase::Failed);
    assert_eq!(a, ReceiveAction::Abort { failure: ReceiveFailure::SizeMismatch { expected: 2, actual: 6 } });
    let (_, a) = receive_step(s, ReceiveEvent::EndRead { count: 0, cancelled: true });
    assert_eq!(a, ReceiveAction::Abort { failure: ReceiveFailure::Cancelled });
    let (_, a) = receive_step(s, ReceiveEvent::Failed);
    assert_eq!(a, ReceiveAction::Abort { failure: ReceiveFailure::Reported });
}

#[test]
fn frames_are_routed_by_kind_then_opcode() {
    assert_eq!(route(MessageKind::Response, Opcode::Snapshot), Route::InvalidKind);
    assert_eq!(route(MessageKind::Event, Opcode::Subscribe), Route::InvalidKind);
    assert_eq!(route(MessageKind::Subscribe, Opcode::Snapshot), Route::Subscribe);
    assert_eq!(route(MessageKind::Request, Opcode::Subscribe), Route::Subscribe);
    assert_eq!(route(MessageKind::WaitEvent, Opcode::Unsubscribe), Route::WaitEvent);
    assert_eq!(route(MessageKind::Request, Opcode::WaitEvent), Route::WaitEvent);
    assert_eq!(route(MessageKind::Unsubscribe, Opcode::Join), Route::Unsubscribe);
    assert_eq!(route(MessageKind::Request, Opcode::QrCode), Route::Operation(Opcode::QrCode));
}
