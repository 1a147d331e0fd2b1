use tailsend::event_router::{discarded_streams, Received, RouterState, MAX_QUEUED_EVENTS};
use tailsend::native_bridge::{
    TcEvent, TC_EVENT_INCOMING_STREAM, TC_EVENT_LOG,
};

fn incoming(owner: u64, object: u64) -> TcEvent {
    TcEvent {
        struct_size: 32,
        event_type: TC_EVENT_INCOMING_STREAM,
        owner_handle: owner,
        object_handle: object,
        port: 101,
        reserved: 0,
        status_code: 0,
    }
}

#[test]
fn total_queue_limit_includes_all_owners_and_pending_registrations() {
    let mut router = RouterState::new();
    let mut closed: Vec<u64> = Vec::new();
    router.begin_create();
    let first = router.register(1).unwrap();
    closed.extend(discarded_streams(&router.end_create()));
    router.begin_create();
    for index in 0..MAX_QUEUED_EVENTS {
        let discarded =
            router.route(incoming(if index % 2 == 0 { 1 } else { 2 }, index as u64 + 100));
        assert!(discarded.is_none());
    }
    for (owner, object) in [(1, 9000), (2, 9001)] {
        if let Some(e) = router.route(incoming(owner, object)) {
            closed.extend(discarded_streams(&[e]));
        }
    }
    assert_eq!(router.queued(), MAX_QUEUED_EVENTS);
    assert_eq!(closed, [9000, 9001]);
    let second = router.register(2).unwrap();
    closed.extend(discarded_streams(&router.end_create()));
    closed.extend(discarded_streams(&router.close(1, first)));
    closed.extend(discarded_streams(&router.close(2, second)));
    assert_eq!(router.queued(), 0);
    assert_eq!(closed.len(), MAX_QUEUED_EVENTS + 2);
}

#[test]
fn events_emitted_before_listener_registration_are_preserved() {
    let mut router = RouterState::new();
    let mut closed: Vec<u64> = Vec::new();
    router.begin_create();
    router.begin_create();
    for (owner, object) in [(10, 101), (20, 201), (99, 991)] {
        assert!(router.route(incoming(owner, object)).is_none());
    }
    let owner20 = router.register(20).unwrap();
    closed.extend(discarded_streams(&router.end_create()));
    assert!(closed.is_empty());
    let owner10 = router.register(10).unwrap();
    closed.extend(discarded_streams(&router.end_create()));
    assert_eq!(closed, [991]);
    assert!(matches!(router.receive(10, owner10), Received::Event(e) if e.object_handle == 101));
    assert!(matches!(router.receive(20, owner20), Received::Event(e) if e.object_handle == 201));
    assert_eq!(router.queued(), 0);
}

#[test]
fn simultaneous_listeners_receive_only_their_own_streams() {
    let mut router = RouterState::new();
    router.begin_create();
    let first = router.register(1).unwrap();
    router.end_create();
    router.begin_create();
    let second = router.register(2).unwrap();
    router.end_create();
    for (owner, object) in [(2, 201), (1, 101), (2, 202)] {
        assert!(router.route(incoming(owner, object)).is_none());
    }
    assert!(matches!(router.receive(1, first), Received::Event(e) if e.object_handle == 101));
    assert!(matches!(router.receive(2, second), Received::Event(e) if e.object_handle == 201));
    assert!(matches!(router.receive(2, second), Received::Event(e) if e.object_handle == 202));
    assert!(matches!(router.receive(1, first), Received::Empty));
    router.close(1, first);
    router.close(2, second);
}

#[test]
fn close_discards_queued_and_late_streams_without_touching_other_owners() {
    let mut router = RouterState::new();
    let mut closed: Vec<u64> = Vec::new();
    router.begin_create();
    let first = router.register(1).unwrap();
    router.end_create();
    router.begin_create();
    let second = router.register(2).unwrap();
    router.end_create();
    for (owner, object) in [(1, 101), (1, 102), (2, 201)] {
        assert!(router.route(incoming(owner, object)).is_none());
    }
    closed.extend(discarded_streams(&router.close(1, first)));
    closed.extend(discarded_streams(&router.close(1, first)));
    if let Some(late) = router.route(incoming(1, 103)) {
        closed.extend(discarded_streams(&[late]));
    }
    assert_eq!(closed, [101, 102, 103]);
    assert!(matches!(router.receive(1, first), Received::Closed));
    assert!(matches!(router.receive(2, second), Received::Event(e) if e.object_handle == 201));
    assert_eq!(router.queued(), 0);
    router.close(2, second);
}

#[test]
fn stale_poll_result_goes_to_new_owner_after_old_listener_closes() {
    let mut router = RouterState::new();
    router.begin_create();
    let old = router.register(1).unwrap();
    router.end_create();
    assert!(matches!(router.receive(1, old), Received::Empty));
    assert!(router.close(1, old).is_empty());
    router.begin_create();
    let new = router.register(2).unwrap();
    router.end_create();
    // The result of a poll that began while owner 1 was listening.
    assert!(router.route(incoming(2, 200)).is_none());
    assert!(matches!(router.receive(1, old), Received::Closed));
    match router.receive(2, new) {
        Received::Event(e) => assert_eq!((e.owner_handle, e.object_handle), (2, 200)),
        _ => panic!("the stream belongs to the new owner"),
    }
    router.close(2, new);
}

#[test]
fn a_reused_handle_cannot_be_removed_by_an_old_receiver() {
    let mut router = RouterState::new();
    router.begin_create();
    let old = router.register(1).unwrap();
    router.end_create();
    assert!(router.close(1, old).is_empty());
    router.begin_create();
    let new = router.register(1).unwrap();
    router.end_create();
    assert_ne!(old, new);
    assert!(router.route(incoming(1, 102)).is_none());
    assert!(router.close(1, old).is_empty());
    assert!(matches!(router.receive(1, old), Received::Closed));
    assert!(matches!(router.receive(1, new), Received::Event(e) if e.object_handle == 102));
    assert!(router.register(1).is_err());
    router.close(1, new);
}

#[test]
fn failed_listeners_report_the_failure_and_logs_are_not_routed() {
    let mut router = RouterState::new();
    router.begin_create();
    let t = router.register(3).unwrap();
    router.end_create();
    let mut log = incoming(3, 0);
    log.event_type = TC_EVENT_LOG;
    assert!(router.route(log).is_none());
    assert!(matches!(router.receive(3, t), Received::Empty));
    router.route(incoming(3, 30));
    let live = router.live_listeners();
    assert_eq!(live, vec![(3, t)]);
    assert_eq!(discarded_streams(&router.fail_listeners(&live, 21)), vec![30]);
    assert!(matches!(router.receive(3, t), Received::Failed(21)));
    router.route(incoming(3, 31));
    assert_eq!(router.close_all().len(), 0);
    assert_eq!(router.queued(), 0);
}
