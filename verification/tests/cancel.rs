use tailsend::session::cancel::{CancelOutcome, CancellationRegistry, HookOutcome, Registration};

#[test]
fn registering_again_keeps_the_first_token() {
    let mut r: CancellationRegistry<u32, &str> = CancellationRegistry::new();
    assert_eq!(r.register(true, [1; 16], 7), Registration::Inserted);
    assert_eq!(r.register(true, [1; 16], 8), Registration::Existing);
    assert_eq!(r.token([1; 16]), Some(&7));
    assert_eq!(r.register(false, [2; 16], 9), Registration::Stale);
    assert_eq!(r.token([2; 16]), None);
}

#[test]
fn cancellation_runs_the_hook_once() {
    let mut r: CancellationRegistry<u32, &str> = CancellationRegistry::new();
    assert_eq!(r.cancel([1; 16]), CancelOutcome::NotFound);
    r.register(true, [1; 16], 0);
    assert_eq!(r.set_callback([1; 16], "wake"), HookOutcome::Stored);
    assert!(!r.is_cancelled([1; 16]));
    assert_eq!(r.cancel([1; 16]), CancelOutcome::Cancelled);
    assert_eq!(r.callback([1; 16]), Some(&"wake"));
    assert!(r.is_cancelled([1; 16]));
    assert_eq!(r.cancel([1; 16]), CancelOutcome::AlreadyCancelled);
}

#[test]
fn hook_attached_after_cancellation_runs_at_once() {
    let mut r: CancellationRegistry<u32, &str> = CancellationRegistry::new();
    assert_eq!(r.set_callback([3; 16], "late"), HookOutcome::NotRegistered);
    r.register(true, [3; 16], 0);
    r.cancel([3; 16]);
    assert_eq!(r.set_callback([3; 16], "late"), HookOutcome::RunNow);
}

#[test]
fn finishing_and_draining_forget_transfers() {
    let mut r: CancellationRegistry<u32, &str> = CancellationRegistry::new();
    r.register(true, [1; 16], 1);
    r.register(true, [2; 16], 2);
    r.finish([1; 16]);
    assert_eq!(r.token([1; 16]), None);
    assert_eq!(r.token([2; 16]), Some(&2));
    let drained = r.drain();
    assert_eq!(drained.len(), 1);
    assert_eq!(drained[0].id, [2; 16]);
    assert!(r.token([2; 16]).is_none());
}
