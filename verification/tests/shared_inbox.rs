use tailsend::protocol::filename::FilenameError;
use tailsend::shared_inbox::{
    check_shared_entry, shared_file, shared_text, valid_share_id, PendingShare,
    PendingShareQueue, SharedItemError, SharedKind, SHARED_QUEUE_LIMIT,
};

fn text(id: &str, body: &str) -> PendingShare {
    PendingShare::Text { id: id.into(), text: body.into() }
}

#[test]
fn identifiers_are_short_ascii_words() {
    assert!(valid_share_id("abc-DEF_123"));
    assert!(!valid_share_id(""));
    assert!(!valid_share_id("a b"));
    assert!(!valid_share_id("é"));
    assert!(valid_share_id(&"a".repeat(128)));
    assert!(!valid_share_id(&"a".repeat(129)));
}

#[test]
fn entries_are_checked_in_order() {
    assert!(matches!(check_shared_entry("x", "text", 4, true, 4), Ok(SharedKind::Text)));
    assert!(matches!(check_shared_entry("x", "file", 4, true, 4), Ok(SharedKind::File)));
    assert!(matches!(check_shared_entry("", "text", 4, true, 4), Err(SharedItemError::InvalidId)));
    assert!(matches!(
        check_shared_entry("x", "text", 4, false, 4),
        Err(SharedItemError::NotRegularFile)
    ));
    assert!(matches!(
        check_shared_entry("x", "text", 4, true, 5),
        Err(SharedItemError::SizeChanged { actual: 5, declared: 4 })
    ));
    assert!(matches!(
        check_shared_entry("x", "text", 1_048_577, true, 1_048_577),
        Err(SharedItemError::TextTooLarge)
    ));
    assert!(matches!(
        check_shared_entry("x", "file", 1_048_577, true, 1_048_577),
        Ok(SharedKind::File)
    ));
    assert!(matches!(
        check_shared_entry("x", "link", 1, true, 1),
        Err(SharedItemError::UnsupportedKind)
    ));
}

#[test]
fn payloads_become_pending_items() {
    assert!(matches!(shared_text("a".into(), b"\xff"), Err(SharedItemError::InvalidUtf8)));
    match shared_text("a".into(), "héllo".as_bytes()).unwrap() {
        PendingShare::Text { id, text } => {
            assert_eq!(id, "a");
            assert_eq!(text, "héllo");
        }
        _ => panic!("expected text"),
    }
    match shared_file("b".into(), "../x.txt", 3, None, "/p".into()).unwrap() {
        PendingShare::File { id, request } => {
            assert_eq!(id, "b");
            assert_eq!(request.name, "x.txt");
            assert_eq!(request.size, 3);
            assert_eq!(request.path, "/p");
        }
        _ => panic!("expected a file"),
    }
    assert!(matches!(
        shared_file("c".into(), &"n".repeat(2000), 3, None, "/p".into()),
        Err(SharedItemError::InvalidFilename(FilenameError::FilenameTooLong(_)))
    ));
}

#[test]
fn previews_are_cut_after_120_characters() {
    let item = text("a", "").ui_item();
    assert_eq!(item.kind, "text");
    assert_eq!(item.name, "shared-text.txt");
    assert_eq!(item.size, 0);
    assert_eq!(item.preview, None);
    let exact = "あ".repeat(120);
    let item = text("a", &exact).ui_item();
    assert_eq!(item.size, 360);
    assert_eq!(item.preview.as_deref(), Some(exact.as_str()));
    let long = "x".repeat(121);
    let item = text("a", &long).ui_item();
    assert_eq!(item.preview, Some(format!("{}…", "x".repeat(120))));
}

#[test]
fn an_entry_is_never_queued_twice() {
    let mut queue = PendingShareQueue::new();
    assert_eq!(queue.enqueue(text("a", "1")), Ok(true));
    assert_eq!(queue.enqueue(text("a", "again")), Ok(false));
    assert_eq!(queue.len(), 1);
    // Taken but not completed: still known.
    let taken = queue.take().unwrap();
    assert_eq!(taken.id(), "a");
    assert!(queue.contains("a"));
    assert_eq!(queue.enqueue(text("a", "again")), Ok(false));
    queue.complete("a");
    assert!(!queue.contains("a"));
    // Sent but not acknowledged: still known.
    queue.mark_acknowledgement_pending("a".into());
    assert_eq!(queue.enqueue(text("a", "again")), Ok(false));
    assert_eq!(queue.acknowledgement_ids(), vec!["a".to_string()]);
    queue.clear_acknowledgement("a");
    assert_eq!(queue.enqueue(text("a", "again")), Ok(true));
}

#[test]
fn a_full_queue_refuses_new_entries() {
    let mut queue = PendingShareQueue::new();
    for i in 0..SHARED_QUEUE_LIMIT {
        assert_eq!(queue.enqueue(text(&format!("id{i}"), "x")), Ok(true));
    }
    assert_eq!(
        queue.enqueue(text("more", "x")),
        Err("Too many shared items are waiting (limit: 32)".to_string())
    );
    assert!(!queue.contains("more"));
    assert_eq!(queue.ui_items().len(), SHARED_QUEUE_LIMIT);
}

#[test]
fn drains_do_not_overlap_and_requeued_items_come_first() {
    let mut queue = PendingShareQueue::new();
    assert!(!queue.begin_drain());
    queue.enqueue(text("a", "1")).unwrap();
    queue.enqueue(text("b", "2")).unwrap();
    assert!(queue.begin_drain());
    assert!(!queue.begin_drain());
    let first = queue.take().unwrap();
    queue.requeue_front(first);
    assert_eq!(queue.take().unwrap().id(), "a");
    queue.finish_drain();
    assert!(queue.begin_drain());
}
