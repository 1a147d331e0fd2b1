use serde_json::Value;
use tailsend::share::{
    check_item_list_size, validate_items, ShareItem, ShareKind, ShareProgress, MAX_ITEM_LIST_BYTES,
};

fn item_from(v: &Value) -> Option<ShareItem> {
    Some(ShareItem {
        id: v.get("id")?.as_str()?.to_string(),
        kind: match v.get("kind")?.as_str()? {
            "file" => ShareKind::File,
            "text" => ShareKind::Text,
            _ => return None,
        },
        name: v.get("name")?.as_str()?.to_string(),
        size: v.get("size")?.as_u64()?,
        path: v.get("path")?.as_str()?.to_string(),
        mime: v.get("mime").and_then(Value::as_str).map(str::to_string),
    })
}

/// Reads the item list as the share session does: size, JSON, then the
/// checks on the items.
fn parse_items(json: &str) -> Result<(Vec<ShareItem>, u64), String> {
    check_item_list_size(json)?;
    let value: Value = serde_json::from_str(json).map_err(|e| e.to_string())?;
    let items = value
        .as_array()
        .ok_or("expected a list")?
        .iter()
        .map(|v| item_from(v).ok_or("invalid item".to_string()))
        .collect::<Result<Vec<_>, _>>()?;
    let total = validate_items(&items)?;
    Ok((items, total))
}

fn item() -> ShareItem {
    ShareItem {
        id: "one".into(),
        kind: ShareKind::File,
        name: "hello.txt".into(),
        size: 5,
        path: "/tmp/hello.txt".into(),
        mime: None,
    }
}

#[test]
fn rejects_duplicate_ids_oversized_text_and_relative_paths() {
    for json in [
        r#"[]"#,
        r#"[{"id":"x","kind":"text","name":"text","size":1048577,"path":"/tmp/text"}]"#,
        r#"[{"id":"x","kind":"file","name":"file","size":0,"path":"relative"}]"#,
        r#"[{"id":"x","kind":"file","name":"a","size":0,"path":"/a"},{"id":"x","kind":"file","name":"b","size":0,"path":"/b"}]"#,
    ] {
        assert!(parse_items(json).is_err(), "{json}");
    }
}

#[test]
fn accepts_valid_items_and_sums_their_sizes() {
    let json = r#"[{"id":"a","kind":"file","name":"a","size":3,"path":"/a"},{"id":"b","kind":"text","name":"b","size":4,"path":"/b"}]"#;
    let (items, total) = parse_items(json).unwrap();
    assert_eq!(items.len(), 2);
    assert_eq!(total, 7);
}

#[test]
fn item_checks_report_each_reason() {
    assert_eq!(validate_items(&[]), Err("Expected 1 to 100 shared items".to_string()));
    let mut text = item();
    text.kind = ShareKind::Text;
    text.size = 1_048_577;
    assert_eq!(validate_items(&[text]), Err("Shared text exceeds 1 MiB".to_string()));
    let mut unnamed = item();
    unnamed.name = String::new();
    assert_eq!(
        validate_items(&[unnamed]),
        Err("Invalid shared item identity, name or path".to_string())
    );
    let mut big = item();
    big.size = u64::MAX;
    let mut other = item();
    other.id = "two".into();
    assert_eq!(validate_items(&[big, other]), Err("Shared size overflow".to_string()));
    let many: Vec<ShareItem> = (0..101)
        .map(|i| {
            let mut it = item();
            it.id = format!("id{i}");
            it
        })
        .collect();
    assert!(validate_items(&many).is_err());
    assert!(check_item_list_size(&"x".repeat(MAX_ITEM_LIST_BYTES + 1)).is_err());
}

#[test]
fn cancellation_preserves_completed_items_but_cannot_complete_another() {
    let mut session = ShareProgress::new(10);
    let first = item();
    session.completed(first.id.clone(), first.size);
    session.request_cancel();
    let mut next = item();
    next.id = "two".into();
    session.completed(next.id.clone(), next.size);
    session.finished();
    let snapshot = session.snapshot();
    assert_eq!(snapshot.state, "cancelled");
    assert_eq!(snapshot.completed_ids, ["one"]);
    assert_eq!(snapshot.done, 5);
}

#[test]
fn progress_moves_through_the_states() {
    let mut session = ShareProgress::new(10);
    assert_eq!(session.snapshot().state, "preparing");
    session.waiting("https://x/#i=abc".into());
    assert_eq!(session.snapshot().state, "waiting");
    assert_eq!(session.snapshot().invite_url.as_deref(), Some("https://x/#i=abc"));
    session.connecting();
    session.peer("Phone".into());
    session.sending("a.txt".into());
    session.progress(7);
    assert_eq!(session.snapshot().done, 7);
    session.finished();
    assert_eq!(session.snapshot().state, "completed");
    assert!(!session.request_cancel());
    assert_eq!(session.snapshot().state, "completed");
}

#[test]
fn failure_is_kept_with_its_message() {
    let mut session = ShareProgress::new(1);
    session.failed("network down".into());
    assert_eq!(session.snapshot().state, "error");
    assert_eq!(session.snapshot().error.as_deref(), Some("network down"));
    assert!(!session.is_cancelled());
}
