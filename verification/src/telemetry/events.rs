//! The standard events and their parameters.  Values are plain strings;
//! counters are formatted here in decimal.  No file names, paths, transfer
//! contents, secrets or personal information appear among them.

use vstd::prelude::*;
use crate::telemetry::{count_string, log_event, pair_views, str_pair_views, TelemetryEvent, TelemetryState};
use crate::text::dec;

verus! {

/// What a standard event is: suppressed unless telemetry is active, and
/// otherwise exactly `name` with `params`.
pub open spec fn emits(
    state: &TelemetryState,
    r: Option<TelemetryEvent>,
    name: Seq<char>,
    params: Seq<(Seq<char>, Seq<char>)>,
) -> bool {
    &&& !state.active() ==> r is None
    &&& state.active() ==> (r matches Some(e) && e.name@ == name && pair_views(e.params@) == params)
}

pub fn app_start(
    state: &TelemetryState,
    platform: &str,
    os_version: &str,
    app_version: &str,
    language: &str,
) -> (r: Option<TelemetryEvent>)
    ensures
        emits(
            state,
            r,
            "app_start"@,
            seq![
                ("platform"@, platform@),
                ("os_version"@, os_version@),
                ("app_version"@, app_version@),
                ("language"@, language@),
            ],
        ),
{
    let params = [
        ("platform", platform),
        ("os_version", os_version),
        ("app_version", app_version),
        ("language", language),
    ];
    assert(str_pair_views(params@) =~= seq![
        ("platform"@, platform@),
        ("os_version"@, os_version@),
        ("app_version"@, app_version@),
        ("language"@, language@),
    ]);
    log_event(state, "app_start", &params)
}

/// Best effort: not sent when the process is killed.
pub fn app_end(state: &TelemetryState, session_duration_ms: u128) -> (r: Option<TelemetryEvent>)
    ensures
        emits(
            state,
            r,
            "app_end"@,
            seq![("session_duration_ms"@, dec(session_duration_ms as nat))],
        ),
{
    let ms = count_string(session_duration_ms);
    let params = [("session_duration_ms", ms.as_str())];
    assert(str_pair_views(params@) =~= seq![("session_duration_ms"@, ms@)]);
    log_event(state, "app_end", &params)
}

pub fn session_created(state: &TelemetryState, transport: &str) -> (r: Option<TelemetryEvent>)
    ensures
        emits(state, r, "session_created"@, seq![("transport"@, transport@)]),
{
    let params = [("transport", transport)];
    assert(str_pair_views(params@) =~= seq![("transport"@, transport@)]);
    log_event(state, "session_created", &params)
}

pub fn peer_connected(state: &TelemetryState, transport: &str) -> (r: Option<TelemetryEvent>)
    ensures
        emits(state, r, "peer_connected"@, seq![("transport"@, transport@)]),
{
    let params = [("transport", transport)];
    assert(str_pair_views(params@) =~= seq![("transport"@, transport@)]);
    log_event(state, "peer_connected", &params)
}

/// Counts only: file names are never sent.
pub fn transfer_started(
    state: &TelemetryState,
    file_count: usize,
    transport: &str,
    direction: &str,
) -> (r: Option<TelemetryEvent>)
    ensures
        emits(
            state,
            r,
            "transfer_started"@,
            seq![
                ("file_count"@, dec(file_count as nat)),
                ("transport"@, transport@),
                ("direction"@, direction@),
            ],
        ),
{
    let count = count_string(file_count as u128);
    let params = [("file_count", count.as_str()), ("transport", transport), ("direction", direction)];
    assert(str_pair_views(params@) =~= seq![
        ("file_count"@, count@),
        ("transport"@, transport@),
        ("direction"@, direction@),
    ]);
    log_event(state, "transfer_started", &params)
}

pub fn transfer_completed(
    state: &TelemetryState,
    file_count: usize,
    total_bytes: u64,
    duration_ms: u128,
    transport: &str,
    direction: &str,
) -> (r: Option<TelemetryEvent>)
    ensures
        emits(
            state,
            r,
            "transfer_completed"@,
            seq![
                ("file_count"@, dec(file_count as nat)),
                ("total_bytes"@, dec(total_bytes as nat)),
                ("duration_ms"@, dec(duration_ms as nat)),
                ("transport"@, transport@),
                ("direction"@, direction@),
            ],
        ),
{
    let count = count_string(file_count as u128);
    let bytes = count_string(total_bytes as u128);
    let ms = count_string(duration_ms);
    let params = [
        ("file_count", count.as_str()),
        ("total_bytes", bytes.as_str()),
        ("duration_ms", ms.as_str()),
        ("transport", transport),
        ("direction", direction),
    ];
    assert(str_pair_views(params@) =~= seq![
        ("file_count"@, count@),
        ("total_bytes"@, bytes@),
        ("duration_ms"@, ms@),
        ("transport"@, transport@),
        ("direction"@, direction@),
    ]);
    log_event(state, "transfer_completed", &params)
}

/// `reason` is an enumerated string such as "user".
pub fn transfer_cancelled(state: &TelemetryState, reason: &str) -> (r: Option<TelemetryEvent>)
    ensures
        emits(state, r, "transfer_cancelled"@, seq![("reason"@, reason@)]),
{
    let params = [("reason", reason)];
    assert(str_pair_views(params@) =~= seq![("reason"@, reason@)]);
    log_event(state, "transfer_cancelled", &params)
}

/// Only the length bucket; the text itself is never sent.
pub fn text_message_sent(state: &TelemetryState, length_bucket: &str) -> (r: Option<
    TelemetryEvent,
>)
    ensures
        emits(state, r, "text_message_sent"@, seq![("length_bucket"@, length_bucket@)]),
{
    let params = [("length_bucket", length_bucket)];
    assert(str_pair_views(params@) =~= seq![("length_bucket"@, length_bucket@)]);
    log_event(state, "text_message_sent", &params)
}

/// Only the length bucket; the text itself is never sent.
pub fn text_message_received(state: &TelemetryState, length_bucket: &str) -> (r: Option<
    TelemetryEvent,
>)
    ensures
        emits(state, r, "text_message_received"@, seq![("length_bucket"@, length_bucket@)]),
{
    let params = [("length_bucket", length_bucket)];
    assert(str_pair_views(params@) =~= seq![("length_bucket"@, length_bucket@)]);
    log_event(state, "text_message_received", &params)
}

/// `category` is one of "transport", "storage", "camera", "daemon", "other".
pub fn error(state: &TelemetryState, category: &str) -> (r: Option<TelemetryEvent>)
    ensures
        emits(state, r, "error"@, seq![("category"@, category@)]),
{
    let params = [("category", category)];
    assert(str_pair_views(params@) =~= seq![("category"@, category@)]);
    log_event(state, "error", &params)
}

} // verus!
