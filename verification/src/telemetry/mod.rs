//! Opt-out usage telemetry: which events reach the platform backend.
//!
//! The platform integration implements [`TelemetryBackend`] and keeps one
//! [`TelemetryState`] next to it.  Every call here decides, from that state
//! alone, what the backend is handed: nothing before `init` or while
//! collection is disabled.  Events carry only coarse counters and enumerated
//! strings: never file names, paths, transfer contents, session secrets or
//! personal information.

pub mod events;

use vstd::prelude::*;
use crate::text::{chars_of, u128_to_string};

verus! {

/// A platform's analytics integration.
pub trait TelemetryBackend {
    /// Sends one event; every parameter value is a string.
    fn log_event(&self, name: &str, params: &[(String, String)]);

    /// Sets a user property.
    fn set_user_property(&self, name: &str, value: &str) {
    }

    /// Enables or disables collection at the SDK level, and persists it.
    fn set_collection_enabled(&self, enabled: bool);

    /// Remote configuration value, when the platform has one; a backend
    /// without remote configuration has none.
    fn remote_config_string(&self, key: &str) -> (r: Option<String>)
        default_ensures
            r is None,
    {
        None
    }
}

/// What the mobile platform reports when telemetry is set up: whether it
/// is enabled, the system language and the operating system version.
pub struct TelemetrySettings {
    pub enabled: bool,
    pub language: String,
    pub os_version: String,
}

/// Whether collection is enabled (the default) and whether a backend has
/// been installed.
pub struct TelemetryState {
    enabled: bool,
    installed: bool,
}

/// One event to hand to the backend.
pub struct TelemetryEvent {
    pub name: String,
    pub params: Vec<(String, String)>,
}

pub open spec fn pair_views(p: Seq<(String, String)>) -> Seq<(Seq<char>, Seq<char>)> {
    p.map_values(|x: (String, String)| (x.0@, x.1@))
}

pub open spec fn str_pair_views(p: Seq<(&str, &str)>) -> Seq<(Seq<char>, Seq<char>)> {
    p.map_values(|x: (&str, &str)| (x.0@, x.1@))
}

impl TelemetryState {
    pub closed spec fn enabled(&self) -> bool {
        self.enabled
    }

    pub closed spec fn installed(&self) -> bool {
        self.installed
    }

    /// Whether an event is forwarded now.
    pub open spec fn active(&self) -> bool {
        self.enabled() && self.installed()
    }

    /// The state of a process that has not installed a backend yet.
    pub fn new() -> (s: Self)
        ensures
            s.enabled(),
            !s.installed(),
    {
        TelemetryState { enabled: true, installed: false }
    }
}

/// Registers the backend and applies the persisted enabled state.
pub fn init(state: &mut TelemetryState, initial_enabled: bool)
    ensures
        final(state).enabled() == initial_enabled,
        final(state).installed(),
{
    state.enabled = initial_enabled;
    state.installed = true;
}

pub fn is_enabled(state: &TelemetryState) -> (b: bool)
    ensures
        b == state.enabled(),
{
    state.enabled
}

/// Updates the enabled flag; returns whether the backend is to be told.
pub fn set_enabled(state: &mut TelemetryState, enabled: bool) -> (notify: bool)
    ensures
        final(state).enabled() == enabled,
        final(state).installed() == old(state).installed(),
        notify == old(state).installed(),
{
    state.enabled = enabled;
    state.installed
}

/// The event to forward, or nothing before `init` or while disabled.
pub fn log_event(state: &TelemetryState, name: &str, params: &[(&str, &str)]) -> (r: Option<
    TelemetryEvent,
>)
    ensures
        !state.active() ==> r is None,
        state.active() ==> (r matches Some(e) && e.name@ == name@ && pair_views(e.params@)
            == str_pair_views(params@)),
{
    if !(state.enabled && state.installed) {
        return None;
    }
    let mut converted: Vec<(String, String)> = Vec::new();
    let mut i: usize = 0;
    while i < params.len()
        invariant
            i <= params@.len(),
            converted@.len() == i,
            forall|j: int|
                0 <= j < i ==> (#[trigger] converted@[j]).0@ == params@[j].0@
                    && converted@[j].1@ == params@[j].1@,
        decreases params.len() - i,
    {
        let (k, v) = params[i];
        converted.push((k.to_owned(), v.to_owned()));
        i += 1;
    }
    assert(pair_views(converted@) =~= str_pair_views(params@));
    Some(TelemetryEvent { name: name.to_owned(), params: converted })
}

/// The user property to forward, or nothing before `init` or while disabled.
pub fn set_user_property(state: &TelemetryState, name: &str, value: &str) -> (r: Option<
    (String, String),
>)
    ensures
        !state.active() ==> r is None,
        state.active() ==> (r matches Some(p) && p.0@ == name@ && p.1@ == value@),
{
    if !(state.enabled && state.installed) {
        return None;
    }
    Some((name.to_owned(), value.to_owned()))
}

/// The standard `error` event for an enumerated category.
pub fn record_error(state: &TelemetryState, category: &str) -> (r: Option<TelemetryEvent>)
    ensures
        !state.active() ==> r is None,
        state.active() ==> (r matches Some(e) && e.name@ == "error"@ && pair_views(e.params@)
            == seq![("category"@, category@)]),
{
    let params = [("category", category)];
    let r = log_event(state, "error", &params);
    assert(str_pair_views(params@) =~= seq![("category"@, category@)]);
    r
}

/// Whether the backend is to be asked for a remote configuration value.
pub fn remote_lookup(state: &TelemetryState) -> (b: bool)
    ensures
        b == state.active(),
{
    state.enabled && state.installed
}

/// Remote configuration value: the backend's answer when it was asked and
/// had one, `default_value` otherwise.
pub fn remote_string(state: &TelemetryState, default_value: &str, answer: Option<String>) -> (r:
    String)
    ensures
        state.active() && answer is Some ==> r@ == answer->0@,
        !(state.active() && answer is Some) ==> r@ == default_value@,
{
    if state.enabled && state.installed {
        match answer {
            Some(v) => v,
            None => default_value.to_owned(),
        }
    } else {
        default_value.to_owned()
    }
}

/// Coarse bucket of a text length, so no raw size or content is sent.
pub open spec fn bucket(chars: nat) -> Seq<char> {
    if chars <= 20 {
        "xs"@
    } else if chars <= 100 {
        "s"@
    } else if chars <= 500 {
        "m"@
    } else if chars <= 2000 {
        "l"@
    } else {
        "xl"@
    }
}

pub fn length_bucket(chars: usize) -> (r: &'static str)
    ensures
        r@ == bucket(chars as nat),
{
    if chars <= 20 {
        "xs"
    } else if chars <= 100 {
        "s"
    } else if chars <= 500 {
        "m"
    } else if chars <= 2000 {
        "l"
    } else {
        "xl"
    }
}

/// Decimal text of a counter value.
pub fn count_string(n: u128) -> (s: String)
    ensures
        s@ == crate::text::dec(n as nat),
{
    u128_to_string(n)
}

} // verus!
