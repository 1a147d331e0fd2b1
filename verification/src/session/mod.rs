//! Session state, events and the identifiers shared by every platform adapter.

pub mod event;
pub mod state;
pub mod service;
pub mod ui;
pub mod handshake;
pub mod cancel;
