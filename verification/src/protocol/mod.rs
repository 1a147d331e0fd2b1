//! Wire formats of the TailSend protocol: limits, data headers, file names,
//! invitations, handshake proofs and control messages.

pub mod limits;
pub mod filename;
pub mod data_header;
pub mod control;
pub mod auth;
pub mod invitation;
