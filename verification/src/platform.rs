//! Values exchanged with the platform storage adapters.

use vstd::prelude::*;

verus! {

/// Maximum number of bytes accepted for the live `NAME:<name>:<size>\n`
/// file header, so a sender cannot make a receiver buffer an unbounded line.
pub const MAX_FILE_NAME_HEADER_BYTES: usize = 8192;

#[derive(Debug)]
pub enum StorageError {
    Io(String),
    Cancelled,
    Unsupported(String),
}

/// Name and size of a file offered for sending.
#[derive(Debug, Clone)]
pub struct FileMetadata {
    pub name: String,
    pub size: u64,
}

/// A file stored by the receiving platform.
#[derive(Debug, Clone, PartialEq, Eq)]
pub struct ReceivedItem {
    pub name: String,
    pub size: u64,
    pub local_path_or_handle: String,
}

} // verus!
