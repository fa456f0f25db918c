//! Messages of the control plane.

use vstd::prelude::*;
use crate::network::server::FileEntry;

verus! {

/// What the owning user asks of the running daemon.
#[derive(Debug, Clone, PartialEq, Eq)]
pub enum DaemonCommand {
    Add { path: String, name: Option<String> },
    Delete { name: String },
    List,
}

/// What the daemon answers.
#[derive(Debug, Clone, PartialEq, Eq)]
pub enum DaemonResponse {
    Success(String),
    Failure(String),
    /// Every shared file, each name once, with its path.
    List(Vec<FileEntry>),
}

} // verus!
