//! Constants shared by both ends of the service.

use vstd::prelude::*;

verus! {

pub const NAME: &'static str = "File Share";

pub const VERSION: &'static str = "0.1.0";

/// Where the daemon's standard output goes once it has detached.
pub const SERVER_DAEMON_OUT_PATH: &'static str = "/tmp/file_share.out";

/// Where the daemon's standard error goes once it has detached.
pub const SERVER_DAEMON_ERR_PATH: &'static str = "/tmp/file_share.err";

/// The file that records the daemon's process id.
pub const SERVER_DAEMON_PID_PATH: &'static str = "/tmp/file_share.pid";

/// The local rendezvous point of the control plane.
pub const SERVER_DAEMON_SOCKET_PATH: &'static str = "/tmp/file_share.sock";

pub const CERT_PATH: &'static str = "~/.file_share/certs/cert.pem";

pub const KEY_PATH: &'static str = "~/.file_share/certs/key.pem";

/// The size of one block of a transfer, in bytes. Every `FileInfo`
/// advertises it, and chunk indices count blocks of this size.
pub const CHUNK_SIZE: usize = 65536;

} // verus!
