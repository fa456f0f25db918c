//! The command line, as plain values.

use vstd::prelude::*;

verus! {

/// The parsed command line.
#[derive(Debug, Clone, PartialEq, Eq)]
pub struct Cli {
    pub command: Command,
}

/// The two sides of the program.
#[derive(Debug, Clone, PartialEq, Eq)]
pub enum Command {
    /// Manage the local file-sharing daemon.
    Daemon { command: ServerCliCommand },
    /// Connect to and interact with a remote file server.
    Client { command: ClientCliCommand },
}

/// Commands for managing the local daemon.
#[derive(Debug, Clone, PartialEq, Eq)]
pub enum ServerCliCommand {
    /// Start the daemon on a port, with an optional password.
    Start { port: u16, password: Option<String> },
    /// Stop the daemon.
    Stop,
    /// Share the file at `path`, under `name` if one is given.
    Add { path: String, name: Option<String> },
    /// Stop sharing `name`.
    Delete { name: String },
    /// List all shared files.
    List,
}

/// Commands for talking to a remote server.
#[derive(Debug, Clone, PartialEq, Eq)]
pub enum ClientCliCommand {
    /// Connect to a remote server.
    Connect { addr: String, password: Option<String> },
    /// Disconnect from the current server.
    Disconnect,
    /// Request a list of available files.
    List,
    /// Download a file, to `output` if one is given.
    Download { name: String, output: Option<String> },
}

} // verus!
