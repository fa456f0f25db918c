//! A background file-sharing service, reduced to its decisions.
//!
//! The crate holds the rules of the service as pure functions with proved
//! contracts: the registry of shared files, the framing of messages on the
//! wire, the per-connection session of the data plane, the chunked and
//! acknowledged transfer, and the handling of local control commands.
//! Sockets, files, TLS and the task runtime live with the caller, which
//! feeds events in and carries actions out.

pub mod network;
pub mod daemon;
pub mod settings;
pub mod utils;
