//! Messages of the data plane.

use vstd::prelude::*;

verus! {

/// A message from a client to the server.
#[derive(Debug, Clone, PartialEq, Eq)]
pub enum Request {
    Auth(Option<String>),
    Quit,
    List,
    Download { name: String, offset: u64 },
    Ack { index: u64 },
}

/// A message from the server to a client.
#[derive(Debug, Clone, PartialEq, Eq)]
pub enum Response {
    AuthOk,
    AuthErr,
    Bye,
    List(Vec<String>),
    Error(String),
    FileInfo { name: String, size: u64, hash: String, chunk_size: u64 },
    Chunck { index: u64, data: Vec<u8> },
    Done,
}

} // verus!
