//! One data-plane connection, as a state machine.
//!
//! The caller owns the transport and the file. It hands every outcome to
//! `Server::handle_client` as an event and carries out the action that
//! comes back; the rules of the protocol are all on this side.

use vstd::prelude::*;
use crate::network::protocol::{Request, Response};
use crate::network::server::{names_cover, option_text, Server};
use crate::settings::config::CHUNK_SIZE;

verus! {

/// Where a connection stands.
#[derive(Debug, Clone, PartialEq, Eq)]
pub enum SessionState {
    /// Accepted; the first request must authenticate.
    AwaitingAuth,
    /// Authenticated and idle.
    Ready,
    /// A download was asked for; the file is being opened.
    Opening { name: String, offset: u64 },
    /// In a download; the next block, which will go out as chunk `index`,
    /// is being read.
    Reading { index: u64 },
    /// In a download; chunk `index` is out and not yet acknowledged.
    AwaitingAck { index: u64 },
    /// Over. Nothing more is read or written.
    Closed,
}

/// What the caller reports.
#[derive(Debug, Clone, PartialEq, Eq)]
pub enum SessionEvent {
    /// A request arrived.
    Message(Request),
    /// Reading or writing failed, or the peer went away.
    Failed,
    /// The file is open: its whole length and the hash of its whole content.
    Opened { size: u64, hash: String },
    /// The file could not be opened.
    OpenFailed,
    /// The next block of the file; empty once the file is exhausted.
    Block(Vec<u8>),
}

/// What the caller is to do next.
#[derive(Debug, Clone, PartialEq, Eq)]
pub enum SessionAction {
    /// Write the response, then read the next request.
    Send(Response),
    /// Write the response, then close the connection.
    SendAndClose(Response),
    /// Close the connection.
    Close,
    /// Open the file at `path` and report its size and hash.
    OpenFile { path: String },
    /// Write `info`, seek the file to `offset`, start the compressed
    /// stream, and read the first block.
    StartTransfer { info: Response, offset: u64 },
    /// Write the chunk into the compressed stream, then read one request.
    SendChunk(Response),
    /// Read the next block of the file.
    ReadBlock,
    /// Finish the compressed stream, write the response on the plain
    /// channel, then read the next request.
    Finish(Response),
}

/// The index of the chunk that holds byte `offset` of a file.
pub open spec fn spec_first_index(offset: u64) -> u64 {
    offset / (CHUNK_SIZE as u64)
}

/// The connection ends without a word.
pub open spec fn spec_closes(next: SessionState, action: SessionAction) -> bool {
    next is Closed && action is Close
}

/// The transfer ends and the connection goes back to `Ready`.
pub open spec fn spec_finishes(next: SessionState, action: SessionAction) -> bool {
    next is Ready && action matches SessionAction::Finish(Response::Done)
}

/// The connection stays `Ready` and the peer is told `text`.
pub open spec fn spec_reports(next: SessionState, action: SessionAction, text: Seq<char>) -> bool {
    &&& next is Ready
    &&& action matches SessionAction::Send(Response::Error(said))
    &&& said@ == text
}

/// The step from `AwaitingAuth`: one attempt, and only the configured
/// password passes.
pub open spec fn spec_on_auth(
    password: Option<Seq<char>>,
    event: SessionEvent,
    next: SessionState,
    action: SessionAction,
) -> bool {
    match event {
        SessionEvent::Message(Request::Auth(given)) => if option_text(given) == password {
            next is Ready && action matches SessionAction::Send(Response::AuthOk)
        } else {
            next is Closed && action matches SessionAction::SendAndClose(Response::AuthErr)
        },
        SessionEvent::Message(_) => next is Closed && action matches SessionAction::SendAndClose(
            Response::AuthErr,
        ),
        _ => spec_closes(next, action),
    }
}

/// The step from `Ready`.
pub open spec fn spec_on_ready(
    registry: Map<Seq<char>, Seq<char>>,
    event: SessionEvent,
    next: SessionState,
    action: SessionAction,
) -> bool {
    match event {
        SessionEvent::Message(Request::List) => {
            &&& next is Ready
            &&& action matches SessionAction::Send(Response::List(names))
            &&& names_cover(names@, registry)
        },
        SessionEvent::Message(Request::Quit) => next is Closed
            && action matches SessionAction::SendAndClose(Response::Bye),
        SessionEvent::Message(Request::Download { name, offset }) => if registry.contains_key(
            name@,
        ) {
            &&& next matches SessionState::Opening { name: asked, offset: from }
            &&& asked@ == name@
            &&& from == offset
            &&& action matches SessionAction::OpenFile { path }
            &&& path@ == registry[name@]
        } else {
            spec_reports(next, action, "File not found"@)
        },
        _ => spec_closes(next, action),
    }
}

/// The step from `Opening`.
pub open spec fn spec_on_opening(
    name: Seq<char>,
    offset: u64,
    event: SessionEvent,
    next: SessionState,
    action: SessionAction,
) -> bool {
    match event {
        SessionEvent::OpenFailed => spec_reports(next, action, "Error opening file"@),
        SessionEvent::Opened { size, hash } => {
            &&& next matches SessionState::Reading { index }
            &&& index == spec_first_index(offset)
            &&& action matches SessionAction::StartTransfer { info, offset: from }
            &&& from == offset
            &&& info matches Response::FileInfo { name: told, size: length, hash: digest, chunk_size }
            &&& told@ == name
            &&& length == size
            &&& digest@ == hash@
            &&& chunk_size == CHUNK_SIZE
        },
        _ => spec_closes(next, action),
    }
}

/// The step from `Reading`.
pub open spec fn spec_on_block(
    index: u64,
    event: SessionEvent,
    next: SessionState,
    action: SessionAction,
) -> bool {
    match event {
        SessionEvent::Block(data) => if data@.len() == 0 {
            spec_finishes(next, action)
        } else {
            &&& next matches SessionState::AwaitingAck { index: pending }
            &&& pending == index
            &&& action matches SessionAction::SendChunk(Response::Chunck { index: sent, data: bytes })
            &&& sent == index
            &&& bytes@ == data@
        },
        _ => spec_closes(next, action),
    }
}

/// The step from `AwaitingAck`: only the acknowledgement of the chunk
/// that is out lets the transfer go on, and only while a next index
/// exists.
pub open spec fn spec_on_ack(
    index: u64,
    event: SessionEvent,
    next: SessionState,
    action: SessionAction,
) -> bool {
    match event {
        SessionEvent::Message(Request::Ack { index: acked }) => if acked == index && index
            < u64::MAX {
            &&& next matches SessionState::Reading { index: following }
            &&& following == index + 1
            &&& action is ReadBlock
        } else {
            spec_finishes(next, action)
        },
        SessionEvent::Message(_) => spec_finishes(next, action),
        SessionEvent::Failed => spec_finishes(next, action),
        _ => spec_closes(next, action),
    }
}

/// One step of a session: from `state`, on `event`, to `next` with
/// `action`.
pub open spec fn spec_step(
    registry: Map<Seq<char>, Seq<char>>,
    password: Option<Seq<char>>,
    state: SessionState,
    event: SessionEvent,
    next: SessionState,
    action: SessionAction,
) -> bool {
    match state {
        SessionState::AwaitingAuth => spec_on_auth(password, event, next, action),
        SessionState::Ready => spec_on_ready(registry, event, next, action),
        SessionState::Opening { name, offset } => spec_on_opening(
            name@,
            offset,
            event,
            next,
            action,
        ),
        SessionState::Reading { index } => spec_on_block(index, event, next, action),
        SessionState::AwaitingAck { index } => spec_on_ack(index, event, next, action),
        SessionState::Closed => spec_closes(next, action),
    }
}

/// The registry after a step: a file that could not be opened is no
/// longer shared; nothing else on the data plane touches the registry.
pub open spec fn spec_registry_after_step(
    registry: Map<Seq<char>, Seq<char>>,
    state: SessionState,
    event: SessionEvent,
) -> Map<Seq<char>, Seq<char>> {
    match (state, event) {
        (SessionState::Opening { name, .. }, SessionEvent::OpenFailed) => registry.remove(name@),
        _ => registry,
    }
}

/// The index of the first chunk of a transfer that starts at `offset`.
pub fn first_chunk_index(offset: u64) -> (index: u64)
    ensures
        index == spec_first_index(offset),
{
    offset / (CHUNK_SIZE as u64)
}

/// Whether a step changes the registry, and so needs the server to
/// itself: only the report that a shared file could not be opened does.
pub open spec fn spec_needs_exclusive(state: SessionState, event: SessionEvent) -> bool {
    state is Opening && event is OpenFailed
}

/// Whether the step from `state` on `event` changes the registry.
pub fn needs_exclusive(state: &SessionState, event: &SessionEvent) -> (exclusive: bool)
    ensures
        exclusive == spec_needs_exclusive(*state, *event),
{
    match (state, event) {
        (SessionState::Opening { .. }, SessionEvent::OpenFailed) => true,
        _ => false,
    }
}

impl Server {
    /// A step that reads the registry at most.
    fn step_shared(&self, state: SessionState, event: SessionEvent) -> (step: (
        SessionState,
        SessionAction,
    ))
        requires
            self.wf(),
            !spec_needs_exclusive(state, event),
        ensures
            spec_step(self@, self.password(), state, event, step.0, step.1),
    {
        match state {
            SessionState::AwaitingAuth => match event {
                SessionEvent::Message(Request::Auth(given)) => {
                    if self.password_matches(&given) {
                        (SessionState::Ready, SessionAction::Send(Response::AuthOk))
                    } else {
                        (SessionState::Closed, SessionAction::SendAndClose(Response::AuthErr))
                    }
                },
                SessionEvent::Message(_) => (
                    SessionState::Closed,
                    SessionAction::SendAndClose(Response::AuthErr),
                ),
                _ => (SessionState::Closed, SessionAction::Close),
            },
            SessionState::Ready => match event {
                SessionEvent::Message(Request::List) => {
                    let names: Vec<String> = self.list_names();
                    (SessionState::Ready, SessionAction::Send(Response::List(names)))
                },
                SessionEvent::Message(Request::Quit) => (
                    SessionState::Closed,
                    SessionAction::SendAndClose(Response::Bye),
                ),
                SessionEvent::Message(Request::Download { name, offset }) => {
                    match self.lookup(name.as_str()) {
                        Some(path) => (
                            SessionState::Opening { name, offset },
                            SessionAction::OpenFile { path },
                        ),
                        None => (
                            SessionState::Ready,
                            SessionAction::Send(Response::Error("File not found".to_owned())),
                        ),
                    }
                },
                _ => (SessionState::Closed, SessionAction::Close),
            },
            SessionState::Opening { name, offset } => match event {
                SessionEvent::Opened { size, hash } => {
                    let index: u64 = first_chunk_index(offset);
                    let info = Response::FileInfo {
                        name,
                        size,
                        hash,
                        chunk_size: CHUNK_SIZE as u64,
                    };
                    (SessionState::Reading { index }, SessionAction::StartTransfer { info, offset })
                },
                _ => (SessionState::Closed, SessionAction::Close),
            },
            SessionState::Reading { index } => match event {
                SessionEvent::Block(data) => {
                    if data.len() == 0 {
                        (SessionState::Ready, SessionAction::Finish(Response::Done))
                    } else {
                        (
                            SessionState::AwaitingAck { index },
                            SessionAction::SendChunk(Response::Chunck { index, data }),
                        )
                    }
                },
                _ => (SessionState::Closed, SessionAction::Close),
            },
            SessionState::AwaitingAck { index } => match event {
                SessionEvent::Message(Request::Ack { index: acked }) => {
                    if acked == index && index < u64::MAX {
                        (SessionState::Reading { index: index + 1 }, SessionAction::ReadBlock)
                    } else {
                        (SessionState::Ready, SessionAction::Finish(Response::Done))
                    }
                },
                SessionEvent::Message(_) => (
                    SessionState::Ready,
                    SessionAction::Finish(Response::Done),
                ),
                SessionEvent::Failed => (SessionState::Ready, SessionAction::Finish(Response::Done)),
                _ => (SessionState::Closed, SessionAction::Close),
            },
            SessionState::Closed => (SessionState::Closed, SessionAction::Close),
        }
    }

    /// Takes one connection one step further: given where it stands and
    /// what happened, says where it stands now and what to do. A file
    /// that could not be opened leaves the registry here.
    pub fn handle_client(&mut self, state: SessionState, event: SessionEvent) -> (step: (
        SessionState,
        SessionAction,
    ))
        requires
            old(self).wf(),
        ensures
            final(self).wf(),
            final(self).password() == old(self).password(),
            final(self)@ == spec_registry_after_step(old(self)@, state, event),
            spec_step(old(self)@, old(self).password(), state, event, step.0, step.1),
    {
        match (state, event) {
            (SessionState::Opening { name, .. }, SessionEvent::OpenFailed) => {
                self.remove_file(name.as_str());
                (
                    SessionState::Ready,
                    SessionAction::Send(Response::Error("Error opening file".to_owned())),
                )
            },
            (state, event) => self.step_shared(state, event),
        }
    }

    /// The same step for a caller that shares the server with others:
    /// every step that leaves the registry as it is. The one step that
    /// does not is handed back untouched, for `handle_client`.
    pub fn handle_client_shared(&self, state: SessionState, event: SessionEvent) -> (step: Result<
        (SessionState, SessionAction),
        (SessionState, SessionEvent),
    >)
        requires
            self.wf(),
        ensures
            spec_needs_exclusive(state, event) <==> step is Err,
            step matches Err(back) ==> back.0 == state && back.1 == event,
            step matches Ok(taken) ==> spec_step(
                self@,
                self.password(),
                state,
                event,
                taken.0,
                taken.1,
            ) && spec_registry_after_step(self@, state, event) == self@,
    {
        if needs_exclusive(&state, &event) {
            Err((state, event))
        } else {
            Ok(self.step_shared(state, event))
        }
    }
}

/// Authentication is exact: a password other than the configured one is
/// turned away and the connection closed, and where none is configured a
/// peer that sends none is let in.
pub proof fn lemma_auth_is_exact(
    registry: Map<Seq<char>, Seq<char>>,
    password: Option<Seq<char>>,
    given: Option<String>,
    next: SessionState,
    action: SessionAction,
)
    requires
        spec_step(
            registry,
            password,
            SessionState::AwaitingAuth,
            SessionEvent::Message(Request::Auth(given)),
            next,
            action,
        ),
    ensures
        option_text(given) != password ==> next is Closed
            && action matches SessionAction::SendAndClose(Response::AuthErr),
        option_text(given) == password ==> next is Ready && action matches SessionAction::Send(
            Response::AuthOk,
        ),
        given is None && password is None ==> next is Ready && action matches SessionAction::Send(
            Response::AuthOk,
        ),
{
}

/// An acknowledgement of any index but that of the chunk that is out
/// ends the transfer: no further chunk is sent, and the connection is
/// `Ready` again, not closed.
pub proof fn lemma_wrong_ack_ends_transfer(
    registry: Map<Seq<char>, Seq<char>>,
    password: Option<Seq<char>>,
    index: u64,
    acked: u64,
    next: SessionState,
    action: SessionAction,
)
    requires
        acked != index,
        spec_step(
            registry,
            password,
            SessionState::AwaitingAck { index },
            SessionEvent::Message(Request::Ack { index: acked }),
            next,
            action,
        ),
    ensures
        next is Ready,
        action matches SessionAction::Finish(Response::Done),
        !(action is SendChunk) && !(action is ReadBlock) && !(action is Close),
        spec_registry_after_step(
            registry,
            SessionState::AwaitingAck { index },
            SessionEvent::Message(Request::Ack { index: acked }),
        ) == registry,
{
}

/// Chunk indices follow the file: a transfer that resumes at a multiple
/// of the chunk size starts with the index of that multiple.
pub proof fn lemma_resume_index(chunks: u64)
    requires
        chunks * CHUNK_SIZE <= u64::MAX,
    ensures
        spec_first_index((chunks * CHUNK_SIZE) as u64) == chunks,
{
    assert((chunks * 65536) / 65536 == chunks) by (nonlinear_arith);
}

/// One chunk is in flight at a time: while a chunk awaits its
/// acknowledgement, nothing that can happen sends another.
pub proof fn lemma_one_chunk_in_flight(
    registry: Map<Seq<char>, Seq<char>>,
    password: Option<Seq<char>>,
    index: u64,
    event: SessionEvent,
    next: SessionState,
    action: SessionAction,
)
    requires
        spec_step(registry, password, SessionState::AwaitingAck { index }, event, next, action),
    ensures
        !(action is SendChunk),
        action is ReadBlock ==> event == SessionEvent::Message(Request::Ack { index }) && next
            == (SessionState::Reading { index: (index + 1) as u64 }),
{
}

/// An acknowledged chunk moves the transfer on by one: the block read at
/// index `index` goes out under that index, and its acknowledgement leads
/// to the reading of the block for the next index.
pub proof fn lemma_acknowledged_chunk_advances(
    registry: Map<Seq<char>, Seq<char>>,
    password: Option<Seq<char>>,
    index: u64,
    data: Vec<u8>,
    waiting: SessionState,
    sent: SessionAction,
    next: SessionState,
    action: SessionAction,
)
    requires
        data@.len() > 0,
        index < u64::MAX,
        spec_step(
            registry,
            password,
            SessionState::Reading { index },
            SessionEvent::Block(data),
            waiting,
            sent,
        ),
        spec_step(
            registry,
            password,
            waiting,
            SessionEvent::Message(Request::Ack { index }),
            next,
            action,
        ),
    ensures
        sent matches SessionAction::SendChunk(Response::Chunck { index: out, data: bytes }) && out
            == index && bytes@ == data@,
        next == (SessionState::Reading { index: (index + 1) as u64 }),
        action is ReadBlock,
{
}

/// The end of a session leaves the registry alone: a step that closes
/// the connection changes nothing that other sessions see.
pub proof fn lemma_closing_leaves_registry(
    registry: Map<Seq<char>, Seq<char>>,
    password: Option<Seq<char>>,
    state: SessionState,
    event: SessionEvent,
    next: SessionState,
    action: SessionAction,
)
    requires
        spec_step(registry, password, state, event, next, action),
        next is Closed,
    ensures
        spec_registry_after_step(registry, state, event) == registry,
{
}

} // verus!
