//! The daemon's side of the command line, and the steps of one control
//! connection between reading a command and answering it.

use vstd::prelude::*;
use vstd::string::StringExecFns;
use crate::daemon::protocol::{DaemonCommand, DaemonResponse};
use crate::settings::cli::ServerCliCommand;

verus! {

/// What a daemon subcommand comes to.
#[derive(Debug, Clone, PartialEq, Eq)]
pub enum ServerPlan {
    /// Detach and serve on `port`.
    Start { port: u16, password: Option<String> },
    /// Signal the running daemon to end.
    Stop,
    /// Send the command to the running daemon and show its answer.
    Send(DaemonCommand),
}

/// The plan for `command`.
pub open spec fn spec_server_plan(command: ServerCliCommand) -> ServerPlan {
    match command {
        ServerCliCommand::Start { port, password } => ServerPlan::Start { port, password },
        ServerCliCommand::Stop => ServerPlan::Stop,
        ServerCliCommand::Add { path, name } => ServerPlan::Send(DaemonCommand::Add { path, name }),
        ServerCliCommand::Delete { name } => ServerPlan::Send(DaemonCommand::Delete { name }),
        ServerCliCommand::List => ServerPlan::Send(DaemonCommand::List),
    }
}

/// Decides what a daemon subcommand asks for: `start` and `stop` act on
/// the process, every other subcommand becomes the control command of
/// the same name with the same arguments.
pub fn handle_server_command(command: ServerCliCommand) -> (plan: ServerPlan)
    ensures
        plan == spec_server_plan(command),
{
    match command {
        ServerCliCommand::Start { port, password } => ServerPlan::Start { port, password },
        ServerCliCommand::Stop => ServerPlan::Stop,
        ServerCliCommand::Add { path, name } => ServerPlan::Send(DaemonCommand::Add { path, name }),
        ServerCliCommand::Delete { name } => ServerPlan::Send(DaemonCommand::Delete { name }),
        ServerCliCommand::List => ServerPlan::Send(DaemonCommand::List),
    }
}

/// Where a control connection stands.
#[derive(Debug, Clone, Copy, PartialEq, Eq)]
pub enum ControlState {
    /// The payload is being read, up to the peer's end of stream.
    Reading,
    /// The command is with the dispatcher; its answer is awaited.
    Queued,
    /// Nothing more happens on this connection.
    Finished,
}

/// What the listener reports of a control connection.
#[derive(Debug, PartialEq, Eq)]
pub enum ControlEvent {
    /// The peer closed its side; what it wrote, be it nothing, decodes to a
    /// command or fail to, with a reason.
    Received(Result<DaemonCommand, String>),
    /// Reading failed.
    ReadFailed,
    /// The dispatcher's queue no longer takes commands.
    QueueClosed,
    /// The dispatcher answered.
    Answered(DaemonResponse),
    /// The dispatcher took the command and dropped the reply slot.
    ReplyDropped,
}

/// What the listener is to do next.
#[derive(Debug, Clone, PartialEq, Eq)]
pub enum ControlAction {
    /// Put the command, with a fresh reply slot, on the dispatcher's queue.
    Submit(DaemonCommand),
    /// Write the response and end the connection.
    Respond(DaemonResponse),
    /// End the connection without a response.
    Nothing,
}

/// The connection ends with the failure `text` as its answer.
pub open spec fn spec_fails_with(next: ControlState, action: ControlAction, text: Seq<char>) -> bool {
    &&& next == ControlState::Finished
    &&& action matches ControlAction::Respond(DaemonResponse::Failure(said))
    &&& said@ == text
}

/// One step of a control connection.
pub open spec fn spec_control_step(
    state: ControlState,
    event: ControlEvent,
    next: ControlState,
    action: ControlAction,
) -> bool {
    match (state, event) {
        (ControlState::Reading, ControlEvent::Received(decoded)) => match decoded {
            Ok(cmd) => next == ControlState::Queued && action == ControlAction::Submit(cmd),
            Err(reason) => spec_fails_with(next, action, "Invalid command: "@ + reason@),
        },
        (ControlState::Queued, ControlEvent::QueueClosed) => spec_fails_with(
            next,
            action,
            "Daemon not running"@,
        ),
        (ControlState::Queued, ControlEvent::ReplyDropped) => spec_fails_with(
            next,
            action,
            "Daemon failed to respond"@,
        ),
        (ControlState::Queued, ControlEvent::Answered(resp)) => next == ControlState::Finished
            && action == ControlAction::Respond(resp),
        _ => next == ControlState::Finished && action is Nothing,
    }
}

/// Takes one control connection one step further. A connection carries
/// one command: a payload that does not decode, an empty one too, is
/// answered at once with the reason, and a decoded command goes to the
/// dispatcher, whose answer, or whose absence, becomes the response.
pub fn start_server_listener(state: ControlState, event: ControlEvent) -> (step: (
    ControlState,
    ControlAction,
))
    ensures
        spec_control_step(state, event, step.0, step.1),
{
    match state {
        ControlState::Reading => match event {
            ControlEvent::Received(decoded) => match decoded {
                Ok(cmd) => (ControlState::Queued, ControlAction::Submit(cmd)),
                Err(reason) => {
                    let text: String = String::from_str("Invalid command: ").concat(
                        reason.as_str(),
                    );
                    (ControlState::Finished, ControlAction::Respond(DaemonResponse::Failure(text)))
                },
            },
            _ => (ControlState::Finished, ControlAction::Nothing),
        },
        ControlState::Queued => match event {
            ControlEvent::QueueClosed => (
                ControlState::Finished,
                ControlAction::Respond(DaemonResponse::Failure("Daemon not running".to_owned())),
            ),
            ControlEvent::ReplyDropped => (
                ControlState::Finished,
                ControlAction::Respond(
                    DaemonResponse::Failure("Daemon failed to respond".to_owned()),
                ),
            ),
            ControlEvent::Answered(resp) => (ControlState::Finished, ControlAction::Respond(resp)),
            _ => (ControlState::Finished, ControlAction::Nothing),
        },
        ControlState::Finished => (ControlState::Finished, ControlAction::Nothing),
    }
}

/// What to show for the outcome of a command.
#[derive(Debug, Clone, PartialEq, Eq)]
pub enum Console {
    /// Lines for standard output.
    Output(Vec<String>),
    /// A line for standard error.
    Error(String),
}

/// The line that shows one shared file.
pub open spec fn spec_listing_line(name: Seq<char>, path: Seq<char>) -> Seq<char> {
    name + " ("@ + path + ")"@
}

/// What `handle_response` shows for `result`.
pub open spec fn spec_shows(result: Result<DaemonResponse, String>, shown: Console) -> bool {
    match result {
        Ok(DaemonResponse::Success(msg)) => shown matches Console::Output(lines) && lines@.len() == 1
            && lines@[0]@ == msg@,
        Ok(DaemonResponse::Failure(msg)) => shown matches Console::Error(line) && line@ == msg@,
        Ok(DaemonResponse::List(files)) => {
            &&& shown matches Console::Output(lines)
            &&& lines@.len() == files@.len()
            &&& forall|i: int|
                0 <= i < lines@.len() ==> (#[trigger] lines@[i])@ == spec_listing_line(
                    files@[i].name@,
                    files@[i].path@,
                )
        },
        Err(reason) => shown matches Console::Error(line) && line@ == "Error sending command: "@
            + reason@,
    }
}

/// Turns the outcome of a command into what the user sees: a success
/// message or one line per shared file on standard output, a failure on
/// standard error.
pub fn handle_response(result: Result<DaemonResponse, String>) -> (shown: Console)
    ensures
        spec_shows(result, shown),
{
    match result {
        Ok(DaemonResponse::Success(msg)) => {
            let mut lines: Vec<String> = Vec::new();
            lines.push(msg);
            Console::Output(lines)
        },
        Ok(DaemonResponse::Failure(msg)) => Console::Error(msg),
        Ok(DaemonResponse::List(files)) => {
            let mut lines: Vec<String> = Vec::new();
            let mut i: usize = 0;
            while i < files.len()
                invariant
                    i <= files@.len(),
                    lines@.len() == i,
                    forall|k: int|
                        0 <= k < i ==> (#[trigger] lines@[k])@ == spec_listing_line(
                            files@[k].name@,
                            files@[k].path@,
                        ),
                decreases files@.len() - i,
            {
                let line: String = files[i].name.clone().concat(" (").concat(
                    files[i].path.as_str(),
                ).concat(")");
                lines.push(line);
                i += 1;
            }
            Console::Output(lines)
        },
        Err(reason) => Console::Error(
            String::from_str("Error sending command: ").concat(reason.as_str()),
        ),
    }
}

} // verus!
