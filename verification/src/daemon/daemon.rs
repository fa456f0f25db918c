//! The dispatcher: applies one control command at a time to the registry
//! and says what to answer.

use vstd::prelude::*;
use vstd::string::StringExecFns;
use crate::daemon::protocol::{DaemonCommand, DaemonResponse};
use crate::network::server::{
    apply_op, entries_map, names_distinct, option_text, RegistryOp, Server,
};

verus! {

/// The final segment of `path` as a file name, where it has one.
pub uninterp spec fn spec_file_name(path: Seq<char>) -> Option<Seq<char>>;

/// Calls `std::path::Path::file_name` on `path`. Nothing is proved of the
/// call; its result is named `spec_file_name(path)`: the standard library
/// documents it as the final component of the path if that is a normal
/// one, and as nothing where the path ends in `..` or is a root.
#[verifier::external_body]
fn path_file_name(path: &str) -> (name: Option<String>)
    ensures
        option_text(name) == spec_file_name(path@),
{
    match std::path::Path::new(path).file_name() {
        Some(segment) => Some(segment.to_string_lossy().into_owned()),
        None => None,
    }
}

/// The name under which `Add` shares a file: the one given, else the one
/// that was derived from the path.
pub open spec fn spec_entry_name(given: Option<Seq<char>>, derived: Option<Seq<char>>) -> Option<
    Seq<char>,
> {
    match given {
        Some(name) => Some(name),
        None => derived,
    }
}

/// The change to the registry that `cmd` asks for, where `derived` is the
/// file name of the path of an `Add`. `List` changes nothing, nor does an
/// `Add` for which no name can be had.
pub open spec fn spec_command_op(cmd: DaemonCommand, derived: Option<Seq<char>>) -> Option<
    RegistryOp,
> {
    match cmd {
        DaemonCommand::Add { path, name } => match spec_entry_name(option_text(name), derived) {
            Some(entry_name) => Some(RegistryOp::Add { name: entry_name, path: path@ }),
            None => None,
        },
        DaemonCommand::Delete { name } => Some(RegistryOp::Delete { name: name@ }),
        DaemonCommand::List => None,
    }
}

/// The registry after `cmd`.
pub open spec fn spec_registry_after(
    before: Map<Seq<char>, Seq<char>>,
    cmd: DaemonCommand,
    derived: Option<Seq<char>>,
) -> Map<Seq<char>, Seq<char>> {
    match spec_command_op(cmd, derived) {
        Some(op) => apply_op(before, op),
        None => before,
    }
}

/// The answer to `cmd` on a registry that was `before`.
pub open spec fn spec_answers(
    before: Map<Seq<char>, Seq<char>>,
    cmd: DaemonCommand,
    derived: Option<Seq<char>>,
    resp: DaemonResponse,
) -> bool {
    match cmd {
        DaemonCommand::Add { path, name } => match spec_entry_name(option_text(name), derived) {
            Some(_) => resp matches DaemonResponse::Success(text) && text@ == "File added"@,
            None => resp matches DaemonResponse::Failure(text) && text@ == "Path has no file name"@,
        },
        DaemonCommand::Delete { name } => resp matches DaemonResponse::Success(text) && text@
            == "File '"@ + name@ + "' deleted"@,
        DaemonCommand::List => resp matches DaemonResponse::List(listing) && names_distinct(
            listing@,
        ) && entries_map(listing@) == before,
    }
}

/// Applies one command, given the file name that the path of an `Add`
/// has. `derived` is read only where the command is an `Add` without a
/// name.
pub fn apply_command(server: &mut Server, cmd: DaemonCommand, derived: Option<String>) -> (resp:
    DaemonResponse)
    requires
        old(server).wf(),
    ensures
        final(server).wf(),
        final(server).password() == old(server).password(),
        final(server)@ == spec_registry_after(old(server)@, cmd, option_text(derived)),
        spec_answers(old(server)@, cmd, option_text(derived), resp),
{
    match cmd {
        DaemonCommand::Add { path, name } => {
            let entry_name: Option<String> = match name {
                Some(given) => Some(given),
                None => derived,
            };
            match entry_name {
                Some(entry_name) => {
                    server.add_file(entry_name, path);
                    DaemonResponse::Success("File added".to_owned())
                },
                None => DaemonResponse::Failure("Path has no file name".to_owned()),
            }
        },
        DaemonCommand::Delete { name } => {
            server.remove_file(name.as_str());
            let text: String = String::from_str("File '").concat(name.as_str()).concat("' deleted");
            DaemonResponse::Success(text)
        },
        DaemonCommand::List => DaemonResponse::List(server.list_files()),
    }
}

/// The file name to hand to `apply_command` for `cmd`.
pub open spec fn spec_derived_name(cmd: DaemonCommand) -> Option<Seq<char>> {
    match cmd {
        DaemonCommand::Add { path, name } => if name is None {
            spec_file_name(path@)
        } else {
            None
        },
        _ => None,
    }
}

/// Handles one message of the dispatcher's queue: derives the name of an
/// `Add` that gives none from its path, applies the command, and returns
/// the answer for the reply slot.
pub fn handle_daemon_message(server: &mut Server, cmd: DaemonCommand) -> (resp: DaemonResponse)
    requires
        old(server).wf(),
    ensures
        final(server).wf(),
        final(server).password() == old(server).password(),
        final(server)@ == spec_registry_after(old(server)@, cmd, spec_derived_name(cmd)),
        spec_answers(old(server)@, cmd, spec_derived_name(cmd), resp),
{
    let derived: Option<String> = match &cmd {
        DaemonCommand::Add { path, name } => {
            if name.is_none() {
                path_file_name(path.as_str())
            } else {
                None
            }
        },
        _ => None,
    };
    apply_command(server, cmd, derived)
}

/// Deleting a name that is not shared changes nothing, and the answer
/// still reports success.
pub proof fn lemma_delete_absent_changes_nothing(
    before: Map<Seq<char>, Seq<char>>,
    cmd: DaemonCommand,
    derived: Option<Seq<char>>,
    resp: DaemonResponse,
)
    requires
        cmd matches DaemonCommand::Delete { name } && !before.contains_key(name@),
        spec_answers(before, cmd, derived, resp),
    ensures
        spec_registry_after(before, cmd, derived) == before,
        resp is Success,
{
    assert(spec_registry_after(before, cmd, derived) =~= before);
}

/// Of two `Add` commands that come to the same name, the one that the
/// dispatcher handles second decides the path, whatever the first said.
pub proof fn lemma_same_name_adds_last_wins(
    before: Map<Seq<char>, Seq<char>>,
    first: DaemonCommand,
    first_derived: Option<Seq<char>>,
    second: DaemonCommand,
    second_derived: Option<Seq<char>>,
)
    requires
        first is Add,
        second is Add,
        spec_command_op(first, first_derived) is Some,
        spec_command_op(second, second_derived) is Some,
        spec_command_op(first, first_derived)->0.name() == spec_command_op(
            second,
            second_derived,
        )->0.name(),
    ensures
        ({
            let after = spec_registry_after(
                spec_registry_after(before, first, first_derived),
                second,
                second_derived,
            );
            let name = spec_command_op(second, second_derived)->0.name();
            &&& after == spec_registry_after(before, second, second_derived)
            &&& after.contains_key(name)
            &&& after[name] == second->path@
        }),
{
    let after = spec_registry_after(
        spec_registry_after(before, first, first_derived),
        second,
        second_derived,
    );
    assert(after =~= spec_registry_after(before, second, second_derived));
}

} // verus!
