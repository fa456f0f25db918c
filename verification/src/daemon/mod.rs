//! The control plane: local commands, the dispatcher that applies them to
//! the registry one at a time, and the steps of one control connection.

pub mod protocol;
pub mod daemon;
pub mod server;

pub use daemon::{apply_command, handle_daemon_message};
pub use protocol::{DaemonCommand, DaemonResponse};
pub use server::{
    handle_response, handle_server_command, start_server_listener, Console, ControlAction,
    ControlEvent, ControlState, ServerPlan,
};
