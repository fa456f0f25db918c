//! Fixed settings of the service and the shape of its command line.

pub mod cli;
pub mod config;

pub use cli::{Cli, ClientCliCommand, Command, ServerCliCommand};
pub use config::{
    CERT_PATH, CHUNK_SIZE, KEY_PATH, SERVER_DAEMON_ERR_PATH, SERVER_DAEMON_OUT_PATH,
    SERVER_DAEMON_PID_PATH, SERVER_DAEMON_SOCKET_PATH,
};
