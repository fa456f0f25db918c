//! The data plane: wire framing, protocol messages, and the server with
//! its per-connection session.

pub mod protocol;
pub mod io;
pub mod server;
pub mod session;

pub use io::{frame_message, read_frame, decode_length, encode_length, FrameError};
pub use protocol::{Request, Response};
pub use server::{FileEntry, Server};
pub use session::{SessionAction, SessionEvent, SessionState};
