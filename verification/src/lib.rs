//! Yamux stream multiplexing: frames, their wire format, and the session
//! logic that decides how each frame and each local request is answered.

pub mod bytes;
pub mod channel;
pub mod client;
pub mod config;
pub mod format;
pub mod frame;
pub mod frame_laws;
pub mod header;
pub mod io;
pub mod laws;
pub mod model;
pub mod reader;
pub mod sequence_laws;
pub mod session;
pub mod session_laws;
pub mod stream;
pub mod stream_laws;
pub mod text;
pub mod text_laws;
pub mod wire_laws;
pub mod writer;

pub use crate::config::{Config, WindowUpdateMode, DEFAULT_CREDIT};
