//! Session configuration.

use vstd::prelude::*;

verus! {

/// The credit that each stream starts with, 256 KiB.
pub const DEFAULT_CREDIT: u32 = 256 * 1024;

/// When window updates are sent to the remote.
#[derive(Copy, Clone, Debug, PartialEq, Eq, Structural)]
pub enum WindowUpdateMode {
    /// As soon as a stream's receive window drops to zero.
    OnReceive,
    /// Only when data is read on the receiving end.
    OnRead,
}

/// The configuration of a session.
#[derive(Clone, Debug)]
pub struct Config {
    /// The receive window of a stream that is opened, in bytes.
    pub receive_window: u32,
    /// The largest number of bytes that a stream buffers.
    pub max_buffer_size: usize,
    /// The number of streams at which new streams of the remote are refused.
    pub max_num_streams: usize,
    /// When window updates are sent.
    pub window_update_mode: WindowUpdateMode,
    /// Whether a stream is announced with its first frame only.
    pub lazy_open: bool,
}

impl Default for Config {
    fn default() -> (cfg: Self)
        ensures
            cfg == (Config {
                receive_window: DEFAULT_CREDIT,
                max_buffer_size: 0x10_0000,
                max_num_streams: 8192,
                window_update_mode: WindowUpdateMode::OnReceive,
                lazy_open: false,
            }),
    {
        Config {
            receive_window: DEFAULT_CREDIT,
            max_buffer_size: 0x10_0000,
            max_num_streams: 8192,
            window_update_mode: WindowUpdateMode::OnReceive,
            lazy_open: false,
        }
    }
}

} // verus!
