//! Session types: commands, actions and identifiers.

use crate::channel::random_u32;
use crate::config::Config;
use crate::frame::{Frame, FrameView};
use crate::header::StreamId;
use crate::stream::{Stream, StreamView};
use futures::channel::{mpsc, oneshot};
use std::sync::Arc;
use vstd::prelude::*;

verus! {

/// How the connection is used.
#[derive(Copy, Clone, Debug, Hash, PartialEq, Eq, Structural)]
pub enum Mode {
    /// Client to server connection.
    Client,
    /// Server to client connection.
    Server,
}

/// Possible actions as a result of incoming frame handling.
#[derive(Debug)]
pub enum Action {
    /// Nothing to be done.
    Nothing,
    /// A new stream has been opened by the remote.
    New(Stream),
    /// A window update should be sent to the remote.
    Update(Frame),
    /// A ping should be answered.
    Ping(Frame),
    /// A stream should be reset.
    Reset(Frame),
    /// The connection should be terminated.
    Terminate(Frame),
}

/// The contents of an [`Action`].
pub enum ActionView {
    Nothing,
    New(StreamView),
    Update(FrameView),
    Ping(FrameView),
    Reset(FrameView),
    Terminate(FrameView),
}

impl View for Action {
    type V = ActionView;

    open spec fn view(&self) -> ActionView {
        match self {
            Action::Nothing => ActionView::Nothing,
            Action::New(s) => ActionView::New(s@),
            Action::Update(f) => ActionView::Update(f@),
            Action::Ping(f) => ActionView::Ping(f@),
            Action::Reset(f) => ActionView::Reset(f@),
            Action::Terminate(f) => ActionView::Terminate(f@),
        }
    }
}

/// This enum captures the various stages of shutting down the connection.
#[derive(Debug)]
pub enum Shutdown {
    /// We are open for business.
    NotStarted,
    /// We have received a `ControlCommand::CloseConnection`. Frames and
    /// commands are still handled as before.
    InProgress,
    /// The shutdown is complete and we are closed for good.
    Complete,
}

/// `Control` to `Connection` commands.
#[derive(Debug)]
pub enum ControlCommand {
    /// Open a new stream to the remote end.
    OpenStream(oneshot::Sender<Result<Stream, String>>),
    /// Get the stream with the given ID that the remote end has opened.
    GetStream((u32, oneshot::Sender<Result<Stream, String>>)),
    /// Be handed the streams that the remote end has opened, and be told of
    /// those that it opens with a window update from then on. A stream that it
    /// opens with a data frame is not announced.
    SubscribeStream(oneshot::Sender<Result<mpsc::Receiver<Stream>, String>>),
    /// Close the whole connection.
    CloseConnection(()),
}

/// `Stream` to `Connection` commands.
#[derive(Debug)]
pub enum StreamCommand {
    /// A new frame should be sent to the remote.
    SendFrame(Frame),
    /// Close a stream. The sending half does not carry this command out: it
    /// sends nothing for it.
    CloseStream { id: StreamId, ack: bool },
}

/// The connection identifier.
///
/// Randomly generated, this is mainly intended to improve log output.
#[derive(Clone, Copy, Debug)]
pub struct Id(pub u32);

impl Id {
    /// Create a random connection ID.
    pub fn random() -> (id: Self) {
        Id(random_u32())
    }
}

/// A Yamux connection object.
///
/// Wraps the underlying I/O resource.
#[allow(dead_code)]
pub struct RawSession<S> {
    id: Id,
    mode: Mode,
    config: Arc<Config>,
    socket: S,
    next_id: u32,
    garbage: Vec<StreamId>,
    shutdown: Shutdown,
    is_closed: bool,
}

} // verus!
