//! What a session does with frames and requests, in terms of its contents.

use crate::channel::{data_channel_ends, CHANNEL_SIZE};
use crate::config::{Config, DEFAULT_CREDIT};
use crate::frame::{bare_frame, internal_error_frame, protocol_error_frame, FrameView};
use crate::header::{plain_header, Header, StreamId, Tag, ACK, CONNECTION_ID, FIN, RST, SYN};
use crate::session::{ActionView, Id, Mode, Shutdown, StreamCommand};
use crate::stream::{fresh_stream, Flag, Stream, StreamView};
use futures::channel::mpsc;
use vstd::prelude::*;

verus! {

/// The contents of the receiving half of a session.
#[verifier::ext_equal]
pub struct SessionView {
    pub id: Id,
    pub mode: Mode,
    pub config: Config,
    pub stream_sender: mpsc::Sender<StreamCommand>,
    pub remote_stream_sender: Option<mpsc::Sender<Stream>>,
    pub next_id: u32,
    pub streams: Map<u32, StreamView>,
    pub garbage: Seq<StreamId>,
    pub shutdown: Shutdown,
    pub is_closed: bool,
}

/// How a frame for a stream is judged.
pub enum Verdict {
    /// Nothing is to be done.
    Ignore,
    /// The frame is for a stream of the session.
    Known,
    /// The frame opens a new stream.
    Accept,
    /// The frame is for no stream of the session, which is to be reset.
    Reset,
    /// The frame breaks the rules: the session is to be terminated with the
    /// given frame.
    Refuse(FrameView),
}

/// The frame that resets a stream.
pub open spec fn reset_frame(id: StreamId) -> FrameView {
    bare_frame(plain_header(Tag::Data, id, 0).flagged(RST))
}

/// The frame that answers a ping.
pub open spec fn pong_frame(nonce: u32) -> FrameView {
    bare_frame(plain_header(Tag::Ping, StreamId(0), nonce).flagged(ACK))
}

/// The frame that announces a stream that is opened.
pub open spec fn open_frame(id: StreamId, window: u32) -> FrameView {
    bare_frame(plain_header(Tag::WindowUpdate, id, window).flagged(SYN))
}

impl Mode {
    /// Whether the local end assigns this ID.
    pub open spec fn local(self, id: StreamId) -> bool {
        match self {
            Mode::Client => !id.server_side(),
            Mode::Server => id.server_side(),
        }
    }

    /// Whether a remote stream may have this ID.
    pub open spec fn remote(self, id: StreamId) -> bool {
        !self.local(id)
    }

    /// The mode of the other end.
    pub open spec fn opposite(self) -> Mode {
        match self {
            Mode::Client => Mode::Server,
            Mode::Server => Mode::Client,
        }
    }

    /// The first ID that the local end assigns.
    pub open spec fn first_id(self) -> u32 {
        match self {
            Mode::Client => 1,
            Mode::Server => 2,
        }
    }
}

impl Verdict {
    /// What is to be done about a frame for stream `id`, which may have opened
    /// the stream `inbound`.
    pub open spec fn action(self, id: StreamId, inbound: Option<StreamView>) -> ActionView {
        match self {
            Verdict::Ignore => ActionView::Nothing,
            Verdict::Known => ActionView::Nothing,
            Verdict::Accept => ActionView::New(inbound->Some_0),
            Verdict::Reset => ActionView::Reset(reset_frame(id)),
            Verdict::Refuse(frame) => ActionView::Terminate(frame),
        }
    }

    /// The frame that the remote is answered with, when a frame for stream
    /// `id` is judged so.
    pub open spec fn answer(self, id: StreamId) -> Option<FrameView> {
        match self {
            Verdict::Reset => Some(reset_frame(id)),
            Verdict::Refuse(frame) => Some(frame),
            _ => None,
        }
    }
}

/// The frame that a command asks to be sent is `frame`; without a frame there
/// is no command.
pub open spec fn commands(command: Option<StreamCommand>, frame: Option<FrameView>) -> bool {
    match command {
        None => frame is None,
        Some(StreamCommand::SendFrame(f)) => frame == Some(f@),
        Some(StreamCommand::CloseStream { .. }) => false,
    }
}

/// The contents of an optional stream.
pub open spec fn optional(stream: Option<Stream>) -> Option<StreamView> {
    match stream {
        Some(s) => Some(s@),
        None => None,
    }
}

/// A session that begins.
pub open spec fn new_session(
    id: Id,
    config: Config,
    mode: Mode,
    stream_sender: mpsc::Sender<StreamCommand>,
) -> SessionView {
    SessionView {
        id,
        mode,
        config,
        stream_sender,
        remote_stream_sender: None,
        next_id: mode.first_id(),
        streams: Map::empty(),
        garbage: Seq::empty(),
        shutdown: Shutdown::NotStarted,
        is_closed: false,
    }
}

impl SessionView {
    /// What holds of every session between two operations.
    ///
    /// Each stream is kept under its own ID, knows its session, has nothing
    /// pending and no receiving end for data. The next ID is one that the
    /// local end assigns, and beyond all that it has assigned.
    pub open spec fn wf(self) -> bool {
        &&& self.mode.local(StreamId(self.next_id))
        &&& self.next_id >= self.mode.first_id()
        &&& forall|k: u32| #[trigger]
            self.streams.contains_key(k) ==> {
                let s = self.streams[k];
                &&& s.id == StreamId(k)
                &&& s.conn == self.id
                &&& s.config == self.config
                &&& s.sender == self.stream_sender
                &&& s.pending is None
                &&& s.data_receiver is None
                &&& self.mode.local(s.id) ==> self.mode.first_id() <= k < self.next_id
            }
        &&& self.streams.dom().finite()
    }

    /// The session with one stream added or replaced.
    pub open spec fn with_stream(self, key: u32, stream: StreamView) -> SessionView {
        SessionView { streams: self.streams.insert(key, stream), ..self }
    }

    /// Whether the remote may use this ID in a frame with this tag.
    pub open spec fn valid_remote_id(self, id: StreamId, tag: Tag) -> bool {
        if tag == Tag::Ping || tag == Tag::GoAway {
            id.0 == CONNECTION_ID
        } else {
            self.mode.remote(id)
        }
    }

    /// Whether a further stream of the remote is refused.
    pub open spec fn full(self) -> bool {
        self.streams.len() == self.config.max_num_streams
    }

    /// How a frame that opens no stream is judged.
    pub open spec fn judge_existing(self, header: Header) -> Verdict {
        if self.streams.contains_key(header.stream_id.0) {
            Verdict::Known
        } else if header.flags.has(FIN) {
            Verdict::Ignore
        } else {
            Verdict::Reset
        }
    }

    /// How a window update is judged.
    pub open spec fn judge_window_update(self, header: Header) -> Verdict {
        if header.flags.has(RST) {
            Verdict::Ignore
        } else if !header.flags.has(SYN) {
            self.judge_existing(header)
        } else if !self.valid_remote_id(header.stream_id, header.tag) || self.streams.contains_key(
            header.stream_id.0,
        ) || self.full() {
            Verdict::Refuse(protocol_error_frame())
        } else {
            Verdict::Accept
        }
    }

    /// How a data frame is judged.
    pub open spec fn judge_data(self, frame: FrameView) -> Verdict {
        let header = frame.header;
        if header.flags.has(RST) {
            Verdict::Ignore
        } else if !header.flags.has(SYN) {
            self.judge_existing(header)
        } else if !self.mode.remote(header.stream_id) || frame.body.len() > DEFAULT_CREDIT
            || self.streams.contains_key(header.stream_id.0) {
            Verdict::Refuse(protocol_error_frame())
        } else if self.full() {
            Verdict::Refuse(internal_error_frame())
        } else {
            Verdict::Accept
        }
    }

    /// What is to be done about a ping: an acknowledgement is not answered, a
    /// ping for the session or for one of its streams is.
    pub open spec fn ping_action(self, header: Header) -> ActionView {
        if header.flags.has(ACK) {
            ActionView::Nothing
        } else if header.stream_id.0 == CONNECTION_ID || self.streams.contains_key(
            header.stream_id.0,
        ) {
            ActionView::Ping(pong_frame(header.length))
        } else {
            ActionView::Reset(reset_frame(header.stream_id))
        }
    }

    /// The stream that the session keeps when the remote has opened it.
    pub open spec fn accepted(self, id: StreamId) -> StreamView {
        StreamView {
            flag: Flag::Ack,
            ..fresh_stream(id, self.id, self.config, self.stream_sender)
        }
    }

    /// The stream that the session keeps when it opens it itself.
    pub open spec fn opened(self) -> StreamView {
        StreamView {
            flag: if self.config.lazy_open {
                Flag::Syn
            } else {
                Flag::Unset
            },
            ..fresh_stream(StreamId(self.next_id), self.id, self.config, self.stream_sender)
        }
    }

    /// The session once it has opened a stream with the given data channel.
    pub open spec fn after_open(self, data_sender: mpsc::Sender<Vec<u8>>) -> SessionView {
        SessionView {
            next_id: (self.next_id + 2) as u32,
            ..self.with_stream(self.next_id, self.opened().attached(data_sender))
        }
    }

    /// The frame that announces the next stream, unless streams are opened
    /// lazily.
    pub open spec fn announcement(self) -> Option<FrameView> {
        if self.config.lazy_open {
            None
        } else {
            Some(open_frame(StreamId(self.next_id), self.config.receive_window))
        }
    }

    /// The session can open a further stream: the next ID is one that the
    /// local end assigns, and there is one after it.
    pub open spec fn can_open(self) -> bool {
        self.mode.local(StreamId(self.next_id)) && self.next_id <= u32::MAX - 2
    }

    /// The session once it has been asked to close the connection: a shutdown
    /// that has not started is now in progress.
    pub open spec fn closing(self) -> SessionView {
        SessionView {
            shutdown: if self.shutdown is NotStarted {
                Shutdown::InProgress
            } else {
                self.shutdown
            },
            ..self
        }
    }

    /// The session has become `post` by opening `stream` for a user. The
    /// command announces the stream to the remote.
    pub open spec fn opens(
        self,
        post: SessionView,
        stream: StreamView,
        command: Option<StreamCommand>,
    ) -> bool {
        let tx = post.streams[self.next_id].data_sender;
        let rx = stream.data_receiver;
        &&& tx is Some
        &&& rx is Some
        &&& data_channel_ends(CHANNEL_SIZE, tx->Some_0, rx->Some_0)
        &&& post == self.after_open(tx->Some_0)
        &&& stream == self.opened().handed_out(rx->Some_0)
        &&& commands(command, self.announcement())
    }

    /// The session has become `post` when a user has asked for the stream
    /// under `key`, and was answered with `reply`. A stream of the remote is
    /// handed out; other requests are refused.
    pub open spec fn gives(
        self,
        key: u32,
        post: SessionView,
        reply: Result<Stream, String>,
    ) -> bool {
        match reply {
            Ok(stream) => {
                let tx = post.streams[key].data_sender;
                let rx = stream.data_receiver;
                &&& self.remote_key(key)
                &&& tx is Some
                &&& rx is Some
                &&& data_channel_ends(CHANNEL_SIZE, tx->Some_0, rx->Some_0)
                &&& stream@ == self.streams[key].handed_out(rx->Some_0)
                &&& post == self.with_stream(key, self.streams[key].attached(tx->Some_0))
            },
            Err(e) => {
                &&& !self.remote_key(key)
                &&& post == self
                &&& e@ == if self.mode.remote(StreamId(key)) {
                    "not exist stream"@
                } else {
                    "not remote stream id"@
                }
            },
        }
    }

    /// The session has become `post` by accepting stream `id`; `inbound` is a
    /// copy of the stream. Without a data channel nobody is told of it; with
    /// one, `announced` is what a user is handed.
    pub open spec fn accepts(
        self,
        id: StreamId,
        channel: Option<(mpsc::Sender<Vec<u8>>, mpsc::Receiver<Vec<u8>>)>,
        post: SessionView,
        inbound: StreamView,
        announced: Option<StreamView>,
    ) -> bool {
        match channel {
            None => {
                &&& post == self.with_stream(id.0, self.accepted(id))
                &&& inbound == self.accepted(id)
                &&& announced is None
            },
            Some((tx, rx)) => {
                &&& post == self.with_stream(id.0, self.accepted(id).attached(tx))
                &&& inbound == self.accepted(id).attached(tx)
                &&& announced == Some(self.accepted(id).handed_out(rx))
            },
        }
    }

    /// A window update has made the session `post`. Where it opened a stream,
    /// `inbound` is that stream, and `announced` is what is handed to the
    /// subscriber, if there is one.
    pub open spec fn window_update_effect(
        self,
        header: Header,
        post: SessionView,
        inbound: Option<StreamView>,
        announced: Option<StreamView>,
    ) -> bool {
        if self.judge_window_update(header) is Accept {
            &&& inbound is Some
            &&& if self.remote_stream_sender is Some {
                &&& inbound->Some_0.data_sender is Some
                &&& announced is Some
                &&& announced->Some_0.data_receiver is Some
                &&& {
                    let tx = inbound->Some_0.data_sender->Some_0;
                    let rx = announced->Some_0.data_receiver->Some_0;
                    &&& data_channel_ends(CHANNEL_SIZE, tx, rx)
                    &&& self.accepts(
                        header.stream_id,
                        Some((tx, rx)),
                        post,
                        inbound->Some_0,
                        announced,
                    )
                }
            } else {
                self.accepts(header.stream_id, None, post, inbound->Some_0, announced)
            }
        } else {
            &&& post == self
            &&& inbound is None
            &&& announced is None
        }
    }

    /// A data frame has made the session `post`. Where it opened a stream,
    /// `inbound` is that stream; where it was for a stream of the session,
    /// `deliveries` goes into the data channel of that stream.
    pub open spec fn data_effect(
        self,
        frame: FrameView,
        post: SessionView,
        inbound: Option<StreamView>,
        deliveries: Seq<Seq<u8>>,
    ) -> bool {
        let id = frame.header.stream_id;
        match self.judge_data(frame) {
            Verdict::Accept => {
                &&& inbound is Some
                &&& self.accepts(id, None, post, inbound->Some_0, None)
                &&& deliveries == Seq::<Seq<u8>>::empty()
            },
            Verdict::Known => {
                let s = self.streams[id.0];
                &&& post == self.with_stream(id.0, s.fed(frame.header.length, frame.body))
                &&& inbound is None
                &&& deliveries == s.deliveries(frame.header.length, frame.body)
            },
            _ => {
                &&& post == self
                &&& inbound is None
                &&& deliveries == Seq::<Seq<u8>>::empty()
            },
        }
    }

    /// A frame has made the session `post`. A ping, a frame for an unknown
    /// stream and a frame that breaks the rules are answered by a command to
    /// the sending half; a go-away frame has no effect.
    pub open spec fn frame_effect(
        self,
        frame: FrameView,
        post: SessionView,
        inbound: Option<StreamView>,
        announced: Option<StreamView>,
        deliveries: Seq<Seq<u8>>,
        command: Option<StreamCommand>,
    ) -> bool {
        match frame.header.tag {
            Tag::Ping => {
                &&& post == self
                &&& inbound is None
                &&& announced is None
                &&& deliveries == Seq::<Seq<u8>>::empty()
                &&& match self.ping_action(frame.header) {
                    ActionView::Ping(pong) => commands(command, Some(pong)),
                    ActionView::Reset(reset) => commands(command, Some(reset)),
                    _ => command is None,
                }
            },
            Tag::GoAway => {
                &&& post == self
                &&& inbound is None
                &&& announced is None
                &&& deliveries == Seq::<Seq<u8>>::empty()
                &&& command is None
            },
            Tag::WindowUpdate => {
                &&& self.window_update_effect(frame.header, post, inbound, announced)
                &&& deliveries == Seq::<Seq<u8>>::empty()
                &&& commands(
                    command,
                    self.judge_window_update(frame.header).answer(frame.header.stream_id),
                )
            },
            Tag::Data => {
                &&& self.data_effect(frame, post, inbound, deliveries)
                &&& announced is None
                &&& commands(command, self.judge_data(frame).answer(frame.header.stream_id))
            },
        }
    }

    /// Whether the remote may have opened the stream under this key.
    pub open spec fn remote_key(self, key: u32) -> bool {
        self.streams.contains_key(key) && self.mode.remote(StreamId(key))
    }

    /// The streams have become `streams` by handing out those under `keys`,
    /// in that order, as `handed`, each over a data channel.
    pub open spec fn hands_out(
        self,
        keys: Seq<u32>,
        streams: Map<u32, StreamView>,
        handed: Seq<Stream>,
    ) -> bool {
        &&& handed.len() == keys.len()
        &&& forall|i: int|
            0 <= i < keys.len() ==> {
                &&& (#[trigger] handed[i]).data_receiver is Some
                &&& handed[i]@ == self.streams[keys[i]].handed_out(
                    handed[i].data_receiver->Some_0,
                )
                &&& streams[keys[i]].data_sender is Some
                &&& data_channel_ends(
                    CHANNEL_SIZE,
                    streams[keys[i]].data_sender->Some_0,
                    handed[i].data_receiver->Some_0,
                )
            }
        &&& streams.dom() == self.streams.dom()
        &&& forall|k: u32| #[trigger]
            self.streams.contains_key(k) ==> if keys.contains(k) {
                &&& streams[k].data_sender is Some
                &&& streams[k] == self.streams[k].attached(streams[k].data_sender->Some_0)
            } else {
                streams[k] == self.streams[k]
            }
    }

    /// Handing out one more stream extends the list of those handed out.
    pub(crate) proof fn lemma_hands_out_one_more(
        self,
        keys: Seq<u32>,
        streams: Map<u32, StreamView>,
        handed: Seq<Stream>,
        key: u32,
        tx: mpsc::Sender<Vec<u8>>,
        rx: mpsc::Receiver<Vec<u8>>,
        user: Stream,
    )
        requires
            self.hands_out(keys, streams, handed),
            self.streams.contains_key(key),
            !keys.contains(key),
            user@ == streams[key].handed_out(rx),
            data_channel_ends(CHANNEL_SIZE, tx, rx),
        ensures
            self.hands_out(
                keys.push(key),
                streams.insert(key, streams[key].attached(tx)),
                handed.push(user),
            ),
    {
        let more = keys.push(key);
        let after = streams.insert(key, streams[key].attached(tx));
        assert(after.dom() =~= self.streams.dom());
        assert forall|i: int| 0 <= i < more.len() implies {
            &&& (#[trigger] handed.push(user)[i]).data_receiver is Some
            &&& handed.push(user)[i]@ == self.streams[more[i]].handed_out(
                handed.push(user)[i].data_receiver->Some_0,
            )
            &&& after[more[i]].data_sender is Some
            &&& data_channel_ends(
                CHANNEL_SIZE,
                after[more[i]].data_sender->Some_0,
                handed.push(user)[i].data_receiver->Some_0,
            )
        } by {
            if i < keys.len() {
                assert(handed.push(user)[i] == handed[i]);
                assert(more[i] == keys[i]);
                assert(keys.contains(keys[i]));
            } else {
                assert(handed.push(user)[i] == user);
                assert(user@.data_receiver == user.data_receiver);
            }
        }
        assert forall|k: u32| #[trigger] self.streams.contains_key(k) implies if more.contains(k) {
            &&& after[k].data_sender is Some
            &&& after[k] == self.streams[k].attached(after[k].data_sender->Some_0)
        } else {
            after[k] == self.streams[k]
        } by {
            assert(more[keys.len() as int] == key);
            if keys.contains(k) {
                let j = choose|j: int| 0 <= j < keys.len() && keys[j] == k;
                assert(more[j] == k);
            }
            if more.contains(k) && k != key {
                let j = choose|j: int| 0 <= j < more.len() && more[j] == k;
                assert(keys[j] == k);
            }
        }
    }

    /// The session has become `post` by taking on a subscriber with the given
    /// channel, who is handed each stream of the remote once, as `handed`.
    pub open spec fn subscribes(
        self,
        sender: mpsc::Sender<Stream>,
        post: SessionView,
        handed: Seq<Stream>,
    ) -> bool {
        &&& post == SessionView {
            remote_stream_sender: Some(sender),
            streams: post.streams,
            ..self
        }
        &&& exists|keys: Seq<u32>|
            {
                &&& keys.no_duplicates()
                &&& forall|k: u32| #[trigger] keys.contains(k) <==> self.remote_key(k)
                &&& #[trigger] self.hands_out(keys, post.streams, handed)
            }
    }
}

} // verus!
