//! The receiving half of a session: how it answers frames and requests.

use crate::bytes::strings;
use crate::channel::{data_channel, share, stream_channel, stream_channel_ends, CHANNEL_SIZE};
use crate::config::{Config, DEFAULT_CREDIT};
use crate::frame::Frame;
use crate::header::{Flags, Header, StreamId, Tag, ACK, CONNECTION_ID, FIN, RST, SYN};
use crate::model::{commands, new_session, optional, SessionView, Verdict};
use crate::session::{Action, ControlCommand, Id, Mode, Shutdown, StreamCommand};
use crate::stream::{Flag, Stream};
use futures::channel::{mpsc, oneshot};
use std::collections::HashMap;
use std::sync::Arc;
use vstd::prelude::*;
use vstd::std_specs::iter::IteratorSpec;

verus! {

broadcast use vstd::std_specs::hash::group_hash_axioms;

/// The receiving half of a session.
pub struct SecioSessionReader {
    pub id: Id,
    pub mode: Mode,
    pub config: Arc<Config>,
    pub stream_sender: mpsc::Sender<StreamCommand>,
    pub remote_stream_sender: Option<mpsc::Sender<Stream>>,
    pub next_id: u32,
    pub streams: HashMap<u32, Stream>,
    pub garbage: Vec<StreamId>,
    pub shutdown: Shutdown,
    pub is_closed: bool,
}

/// What is to be done once a frame has been handled.
pub struct FrameEffects {
    /// The stream that the remote has opened with the frame.
    pub inbound: Option<Stream>,
    /// What is to be put into the channel of the subscriber.
    pub announced: Option<Stream>,
    /// What is to be put into the data channel of the stream that the frame
    /// is for, in order.
    pub deliveries: Vec<Vec<u8>>,
    /// What is to be put into the command channel of the sending half.
    pub command: Option<StreamCommand>,
}

/// What the receiving half of a session waits for.
pub enum SessionEvent {
    /// A frame has been received, or reading one has failed.
    Received(Result<Frame, String>),
    /// The control channel has given a command, or has been closed.
    Control(Option<ControlCommand>),
}

/// What is to be done once an event has been handled.
pub enum SessionEffects {
    /// Nothing.
    Idle,
    /// A frame has been handled.
    Handled(FrameEffects),
    /// A stream has been opened: the command goes into the command channel of
    /// the sending half, then the stream to whoever asked for it.
    Opened {
        reply_to: oneshot::Sender<Result<Stream, String>>,
        reply: Result<Stream, String>,
        command: Option<StreamCommand>,
    },
    /// A stream has been looked up: the reply goes to whoever asked for it.
    Found { reply_to: oneshot::Sender<Result<Stream, String>>, reply: Result<Stream, String> },
    /// A subscriber has been taken on: the receiving end goes to whoever asked
    /// for it, then the streams go into the channel, in order.
    Subscribed {
        reply_to: oneshot::Sender<Result<mpsc::Receiver<Stream>, String>>,
        reply: Result<mpsc::Receiver<Stream>, String>,
        streams: Vec<Stream>,
    },
}

/// Whether handling an event needs a further stream ID.
pub open spec fn asks_to_open(event: SessionEvent) -> bool {
    event matches SessionEvent::Control(Some(ControlCommand::OpenStream(_)))
}

/// The session `pre` has become `post` by handling an event, with the given
/// consequences.
pub open spec fn handles(
    pre: SessionView,
    event: SessionEvent,
    post: SessionView,
    effects: SessionEffects,
) -> bool {
    match event {
        SessionEvent::Received(Ok(frame)) => {
            &&& effects matches SessionEffects::Handled(fx)
            &&& pre.frame_effect(
                frame@,
                post,
                optional(fx.inbound),
                optional(fx.announced),
                strings(fx.deliveries@),
                fx.command,
            )
        },
        SessionEvent::Control(Some(ControlCommand::OpenStream(tx))) => {
            &&& effects matches SessionEffects::Opened { reply_to, reply, command }
            &&& reply_to == tx
            &&& reply matches Ok(stream)
            &&& pre.opens(post, stream@, command)
        },
        SessionEvent::Control(Some(ControlCommand::GetStream((key, tx)))) => {
            &&& effects matches SessionEffects::Found { reply_to, reply }
            &&& reply_to == tx
            &&& pre.gives(key, post, reply)
        },
        SessionEvent::Control(Some(ControlCommand::SubscribeStream(tx))) => {
            &&& effects matches SessionEffects::Subscribed { reply_to, reply, streams }
            &&& reply_to == tx
            &&& reply matches Ok(receiver)
            &&& post.remote_stream_sender is Some
            &&& stream_channel_ends(CHANNEL_SIZE, post.remote_stream_sender->Some_0, receiver)
            &&& pre.subscribes(post.remote_stream_sender->Some_0, post, streams@)
        },
        SessionEvent::Control(Some(ControlCommand::CloseConnection(_))) => {
            &&& effects is Idle
            &&& post == pre.closing()
        },
        SessionEvent::Received(Err(_)) | SessionEvent::Control(None) => {
            &&& effects is Idle
            &&& post == pre
        },
    }
}

impl View for SecioSessionReader {
    type V = SessionView;

    open spec fn view(&self) -> SessionView {
        SessionView {
            id: self.id,
            mode: self.mode,
            config: *self.config,
            stream_sender: self.stream_sender,
            remote_stream_sender: self.remote_stream_sender,
            next_id: self.next_id,
            streams: self.streams@.map_values(|s: Stream| s@),
            garbage: self.garbage@,
            shutdown: self.shutdown,
            is_closed: self.is_closed,
        }
    }
}

/// A sequence with an element added contains that element and what it
/// contained before.
proof fn lemma_contains_push(s: Seq<u32>, a: u32)
    ensures
        forall|k: u32| #[trigger] s.push(a).contains(k) <==> s.contains(k) || k == a,
{
    assert forall|k: u32| #[trigger] s.push(a).contains(k) <==> s.contains(k) || k == a by {
        if s.contains(k) {
            let i = choose|i: int| 0 <= i < s.len() && s[i] == k;
            assert(s.push(a)[i] == k);
        }
        assert(s.push(a)[s.len() as int] == a);
    }
}

impl SecioSessionReader {
    /// Create the receiving half of a new session, with a random ID.
    pub fn new(cfg: Config, mode: Mode, stream_sender: mpsc::Sender<StreamCommand>) -> (r: Self)
        ensures
            r@ == new_session(r.id, cfg, mode, stream_sender),
            r@.wf(),
    {
        Self::with_id(Id::random(), cfg, mode, stream_sender)
    }

    /// Create the receiving half of a new session with the given ID.
    pub fn with_id(
        id: Id,
        cfg: Config,
        mode: Mode,
        stream_sender: mpsc::Sender<StreamCommand>,
    ) -> (r: Self)
        ensures
            r@ == new_session(id, cfg, mode, stream_sender),
            r@.wf(),
    {
        let r = SecioSessionReader {
            id,
            mode,
            config: Arc::new(cfg),
            streams: HashMap::new(),
            next_id: match mode {
                Mode::Client => 1,
                Mode::Server => 2,
            },
            garbage: Vec::new(),
            shutdown: Shutdown::NotStarted,
            is_closed: false,
            remote_stream_sender: None,
            stream_sender,
        };
        assert(r@.streams =~= Map::empty());
        r
    }

    /// Assign the next stream ID.
    pub fn next_stream_id(&mut self) -> (res: Result<StreamId, String>)
        requires
            old(self)@.can_open(),
        ensures
            res == Ok::<StreamId, String>(StreamId(old(self).next_id)),
            final(self)@ == (SessionView {
                next_id: (old(self).next_id + 2) as u32,
                ..old(self)@
            }),
    {
        let proposed = StreamId::new(self.next_id);
        self.next_id = self.next_id + 2;
        Ok(proposed)
    }

    /// Whether a further stream can be opened.
    pub fn can_open_stream(&self) -> (b: bool)
        ensures
            b == self@.can_open(),
    {
        let id = StreamId::new(self.next_id);
        let local = match self.mode {
            Mode::Client => id.is_client(),
            Mode::Server => id.is_server(),
        };
        local && self.next_id <= u32::MAX - 2
    }

    /// Check if the given stream ID is valid w.r.t. the provided tag and our
    /// connection mode.
    pub fn is_valid_remote_id(&self, id: StreamId, tag: Tag) -> (b: bool)
        ensures
            b == self@.valid_remote_id(id, tag),
    {
        if tag == Tag::Ping || tag == Tag::GoAway {
            return id.is_session();
        }
        match self.mode {
            Mode::Client => id.is_server(),
            Mode::Server => id.is_client(),
        }
    }

    /// Adds a stream, or replaces it.
    fn put(&mut self, key: u32, stream: Stream)
        ensures
            final(self)@ == old(self)@.with_stream(key, stream@),
    {
        self.streams.insert(key, stream);
        assert(self@.streams =~= old(self)@.streams.insert(key, stream@));
    }

    /// Takes a stream out.
    fn take(&mut self, key: u32) -> (stream: Option<Stream>)
        ensures
            match stream {
                Some(s) => {
                    &&& old(self)@.streams.contains_key(key)
                    &&& s@ == old(self)@.streams[key]
                },
                None => !old(self)@.streams.contains_key(key),
            },
            final(self)@ == (SessionView {
                streams: old(self)@.streams.remove(key),
                ..old(self)@
            }),
    {
        let stream = self.streams.remove(&key);
        assert(self@.streams =~= old(self)@.streams.remove(key));
        stream
    }

    /// Whether there is a stream under the given key.
    fn has(&self, key: u32) -> (b: bool)
        ensures
            b == self@.streams.contains_key(key),
    {
        self.streams.contains_key(&key)
    }

    /// Whether a further stream of the remote is refused.
    fn is_full(&self) -> (b: bool)
        ensures
            b == self@.full(),
    {
        assert(self@.streams.dom() =~= self.streams@.dom());
        self.streams.len() == self.config.max_num_streams
    }

    /// Opens a new stream to the remote. Besides the stream, returns the
    /// command that announces it, unless streams are opened lazily.
    pub fn open_secio_stream(&mut self) -> (res: Result<(Stream, Option<StreamCommand>), String>)
        requires
            old(self)@.can_open(),
        ensures
            res matches Ok((stream, command)) && old(self)@.opens(final(self)@, stream@, command),
            old(self)@.wf() ==> final(self)@.wf(),
    {
        let (data_sender, data_receiver) = data_channel(CHANNEL_SIZE);
        self.open_with(data_sender, data_receiver)
    }

    /// Opens a new stream to the remote, with the given data channel.
    pub fn open_with(
        &mut self,
        data_sender: mpsc::Sender<Vec<u8>>,
        data_receiver: mpsc::Receiver<Vec<u8>>,
    ) -> (res: Result<(Stream, Option<StreamCommand>), String>)
        requires
            old(self)@.can_open(),
        ensures
            res matches Ok((stream, command)) && {
                &&& final(self)@ == old(self)@.after_open(data_sender)
                &&& stream@ == old(self)@.opened().handed_out(data_receiver)
                &&& commands(command, old(self)@.announcement())
            },
            old(self)@.wf() ==> final(self)@.wf(),
    {
        let id = match self.next_stream_id() {
            Ok(id) => id,
            Err(e) => return Err(e),
        };
        let mut stream = Stream::new(id, self.id, share(&self.config), self.stream_sender.clone());
        if self.config.lazy_open {
            stream.set_flag(Flag::Syn);
        }
        let command = if !self.config.lazy_open {
            let mut frame = Frame::window_update(stream.id(), stream.config.receive_window);
            frame.header.syn();
            Some(StreamCommand::SendFrame(frame))
        } else {
            None
        };
        let user = stream.hand_out(data_sender, data_receiver);
        self.put(id.val(), stream);
        Ok((user, command))
    }

    /// Hands out a stream that the remote has opened. What has been cached of
    /// it goes along; data that arrives later goes into a new data channel.
    pub fn get_stream(&mut self, stream_id: u32) -> (res: Result<Stream, String>)
        ensures
            old(self)@.gives(stream_id, final(self)@, res),
            old(self)@.wf() ==> final(self)@.wf(),
    {
        if !self.is_valid_remote_id(StreamId::new(stream_id), Tag::WindowUpdate) {
            return Err("not remote stream id".to_owned());
        }
        if !self.has(stream_id) {
            return Err("not exist stream".to_owned());
        }
        let (data_sender, data_receiver) = data_channel(CHANNEL_SIZE);
        Ok(self.hand_out(stream_id, data_sender, data_receiver))
    }

    /// Hands out the stream under the given key over the given data channel.
    pub fn hand_out(
        &mut self,
        key: u32,
        data_sender: mpsc::Sender<Vec<u8>>,
        data_receiver: mpsc::Receiver<Vec<u8>>,
    ) -> (user: Stream)
        requires
            old(self)@.streams.contains_key(key),
        ensures
            user@ == old(self)@.streams[key].handed_out(data_receiver),
            final(self)@ == old(self)@.with_stream(
                key,
                old(self)@.streams[key].attached(data_sender),
            ),
            old(self)@.wf() ==> final(self)@.wf(),
    {
        let mut stream = self.take(key).unwrap();
        let user = stream.hand_out(data_sender, data_receiver);
        self.put(key, stream);
        assert(self@.streams =~= old(self)@.streams.insert(key, stream@));
        user
    }

    /// Keeps a stream that the remote has opened, and returns a copy of it.
    /// Where a data channel is given, the stream is also handed out over it.
    pub fn accept(
        &mut self,
        id: StreamId,
        channel: Option<(mpsc::Sender<Vec<u8>>, mpsc::Receiver<Vec<u8>>)>,
    ) -> (accepted: (Stream, Option<Stream>))
        ensures
            old(self)@.accepts(
                id,
                channel,
                final(self)@,
                accepted.0@,
                optional(accepted.1),
            ),
            old(self)@.wf() && old(self)@.mode.remote(id) ==> final(self)@.wf(),
    {
        let mut stream = Stream::new(id, self.id, share(&self.config), self.stream_sender.clone());
        stream.set_flag(Flag::Ack);
        let announced = match channel {
            Some((data_sender, data_receiver)) => Some(
                stream.hand_out(data_sender, data_receiver),
            ),
            None => None,
        };
        let copy = stream.clone();
        self.put(id.val(), stream);
        (copy, announced)
    }

    /// The action that resets a stream.
    fn reset(id: StreamId) -> (action: Action)
        ensures
            action@ == Verdict::Reset.action(id, None),
    {
        let mut header = Header::data(id, 0);
        header.rst();
        Action::Reset(Frame::new(header))
    }

    /// Handles a window update. Besides the action, returns the stream that
    /// is to be put into the channel of the subscriber.
    pub fn on_window_update_frame(&mut self, frame: Frame) -> (res: (Action, Option<Stream>))
        ensures
            ({
                let verdict = old(self)@.judge_window_update(frame.header);
                let inbound = if verdict is Accept {
                    Some(res.0@->New_0)
                } else {
                    None
                };
                &&& res.0@ == verdict.action(frame.header.stream_id, inbound)
                &&& old(self)@.window_update_effect(
                    frame.header,
                    final(self)@,
                    inbound,
                    optional(res.1),
                )
            }),
            old(self)@.wf() && frame.header.tag != Tag::Ping && frame.header.tag
                != Tag::GoAway ==> final(self)@.wf(),
    {
        let stream_id = frame.header().stream_id;
        if frame.header().flags.contains(Flags(RST)) {
            return (Action::Nothing, None);
        }
        let is_finish = frame.header().flags.contains(Flags(FIN));
        if frame.header().flags.contains(Flags(SYN)) {
            if !self.is_valid_remote_id(stream_id, frame.header.tag) {
                return (Action::Terminate(Frame::protocol_error()), None);
            }
            if self.has(stream_id.val()) {
                return (Action::Terminate(Frame::protocol_error()), None);
            }
            if self.is_full() {
                return (Action::Terminate(Frame::protocol_error()), None);
            }
            let channel = if self.remote_stream_sender.is_some() {
                Some(data_channel(CHANNEL_SIZE))
            } else {
                None
            };
            let (stream, announced) = self.accept(stream_id, channel);
            return (Action::New(stream), announced);
        }
        if !self.has(stream_id.val()) && !is_finish {
            return (Self::reset(stream_id), None);
        }
        (Action::Nothing, None)
    }

    /// Handles a ping.
    pub fn on_ping_frame(&mut self, frame: Frame) -> (action: Action)
        ensures
            action@ == old(self)@.ping_action(frame.header),
            final(self)@ == old(self)@,
    {
        let stream_id = frame.header().stream_id;
        if frame.header().flags.contains(Flags(ACK)) {
            return Action::Nothing;
        }
        if stream_id == StreamId(CONNECTION_ID) || self.has(stream_id.val()) {
            let mut hdr = Header::ping(frame.header().nonce());
            hdr.ack();
            return Action::Ping(Frame::new(hdr));
        }
        Self::reset(stream_id)
    }

    /// Handles a data frame. Besides the action, returns what is to be put
    /// into the data channel of the stream, in order.
    pub fn on_data(&mut self, frame: Frame) -> (res: (Action, Vec<Vec<u8>>))
        ensures
            ({
                let verdict = old(self)@.judge_data(frame@);
                let inbound = if verdict is Accept {
                    Some(res.0@->New_0)
                } else {
                    None
                };
                &&& res.0@ == verdict.action(frame.header.stream_id, inbound)
                &&& old(self)@.data_effect(frame@, final(self)@, inbound, strings(res.1@))
            }),
            old(self)@.wf() ==> final(self)@.wf(),
    {
        let stream_id = frame.header().stream_id;
        let none: Vec<Vec<u8>> = Vec::new();
        assert(strings(none@) =~= Seq::<Seq<u8>>::empty());
        if frame.header().flags.contains(Flags(RST)) {
            return (Action::Nothing, none);
        }
        let is_finish = frame.header().flags.contains(Flags(FIN));
        if frame.header().flags.contains(Flags(SYN)) {
            if !self.is_valid_remote_id(stream_id, Tag::Data) {
                return (Action::Terminate(Frame::protocol_error()), none);
            }
            if frame.body().len() > DEFAULT_CREDIT as usize {
                return (Action::Terminate(Frame::protocol_error()), none);
            }
            if self.has(stream_id.val()) {
                return (Action::Terminate(Frame::protocol_error()), none);
            }
            if self.is_full() {
                return (Action::Terminate(Frame::internal_error()), none);
            }
            let (stream, _) = self.accept(stream_id, None);
            return (Action::New(stream), none);
        }
        match self.take(stream_id.val()) {
            Some(mut stream) => {
                let length = frame.header.length;
                let deliveries = stream.feed(length, frame.into_body());
                self.put(stream_id.val(), stream);
                assert(self@.streams =~= old(self)@.streams.insert(stream_id.0, stream@));
                (Action::Nothing, deliveries)
            },
            None => {
                assert(self@.streams =~= old(self)@.streams);
                if !is_finish {
                    (Self::reset(stream_id), none)
                } else {
                    (Action::Nothing, none)
                }
            },
        }
    }

    /// Handles a frame. Returns what is to be sent, put into channels and
    /// told as a consequence.
    pub fn on_frame(&mut self, frame: Frame) -> (effects: FrameEffects)
        ensures
            old(self)@.frame_effect(
                frame@,
                final(self)@,
                optional(effects.inbound),
                optional(effects.announced),
                strings(effects.deliveries@),
                effects.command,
            ),
            old(self)@.wf() ==> final(self)@.wf(),
    {
        let none: Vec<Vec<u8>> = Vec::new();
        assert(strings(none@) =~= Seq::<Seq<u8>>::empty());
        let (action, announced, deliveries) = match frame.header.tag {
            Tag::Ping => (self.on_ping_frame(frame), None, none),
            Tag::GoAway => (Action::Nothing, None, none),
            Tag::WindowUpdate => {
                let (action, announced) = self.on_window_update_frame(frame);
                (action, announced, none)
            },
            Tag::Data => {
                let (action, deliveries) = self.on_data(frame);
                (action, None, deliveries)
            },
        };
        match action {
            Action::New(stream) => FrameEffects {
                inbound: Some(stream),
                announced,
                deliveries,
                command: None,
            },
            Action::Update(f) | Action::Ping(f) | Action::Reset(f) | Action::Terminate(f) =>
            FrameEffects {
                inbound: None,
                announced,
                deliveries,
                command: Some(StreamCommand::SendFrame(f)),
            },
            Action::Nothing => FrameEffects {
                inbound: None,
                announced,
                deliveries,
                command: None,
            },
        }
    }

    /// Takes on a subscriber: streams that the remote opens with a window
    /// update are announced in a new channel from now on; those that it opens
    /// with a data frame are not. Returns the receiving end of that channel,
    /// and the streams that are to be put into it at once.
    pub fn subscribe_stream(&mut self) -> (res: (mpsc::Receiver<Stream>, Vec<Stream>))
        ensures
            final(self).remote_stream_sender is Some,
            stream_channel_ends(CHANNEL_SIZE, final(self).remote_stream_sender->Some_0, res.0),
            old(self)@.subscribes(
                final(self).remote_stream_sender->Some_0,
                final(self)@,
                res.1@,
            ),
            old(self)@.wf() ==> final(self)@.wf(),
    {
        let (stream_sender, stream_receiver) = stream_channel(CHANNEL_SIZE);
        let handed = self.subscribe_with(stream_sender);
        (stream_receiver, handed)
    }

    /// Takes on a subscriber with the given channel. Returns the streams that
    /// are to be put into it at once.
    pub fn subscribe_with(&mut self, stream_sender: mpsc::Sender<Stream>) -> (handed: Vec<Stream>)
        ensures
            old(self)@.subscribes(stream_sender, final(self)@, handed@),
            old(self)@.wf() ==> final(self)@.wf(),
    {
        self.remote_stream_sender = Some(stream_sender);
        let keys = self.keys();
        let ghost pre = self@;
        let mut handed: Vec<Stream> = Vec::new();
        let mut i: usize = 0;
        let ghost mut chosen: Seq<u32> = Seq::empty();
        assert(pre.hands_out(chosen, self@.streams, handed@));
        while i < keys.len()
            invariant
                i <= keys.len(),
                keys@.no_duplicates(),
                forall|k: u32| #[trigger] keys@.contains(k) <==> pre.streams.contains_key(k),
                self@ == (SessionView { streams: self@.streams, ..pre }),
                pre.hands_out(chosen, self@.streams, handed@),
                chosen.no_duplicates(),
                forall|k: u32| #[trigger]
                    chosen.contains(k) <==> keys@.take(i as int).contains(k) && pre.remote_key(k),
                pre.wf() ==> self@.wf(),
            decreases keys.len() - i,
        {
            let key: u32 = keys[i];
            let id = StreamId::new(key);
            let remote = match self.mode {
                Mode::Client => id.is_server(),
                Mode::Server => id.is_client(),
            };
            assert(keys@.contains(key));
            assert(keys@.take(i + 1) =~= keys@.take(i as int).push(key));
            assert(!keys@.take(i as int).contains(key));
            if remote {
                let ghost before = self@.streams;
                let ghost so_far = handed@;
                let (data_sender, data_receiver) = data_channel(CHANNEL_SIZE);
                let user = self.hand_out(key, data_sender, data_receiver);
                handed.push(user);
                proof {
                    lemma_contains_push(chosen, key);
                    pre.lemma_hands_out_one_more(
                        chosen,
                        before,
                        so_far,
                        key,
                        data_sender,
                        data_receiver,
                        user,
                    );
                    chosen = chosen.push(key);
                }
            }
            proof {
                lemma_contains_push(keys@.take(i as int), key);
            }
            i += 1;
        }
        assert(keys@.take(i as int) =~= keys@);
        assert(old(self)@.hands_out(chosen, self@.streams, handed@));
        assert forall|k: u32| #[trigger] chosen.contains(k) <==> old(self)@.remote_key(k) by {
            assert(pre.remote_key(k) <==> old(self)@.remote_key(k));
        }
        handed
    }

    /// The keys of all streams, in the order in which the map is walked.
    fn keys(&self) -> (keys: Vec<u32>)
        ensures
            keys@.no_duplicates(),
            forall|k: u32| #[trigger] keys@.contains(k) <==> self@.streams.contains_key(k),
    {
        let ghost walk = vstd::std_specs::hash::spec_keys_iter(&self.streams).remaining();
        let mut keys: Vec<u32> = Vec::new();
        for key in iter: self.streams.keys()
            invariant
                iter.seq() == walk,
                keys@.len() == iter.index(),
                forall|j: int| 0 <= j < keys@.len() ==> keys@[j] == *walk[j],
        {
            keys.push(*key);
        }
        assert(keys@ =~= walk.unref());
        assert forall|k: u32| #[trigger] keys@.contains(k) <==> self@.streams.contains_key(k) by {
            assert(keys@.to_set().contains(k) <==> keys@.contains(k));
        }
        keys
    }

    /// Starts to shut down, unless a shutdown has been started before.
    fn close(&mut self)
        ensures
            final(self)@ == old(self)@.closing(),
    {
        match self.shutdown {
            Shutdown::NotStarted => {
                self.shutdown = Shutdown::InProgress;
            },
            _ => (),
        }
    }

    /// Handles what the session was waiting for. A command to close the
    /// connection starts the shutdown. A frame that could not be read, and the
    /// end of the control channel, have no consequence.
    pub fn on_event(&mut self, event: SessionEvent) -> (effects: SessionEffects)
        requires
            asks_to_open(event) ==> old(self)@.can_open(),
        ensures
            handles(old(self)@, event, final(self)@, effects),
            old(self)@.wf() ==> final(self)@.wf(),
    {
        match event {
            SessionEvent::Received(Ok(frame)) => SessionEffects::Handled(self.on_frame(frame)),
            SessionEvent::Received(Err(_)) => SessionEffects::Idle,
            SessionEvent::Control(Some(ControlCommand::OpenStream(reply_to))) => {
                match self.open_secio_stream() {
                    Ok((stream, command)) => SessionEffects::Opened {
                        reply_to,
                        reply: Ok(stream),
                        command,
                    },
                    Err(e) => SessionEffects::Opened { reply_to, reply: Err(e), command: None },
                }
            },
            SessionEvent::Control(Some(ControlCommand::GetStream((stream_id, reply_to)))) => {
                let reply = self.get_stream(stream_id);
                SessionEffects::Found { reply_to, reply }
            },
            SessionEvent::Control(Some(ControlCommand::SubscribeStream(reply_to))) => {
                let (receiver, streams) = self.subscribe_stream();
                SessionEffects::Subscribed { reply_to, reply: Ok(receiver), streams }
            },
            SessionEvent::Control(Some(ControlCommand::CloseConnection(_))) => {
                self.close();
                SessionEffects::Idle
            },
            SessionEvent::Control(None) => SessionEffects::Idle,
        }
    }
}

} // verus!
