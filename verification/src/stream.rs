//! Multiplexed streams.

use crate::bytes::{be_u32, split_u32, strings};
use crate::channel::share;
use crate::config::Config;
use crate::frame::{Frame, FrameView};
use crate::header::{Header, StreamId, ACK, SYN};
use crate::session::{Id, StreamCommand};
use futures::channel::mpsc;
use std::fmt;
use std::sync::Arc;
use vstd::prelude::*;

verus! {

/// The state of a Yamux stream.
#[derive(Copy, Clone, Debug, PartialEq, Eq, Structural)]
pub enum State {
    /// Open bidirectionally.
    Open,
    /// Open for incoming messages.
    SendClosed,
    /// Open for outgoing messages.
    RecvClosed,
    /// Closed (terminal state).
    Closed,
}

/// Indicate if a flag still needs to be set on an outbound header.
#[derive(Copy, Clone, Debug, PartialEq, Eq, Structural)]
pub enum Flag {
    /// No flag needs to be set.
    Unset,
    /// The stream was opened lazily, so set the initial SYN flag.
    Syn,
    /// The stream still needs acknowledgement, so set the ACK flag.
    Ack,
}

impl Flag {
    /// The header with this flag set on it.
    pub open spec fn on(self, header: Header) -> Header {
        match self {
            Flag::Unset => header,
            Flag::Syn => header.flagged(SYN),
            Flag::Ack => header.flagged(ACK),
        }
    }

    /// Sets this flag on a header.
    pub fn set_on(self, header: &mut Header)
        ensures
            *final(header) == self.on(*old(header)),
    {
        match self {
            Flag::Unset => (),
            Flag::Syn => header.syn(),
            Flag::Ack => header.ack(),
        }
    }
}

/// A multiplexed Yamux stream.
///
/// The session and the users of a stream each have a value of this type for
/// it. The session's value holds the sending end for received data, a user's
/// value the receiving end.
pub struct Stream {
    pub id: StreamId,
    pub conn: Id,
    pub config: Arc<Config>,
    pub pending: Option<Frame>,
    pub sender: mpsc::Sender<StreamCommand>,
    pub data_receiver: Option<mpsc::Receiver<Vec<u8>>>,
    pub data_sender: Option<mpsc::Sender<Vec<u8>>>,
    pub cache: Vec<u8>,
    pub flag: Flag,
}

/// The contents of a [`Stream`].
#[verifier::ext_equal]
pub struct StreamView {
    pub id: StreamId,
    pub conn: Id,
    pub config: Config,
    pub pending: Option<FrameView>,
    pub sender: mpsc::Sender<StreamCommand>,
    pub data_receiver: Option<mpsc::Receiver<Vec<u8>>>,
    pub data_sender: Option<mpsc::Sender<Vec<u8>>>,
    pub cache: Seq<u8>,
    pub flag: Flag,
}

impl View for Stream {
    type V = StreamView;

    open spec fn view(&self) -> StreamView {
        StreamView {
            id: self.id,
            conn: self.conn,
            config: *self.config,
            pending: match self.pending {
                Some(f) => Some(f@),
                None => None,
            },
            sender: self.sender,
            data_receiver: self.data_receiver,
            data_sender: self.data_sender,
            cache: self.cache@,
            flag: self.flag,
        }
    }
}

/// A stream as it is made: nothing pending, nothing cached, no flag to be set
/// and no data channel.
pub open spec fn fresh_stream(
    id: StreamId,
    conn: Id,
    config: Config,
    sender: mpsc::Sender<StreamCommand>,
) -> StreamView {
    StreamView {
        id,
        conn,
        config,
        pending: None,
        sender,
        data_receiver: None,
        data_sender: None,
        cache: Seq::empty(),
        flag: Flag::Unset,
    }
}

impl StreamView {
    /// A copy of the stream, without what is pending and without the
    /// receiving end for data.
    pub open spec fn copied(self) -> StreamView {
        StreamView { pending: None, data_receiver: None, ..self }
    }

    /// What the session keeps of a stream that it has handed to a user: data
    /// goes to the user from now on, and what was cached went along.
    pub open spec fn attached(self, data_sender: mpsc::Sender<Vec<u8>>) -> StreamView {
        StreamView { data_sender: Some(data_sender), cache: Seq::empty(), ..self }
    }

    /// What the session keeps of a stream once a data frame with the given
    /// length field and body has arrived. Without a user, the length and the
    /// body are added to the cache; with one, nothing stays in the cache.
    pub open spec fn fed(self, length: u32, body: Seq<u8>) -> StreamView {
        StreamView {
            cache: if self.data_sender is Some {
                Seq::empty()
            } else {
                self.cache + be_u32(length) + body
            },
            ..self
        }
    }

    /// What is put into the data channel of the stream when a data frame
    /// arrives: the cache, unless it is empty, then the length field and the
    /// body. Without a user, nothing.
    pub open spec fn deliveries(self, length: u32, body: Seq<u8>) -> Seq<Seq<u8>> {
        if self.data_sender is None {
            Seq::empty()
        } else if self.cache.len() == 0 {
            seq![be_u32(length), body]
        } else {
            seq![self.cache, be_u32(length), body]
        }
    }

    /// What a user is handed of a stream: a copy, with the receiving end for
    /// data.
    pub open spec fn handed_out(self, data_receiver: mpsc::Receiver<Vec<u8>>) -> StreamView {
        StreamView { data_receiver: Some(data_receiver), ..self.copied() }
    }
}

impl fmt::Debug for Stream {
    /// Writes both IDs, and whether something is pending.
    fn fmt(&self, f: &mut fmt::Formatter<'_>) -> fmt::Result {
        f.debug_struct("Stream")
            .field("id", &self.id.val())
            .field("connection", &self.conn.0)
            .field("pending", &self.pending.is_some())
            .finish()
    }
}

impl Stream {
    /// Create a new stream.
    pub fn new(
        id: StreamId,
        conn: Id,
        config: Arc<Config>,
        sender: mpsc::Sender<StreamCommand>,
    ) -> (s: Self)
        ensures
            s@ == fresh_stream(id, conn, *config, sender),
    {
        Stream {
            id,
            conn,
            config,
            pending: None,
            flag: Flag::Unset,
            sender,
            cache: Vec::new(),
            data_receiver: None,
            data_sender: None,
        }
    }

    /// Get this stream's identifier.
    pub fn id(&self) -> (id: StreamId)
        ensures
            id == self.id,
    {
        self.id
    }

    /// Set the flag that should be set on the next outbound frame header.
    pub fn set_flag(&mut self, flag: Flag)
        ensures
            *final(self) == (Stream { flag, ..*old(self) }),
    {
        self.flag = flag
    }

    /// Copies this stream. What is pending and the receiving end for data are
    /// not copied.
    pub fn clone(&self) -> (s: Self)
        ensures
            s@ == self@.copied(),
    {
        let cache = self.cache.clone();
        assert(cache@ =~= self.cache@);
        Stream {
            id: self.id,
            conn: self.conn,
            config: share(&self.config),
            sender: self.sender.clone(),
            cache,
            data_receiver: None,
            data_sender: match &self.data_sender {
                Some(s) => Some(s.clone()),
                None => None,
            },
            pending: None,
            flag: self.flag,
        }
    }

    /// Set ACK or SYN flag if necessary. The flag is set once: afterwards no
    /// flag needs to be set.
    pub fn add_flag(&mut self, header: &mut Header)
        ensures
            *final(header) == old(self).flag.on(*old(header)),
            *final(self) == (Stream { flag: Flag::Unset, ..*old(self) }),
    {
        self.flag.set_on(header);
        self.flag = Flag::Unset;
    }

    /// Hands this stream to a user over the given data channel. What was
    /// cached goes to the user; data that arrives later goes into the
    /// channel.
    pub fn hand_out(
        &mut self,
        data_sender: mpsc::Sender<Vec<u8>>,
        data_receiver: mpsc::Receiver<Vec<u8>>,
    ) -> (user: Stream)
        ensures
            user@ == old(self)@.handed_out(data_receiver),
            final(self)@ == old(self)@.attached(data_sender),
    {
        let mut user = self.clone();
        self.data_sender = Some(data_sender);
        self.cache.clear();
        user.data_receiver = Some(data_receiver);
        user
    }

    /// Takes in a data frame with the given length field and body. Returns
    /// what is to be put into the data channel of this stream, in order.
    pub fn feed(&mut self, length: u32, body: Vec<u8>) -> (deliveries: Vec<Vec<u8>>)
        ensures
            strings(deliveries@) == old(self)@.deliveries(length, body@),
            final(self)@ == old(self)@.fed(length, body@),
    {
        let l = split_u32(length);
        let mut prefix: Vec<u8> = vec![l.0, l.1, l.2, l.3];
        assert(prefix@ =~= be_u32(length));
        let mut body = body;
        let mut deliveries: Vec<Vec<u8>> = Vec::new();
        if self.data_sender.is_some() {
            let mut cache: Vec<u8> = Vec::new();
            cache.append(&mut self.cache);
            if !cache.is_empty() {
                deliveries.push(cache);
            }
            deliveries.push(prefix);
            deliveries.push(body);
        } else {
            self.cache.append(&mut prefix);
            self.cache.append(&mut body);
        }
        assert(strings(deliveries@) =~= old(self)@.deliveries(length, body@));
        deliveries
    }
}

} // verus!
