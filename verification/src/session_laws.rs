//! Laws of the operations of a session, in terms of what its parts hold.

use crate::channel::data_channel_ends;
use crate::config::Config;
use crate::header::{Header, StreamId, Tag};
use crate::model::{commands, optional};
use crate::reader::SecioSessionReader;
use crate::session::{Id, Mode, StreamCommand};
use crate::stream::{Flag, Stream};
use crate::wire_laws::is_header;
use futures::channel::mpsc;
use vstd::prelude::*;

verus! {

/// Whether a header has the SYN flag.
pub open spec fn syn(h: Header) -> bool {
    h.flags.0 % 2 == 1
}

/// Whether a header has the ACK flag.
pub open spec fn ack(h: Header) -> bool {
    h.flags.0 / 2 % 2 == 1
}

/// Whether a header has the FIN flag.
pub open spec fn fin(h: Header) -> bool {
    h.flags.0 / 4 % 2 == 1
}

/// Whether a header has the RST flag.
pub open spec fn rst(h: Header) -> bool {
    h.flags.0 / 8 % 2 == 1
}

/// Whether an ID belongs to the other end of a session: even IDs are the
/// server's.
pub open spec fn foreign(mode: Mode, id: u32) -> bool {
    match mode {
        Mode::Client => id % 2 == 0,
        Mode::Server => id % 2 == 1,
    }
}

/// Two values for a stream that agree in all but the data channel, what is
/// pending and what is cached.
pub open spec fn same_stream(a: Stream, b: Stream) -> bool {
    &&& a.id == b.id
    &&& a.conn == b.conn
    &&& *a.config == *b.config
    &&& a.sender == b.sender
    &&& a.flag == b.flag
}

/// Two values for a stream that agree in everything.
pub open spec fn unchanged_stream(a: Stream, b: Stream) -> bool {
    &&& same_stream(a, b)
    &&& a.data_sender == b.data_sender
    &&& a.data_receiver == b.data_receiver
    &&& a.cache@ == b.cache@
    &&& match (a.pending, b.pending) {
        (None, None) => true,
        (Some(f), Some(g)) => f.header == g.header && f.body@ == g.body@,
        _ => false,
    }
}

/// A stream of a session that has just been made: it has the ID given,
/// belongs to the session, and nothing is cached or pending.
pub open spec fn made_for(s: Stream, r: SecioSessionReader, id: u32, flag: Flag) -> bool {
    &&& s.id.0 == id
    &&& s.conn == r.id
    &&& *s.config == *r.config
    &&& s.sender == r.stream_sender
    &&& s.flag == flag
    &&& s.cache@.len() == 0
    &&& s.pending is None
}

/// Two sessions that agree in all but their streams, the subscriber, the next
/// ID and the shutdown.
pub open spec fn same_session(a: SecioSessionReader, b: SecioSessionReader) -> bool {
    &&& a.id == b.id
    &&& a.mode == b.mode
    &&& *a.config == *b.config
    &&& a.stream_sender == b.stream_sender
    &&& a.garbage@ == b.garbage@
    &&& a.is_closed == b.is_closed
}

/// The streams of two sessions agree, but for the one under `key`.
pub open spec fn other_streams_unchanged(
    a: SecioSessionReader,
    b: SecioSessionReader,
    key: u32,
) -> bool {
    forall|k: u32|
        k != key ==> {
            &&& #[trigger] a.streams@.contains_key(k) <==> b.streams@.contains_key(k)
            &&& a.streams@.contains_key(k) ==> unchanged_stream(a.streams@[k], b.streams@[k])
        }
}

/// All streams of two sessions agree.
pub open spec fn streams_unchanged(a: SecioSessionReader, b: SecioSessionReader) -> bool {
    forall|k: u32|
        {
            &&& #[trigger] a.streams@.contains_key(k) <==> b.streams@.contains_key(k)
            &&& a.streams@.contains_key(k) ==> unchanged_stream(a.streams@[k], b.streams@[k])
        }
}

/// Two sessions agree in everything but their streams.
pub open spec fn apart_from_streams(a: SecioSessionReader, b: SecioSessionReader) -> bool {
    &&& same_session(a, b)
    &&& a.remote_stream_sender == b.remote_stream_sender
    &&& a.next_id == b.next_id
    &&& a.shutdown == b.shutdown
}

/// Two sessions agree in everything.
pub open spec fn unchanged(a: SecioSessionReader, b: SecioSessionReader) -> bool {
    apart_from_streams(a, b) && streams_unchanged(a, b)
}

/// The streams of a session, as its view shows them.
pub(crate) proof fn lemma_streams(r: SecioSessionReader)
    ensures
        forall|k: u32| #[trigger]
            r.streams@.contains_key(k) ==> r@.streams[k] == r.streams@[k]@,
        forall|k: u32|
            #![trigger r@.streams.contains_key(k)]
            #![trigger r.streams@.contains_key(k)]
            r@.streams.contains_key(k) <==> r.streams@.contains_key(k),
        r@.streams.len() == r.streams@.len(),
{
    assert(r@.streams.dom() =~= r.streams@.dom());
}

/// Streams with the same contents agree in everything.
pub(crate) proof fn lemma_same_view(a: Stream, b: Stream)
    requires
        a@ == b@,
    ensures
        unchanged_stream(a, b),
{
    let x = a@;
    let y = b@;
    assert(x.id == a.id && y.id == b.id);
    assert(x.cache == a.cache@ && y.cache == b.cache@);
    assert(x.pending == y.pending);
    if let Some(f) = a.pending {
        assert(x.pending == Some(f@));
        if let Some(g) = b.pending {
            assert(f@.header == f.header && g@.header == g.header);
            assert(f@.body == f.body@ && g@.body == g.body@);
        }
    }
}

/// Sessions whose streams have the same contents agree in their streams.
pub(crate) proof fn lemma_same_streams(a: SecioSessionReader, b: SecioSessionReader)
    requires
        a@.streams == b@.streams,
    ensures
        streams_unchanged(a, b),
{
    lemma_streams(a);
    lemma_streams(b);
    assert forall|k: u32|
        {
            &&& #[trigger] a.streams@.contains_key(k) <==> b.streams@.contains_key(k)
            &&& a.streams@.contains_key(k) ==> unchanged_stream(a.streams@[k], b.streams@[k])
        } by {
        assert(a@.streams.contains_key(k) <==> b.streams@.contains_key(k));
        if a.streams@.contains_key(k) {
            assert(a@.streams[k] == b@.streams[k]);
            lemma_same_view(a.streams@[k], b.streams@[k]);
        }
    }
}

/// Sessions with the same contents agree in everything.
pub(crate) proof fn lemma_same_contents(a: SecioSessionReader, b: SecioSessionReader)
    requires
        a@ == b@,
    ensures
        unchanged(a, b),
{
    lemma_parts(a);
    lemma_parts(b);
    lemma_same_streams(a, b);
}

/// The parts of a session but its streams, as its view shows them.
pub(crate) proof fn lemma_parts(r: SecioSessionReader)
    ensures
        r@.id == r.id,
        r@.mode == r.mode,
        r@.config == *r.config,
        r@.stream_sender == r.stream_sender,
        r@.remote_stream_sender == r.remote_stream_sender,
        r@.next_id == r.next_id,
        r@.garbage == r.garbage@,
        r@.shutdown == r.shutdown,
        r@.is_closed == r.is_closed,
{
}

/// Where one stream has been put in, the others are as they were.
pub(crate) proof fn lemma_one_stream_put(a: SecioSessionReader, b: SecioSessionReader, key: u32)
    requires
        b@.streams == a@.streams.insert(key, b@.streams[key]),
    ensures
        other_streams_unchanged(a, b, key),
        b.streams@.contains_key(key),
{
    lemma_streams(a);
    lemma_streams(b);
    assert(b@.streams.contains_key(key));
    assert forall|k: u32| k != key implies {
        &&& #[trigger] a.streams@.contains_key(k) <==> b.streams@.contains_key(k)
        &&& a.streams@.contains_key(k) ==> unchanged_stream(a.streams@[k], b.streams@[k])
    } by {
        assert(a@.streams.contains_key(k) <==> b@.streams.contains_key(k));
        if a.streams@.contains_key(k) {
            assert(b@.streams[k] == a@.streams[k]);
            lemma_same_view(a.streams@[k], b.streams@[k]);
        }
    }
}

/// A new session has the ID, configuration and mode given, no streams and no
/// subscriber. A client's first ID is one, a server's two.
pub proof fn law_new_session(
    id: Id,
    cfg: Config,
    mode: Mode,
    tx: mpsc::Sender<StreamCommand>,
    r: SecioSessionReader,
)
    requires
        call_ensures(SecioSessionReader::with_id, (id, cfg, mode, tx), r) || (call_ensures(
            SecioSessionReader::new,
            (cfg, mode, tx),
            r,
        ) && id == r.id),
    ensures
        r.id == id,
        r.mode == mode,
        *r.config == cfg,
        r.stream_sender == tx,
        r.remote_stream_sender is None,
        r.next_id == if mode is Client { 1u32 } else { 2 },
        forall|k: u32| !#[trigger] r.streams@.contains_key(k),
        r.garbage@.len() == 0,
        r.shutdown is NotStarted,
        !r.is_closed,
{
    lemma_parts(r);
    lemma_streams(r);
    assert forall|k: u32| !#[trigger] r.streams@.contains_key(k) by {
        assert(!r@.streams.contains_key(k));
    }
}

/// The default configuration: a window of 256 KiB for each stream, buffers of
/// one mebibyte, 8192 streams, and streams that are announced at once.
pub proof fn law_default_config(c: Config)
    requires
        call_ensures(<Config as Default>::default, (), c),
    ensures
        c.receive_window == 256 * 1024,
        c.max_buffer_size == 1024 * 1024,
        c.max_num_streams == 8192,
        c.window_update_mode is OnReceive,
        !c.lazy_open,
{
}

/// The IDs that a session assigns are its next one, and then every second.
pub proof fn law_next_stream_id(r: &mut SecioSessionReader, res: Result<StreamId, String>)
    requires
        old(r).next_id < 0xffff_fffe,
        call_ensures(SecioSessionReader::next_stream_id, (r,), res),
    ensures
        res matches Ok(id) && id.0 == old(r).next_id,
        final(r).next_id == old(r).next_id + 2,
        same_session(*old(r), *final(r)),
        old(r).remote_stream_sender == final(r).remote_stream_sender,
        old(r).shutdown == final(r).shutdown,
        streams_unchanged(*old(r), *final(r)),
{
    lemma_parts(*old(r));
    lemma_parts(*final(r));
    lemma_same_streams(*old(r), *final(r));
}

/// A stream can be opened while the next ID is one of this end, and the one
/// after it fits 32 bits.
pub proof fn law_can_open_stream(r: SecioSessionReader, b: bool)
    requires
        call_ensures(SecioSessionReader::can_open_stream, (&r,), b),
    ensures
        b <==> !foreign(r.mode, r.next_id) && r.next_id + 2 <= 0xffff_ffff,
{
}

/// The remote may use the IDs of its own end for streams, and zero alone for
/// pings and to go away.
pub proof fn law_is_valid_remote_id(r: SecioSessionReader, id: StreamId, tag: Tag, b: bool)
    requires
        call_ensures(SecioSessionReader::is_valid_remote_id, (&r, id, tag), b),
    ensures
        b <==> match tag {
            Tag::Data => foreign(r.mode, id.0),
            Tag::WindowUpdate => foreign(r.mode, id.0),
            Tag::Ping => id.0 == 0,
            Tag::GoAway => id.0 == 0,
        },
{
}

/// A command that asks for a frame to be sent: its header, and no body.
pub open spec fn asks_for(
    command: Option<StreamCommand>,
    tag: Tag,
    flags: int,
    id: int,
    length: int,
) -> bool {
    &&& command matches Some(StreamCommand::SendFrame(f))
    &&& is_header(f.header, tag, flags, id, length)
    &&& f.body@.len() == 0
}

/// What comes of opening a stream: the user has a stream with the next ID, the
/// session keeps it under that ID, and the remote is told of it with a SYN
/// that grants the receive window, unless streams are opened lazily.
pub open spec fn stream_opened(
    pre: SecioSessionReader,
    post: SecioSessionReader,
    user: Stream,
    command: Option<StreamCommand>,
) -> bool {
    let key = pre.next_id;
    let kept = post.streams@[key];
    let flag = if pre.config.lazy_open {
        Flag::Syn
    } else {
        Flag::Unset
    };
    &&& made_for(user, pre, key, flag)
    &&& user.data_sender is None
    &&& user.data_receiver is Some
    &&& post.streams@.contains_key(key)
    &&& made_for(kept, pre, key, flag)
    &&& kept.data_sender is Some
    &&& kept.data_receiver is None
    &&& other_streams_unchanged(pre, post, key)
    &&& same_session(pre, post)
    &&& post.next_id == pre.next_id + 2
    &&& post.remote_stream_sender == pre.remote_stream_sender
    &&& post.shutdown == pre.shutdown
    &&& if pre.config.lazy_open {
        command is None
    } else {
        asks_for(command, Tag::WindowUpdate, 1, key as int, pre.config.receive_window as int)
    }
}

/// A session that has opened a stream over the given channel.
proof fn lemma_opened(
    pre: SecioSessionReader,
    post: SecioSessionReader,
    user: Stream,
    command: Option<StreamCommand>,
    tx: mpsc::Sender<Vec<u8>>,
    rx: mpsc::Receiver<Vec<u8>>,
)
    requires
        pre@.can_open(),
        post@ == pre@.after_open(tx),
        user@ == pre@.opened().handed_out(rx),
        commands(command, pre@.announcement()),
    ensures
        stream_opened(pre, post, user, command),
        post.streams@[pre.next_id].data_sender == Some(tx),
        user.data_receiver == Some(rx),
{
    let key = pre.next_id;
    lemma_parts(pre);
    lemma_parts(post);
    lemma_streams(pre);
    lemma_streams(post);
    assert(post@.streams[key] == pre@.opened().attached(tx));
    lemma_one_stream_put(pre, post, key);
    assert(post.streams@[key]@ == pre@.opened().attached(tx));
    assert(0u16 | 1u16 == 1u16) by (bit_vector);
    if let Some(StreamCommand::SendFrame(f)) = command {
        assert(f@.header == f.header && f@.body == f.body@);
    }
}

/// Opening a stream gives the user a stream with a new ID of this end, over a
/// data channel whose other end the session keeps, and announces it.
pub proof fn law_open(
    r: &mut SecioSessionReader,
    res: Result<(Stream, Option<StreamCommand>), String>,
)
    requires
        !foreign(old(r).mode, old(r).next_id) && old(r).next_id + 2 <= 0xffff_ffff,
        call_ensures(SecioSessionReader::open_secio_stream, (r,), res),
    ensures
        res matches Ok((user, command)) && {
            &&& stream_opened(*old(r), *final(r), user, command)
            &&& data_channel_ends(
                10,
                final(r).streams@[old(r).next_id].data_sender->Some_0,
                user.data_receiver->Some_0,
            )
        },
{
    let user = res->Ok_0.0;
    let command = res->Ok_0.1;
    lemma_opened_by(*old(r), *final(r), user, command);
}

/// A session that has opened a stream over a channel of its own.
pub(crate) proof fn lemma_opened_by(
    pre: SecioSessionReader,
    post: SecioSessionReader,
    user: Stream,
    command: Option<StreamCommand>,
)
    requires
        pre@.can_open(),
        pre@.opens(post@, user@, command),
    ensures
        stream_opened(pre, post, user, command),
        data_channel_ends(
            10,
            post.streams@[pre.next_id].data_sender->Some_0,
            user.data_receiver->Some_0,
        ),
{
    lemma_opened(
        pre,
        post,
        user,
        command,
        post@.streams[pre.next_id].data_sender->Some_0,
        user@.data_receiver->Some_0,
    );
}

/// Opening a stream over a given data channel leaves one end with the session
/// and one with the user.
pub proof fn law_open_with(
    r: &mut SecioSessionReader,
    tx: mpsc::Sender<Vec<u8>>,
    rx: mpsc::Receiver<Vec<u8>>,
    res: Result<(Stream, Option<StreamCommand>), String>,
)
    requires
        !foreign(old(r).mode, old(r).next_id) && old(r).next_id + 2 <= 0xffff_ffff,
        call_ensures(SecioSessionReader::open_with, (r, tx, rx), res),
    ensures
        res matches Ok((user, command)) && {
            &&& stream_opened(*old(r), *final(r), user, command)
            &&& final(r).streams@[old(r).next_id].data_sender == Some(tx)
            &&& user.data_receiver == Some(rx)
        },
{
    lemma_opened(*old(r), *final(r), res->Ok_0.0, res->Ok_0.1, tx, rx);
}

/// What comes of handing a stream to a user: the user has the stream as the
/// session kept it, with all that was cached, and the session keeps it with
/// nothing cached.
pub open spec fn stream_given(kept: Stream, user: Stream, keeps: Stream) -> bool {
    &&& same_stream(user, kept)
    &&& user.cache@ == kept.cache@
    &&& user.data_sender == kept.data_sender
    &&& user.pending is None
    &&& user.data_receiver is Some
    &&& same_stream(keeps, kept)
    &&& keeps.cache@.len() == 0
    &&& keeps.data_sender is Some
    &&& keeps.data_receiver == kept.data_receiver
    &&& (keeps.pending is Some <==> kept.pending is Some)
}

/// A stream that has been handed out over the given channel.
pub(crate) proof fn lemma_given(
    kept: Stream,
    user: Stream,
    keeps: Stream,
    tx: mpsc::Sender<Vec<u8>>,
    rx: mpsc::Receiver<Vec<u8>>,
)
    requires
        user@ == kept@.handed_out(rx),
        keeps@ == kept@.attached(tx),
    ensures
        stream_given(kept, user, keeps),
        keeps.data_sender == Some(tx),
        user.data_receiver == Some(rx),
{
    assert(user@.id == user.id && keeps@.id == keeps.id && kept@.id == kept.id);
    assert(keeps@.pending == kept@.pending);
}

/// What comes of asking for a stream: it is given if the session knows it and
/// it belongs to the other end. Else nothing changes, and the reply says which
/// of the two is the matter.
pub open spec fn stream_asked_for(
    pre: SecioSessionReader,
    post: SecioSessionReader,
    key: u32,
    reply: Result<Stream, String>,
) -> bool {
    match reply {
        Ok(user) => {
            &&& pre.streams@.contains_key(key) && foreign(pre.mode, key)
            &&& post.streams@.contains_key(key)
            &&& stream_given(pre.streams@[key], user, post.streams@[key])
            &&& data_channel_ends(
                10,
                post.streams@[key].data_sender->Some_0,
                user.data_receiver->Some_0,
            )
            &&& other_streams_unchanged(pre, post, key)
            &&& apart_from_streams(pre, post)
        },
        Err(e) => {
            &&& unchanged(pre, post)
            &&& if foreign(pre.mode, key) {
                !pre.streams@.contains_key(key) && e@ == "not exist stream"@
            } else {
                e@ == "not remote stream id"@
            }
        },
    }
}

/// A session that has been asked for a stream.
pub(crate) proof fn lemma_asked_for(
    pre: SecioSessionReader,
    post: SecioSessionReader,
    key: u32,
    reply: Result<Stream, String>,
)
    requires
        pre@.gives(key, post@, reply),
    ensures
        stream_asked_for(pre, post, key, reply),
{
    lemma_parts(pre);
    lemma_parts(post);
    lemma_streams(pre);
    lemma_streams(post);
    assert(pre@.streams.contains_key(key) <==> pre.streams@.contains_key(key));
    match reply {
        Ok(user) => {
            let tx = post@.streams[key].data_sender->Some_0;
            let rx = user.data_receiver->Some_0;
            assert(user@.data_receiver == user.data_receiver);
            assert(post@.streams[key] == pre@.streams[key].attached(tx));
            lemma_one_stream_put(pre, post, key);
            lemma_given(pre.streams@[key], user, post.streams@[key], tx, rx);
        },
        Err(_) => {
            lemma_same_contents(pre, post);
        },
    }
}

/// A stream of the other end that the session knows is given to whoever asks
/// for it, with its own ID and all that was cached of it, over a data channel
/// whose other end the session keeps. Any other request changes nothing.
pub proof fn law_get_stream(r: &mut SecioSessionReader, key: u32, reply: Result<Stream, String>)
    requires
        call_ensures(SecioSessionReader::get_stream, (r, key), reply),
    ensures
        reply is Ok <==> old(r).streams@.contains_key(key) && foreign(old(r).mode, key),
        stream_asked_for(*old(r), *final(r), key, reply),
{
    lemma_asked_for(*old(r), *final(r), key, reply);
}

/// The stream that is given has the ID that was asked for, and the session,
/// configuration, command channel and flag of the stream that is kept under
/// that ID.
pub proof fn law_given_stream_is_the_one_asked_for(
    r: &mut SecioSessionReader,
    key: u32,
    reply: Result<Stream, String>,
)
    requires
        old(r)@.wf(),
        call_ensures(SecioSessionReader::get_stream, (r, key), reply),
        reply is Ok,
    ensures
        reply->Ok_0.id == StreamId(key),
        reply->Ok_0.conn == old(r).id,
        *reply->Ok_0.config == *old(r).config,
        reply->Ok_0.sender == old(r).stream_sender,
        reply->Ok_0.flag == old(r).streams@[key].flag,
        reply->Ok_0.cache@ == old(r).streams@[key].cache@,
        final(r).streams@[key].id == StreamId(key),
        final(r).streams@[key].sender == old(r).stream_sender,
        final(r).streams@[key].flag == old(r).streams@[key].flag,
{
    lemma_asked_for(*old(r), *final(r), key, reply);
    lemma_parts(*old(r));
    lemma_streams(*old(r));
    let kept = old(r).streams@[key];
    assert(old(r)@.streams.contains_key(key));
    assert(kept@.id == kept.id && kept@.config == *kept.config);
}

/// Handing out the stream under a key gives it to the user over the channel
/// given, and touches no other.
pub proof fn law_hand_out(
    r: &mut SecioSessionReader,
    key: u32,
    tx: mpsc::Sender<Vec<u8>>,
    rx: mpsc::Receiver<Vec<u8>>,
    user: Stream,
)
    requires
        old(r).streams@.contains_key(key),
        call_ensures(SecioSessionReader::hand_out, (r, key, tx, rx), user),
    ensures
        final(r).streams@.contains_key(key),
        stream_given(old(r).streams@[key], user, final(r).streams@[key]),
        final(r).streams@[key].data_sender == Some(tx),
        user.data_receiver == Some(rx),
        other_streams_unchanged(*old(r), *final(r), key),
        apart_from_streams(*old(r), *final(r)),
{
    lemma_parts(*old(r));
    lemma_parts(*final(r));
    lemma_streams(*old(r));
    lemma_streams(*final(r));
    assert(final(r)@.streams[key] == old(r)@.streams[key].attached(tx));
    lemma_one_stream_put(*old(r), *final(r), key);
    lemma_given(old(r).streams@[key], user, final(r).streams@[key], tx, rx);
}

/// What comes of accepting a stream: the session keeps it under its ID, with
/// the ACK flag still to be set, and has a copy for the caller. A subscriber
/// is handed it over a data channel whose other end the session keeps.
pub open spec fn stream_accepted(
    pre: SecioSessionReader,
    post: SecioSessionReader,
    key: u32,
    told: bool,
    inbound: Stream,
    announced: Option<Stream>,
) -> bool {
    let kept = post.streams@[key];
    &&& post.streams@.contains_key(key)
    &&& made_for(kept, pre, key, Flag::Ack)
    &&& kept.data_receiver is None
    &&& made_for(inbound, pre, key, Flag::Ack)
    &&& inbound.data_receiver is None
    &&& inbound.data_sender == kept.data_sender
    &&& other_streams_unchanged(pre, post, key)
    &&& apart_from_streams(pre, post)
    &&& if told {
        &&& kept.data_sender is Some
        &&& announced matches Some(user)
        &&& made_for(user, pre, key, Flag::Ack)
        &&& user.data_sender is None
        &&& user.data_receiver is Some
    } else {
        &&& kept.data_sender is None
        &&& announced is None
    }
}

/// A session that has accepted a stream.
pub(crate) proof fn lemma_accepted(
    pre: SecioSessionReader,
    post: SecioSessionReader,
    id: StreamId,
    channel: Option<(mpsc::Sender<Vec<u8>>, mpsc::Receiver<Vec<u8>>)>,
    inbound: Stream,
    announced: Option<Stream>,
)
    requires
        pre@.accepts(id, channel, post@, inbound@, optional(announced)),
    ensures
        stream_accepted(pre, post, id.0, channel is Some, inbound, announced),
        channel matches Some((tx, rx)) ==> {
            &&& post.streams@[id.0].data_sender == Some(tx)
            &&& announced->Some_0.data_receiver == Some(rx)
        },
{
    let key = id.0;
    lemma_parts(pre);
    lemma_parts(post);
    lemma_streams(pre);
    lemma_streams(post);
    assert(post@.streams.contains_key(key));
    lemma_one_stream_put(pre, post, key);
    let kept = post.streams@[key];
    assert(post@.streams[key] == kept@);
    assert(kept@.id == kept.id && kept@.cache == kept.cache@ && kept@.config == *kept.config);
    assert(inbound@.id == inbound.id && inbound@.cache == inbound.cache@);
    if let Some(user) = announced {
        assert(optional(announced) == Some(user@));
        assert(user@.id == user.id && user@.cache == user.cache@);
        assert(user@.data_sender == user.data_sender);
    }
}

/// Accepting a stream keeps it under its ID and hands it on over the data
/// channel, where one is given.
pub proof fn law_accept(
    r: &mut SecioSessionReader,
    id: StreamId,
    channel: Option<(mpsc::Sender<Vec<u8>>, mpsc::Receiver<Vec<u8>>)>,
    accepted: (Stream, Option<Stream>),
)
    requires
        call_ensures(SecioSessionReader::accept, (r, id, channel), accepted),
    ensures
        stream_accepted(*old(r), *final(r), id.0, channel is Some, accepted.0, accepted.1),
        channel matches Some((tx, rx)) ==> {
            &&& final(r).streams@[id.0].data_sender == Some(tx)
            &&& accepted.1->Some_0.data_receiver == Some(rx)
        },
{
    lemma_accepted(*old(r), *final(r), id, channel, accepted.0, accepted.1);
}

} // verus!
