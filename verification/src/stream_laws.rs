//! Laws of streams and of those who use them.

use crate::client::{next_greeting, remote_stream_deal, request_outcome, sending_copy, serve};
use crate::client::{Deal, ServedStream};
use crate::config::Config;
use crate::frame_laws::{data_taken, lemma_data_taken};
use crate::header::{Header, StreamId};
use crate::session::{Id, StreamCommand};
use crate::session_laws::{lemma_given, same_stream, stream_given};
use crate::stream::{Flag, Stream};
use crate::wire_laws::lemma_set_bit;
use futures::channel::mpsc;
use std::sync::Arc;
use vstd::prelude::*;

verus! {

/// A new stream has the ID, session, configuration and command channel given,
/// and nothing else.
pub proof fn law_new_stream(
    id: StreamId,
    conn: Id,
    config: Arc<Config>,
    tx: mpsc::Sender<StreamCommand>,
    s: Stream,
    got: StreamId,
)
    requires
        call_ensures(Stream::new, (id, conn, config, tx), s),
        call_ensures(Stream::id, (&s,), got),
    ensures
        got == id,
        s.id == id,
        s.conn == conn,
        *s.config == *config,
        s.sender == tx,
        s.flag is Unset,
        s.pending is None,
        s.data_sender is None,
        s.data_receiver is None,
        s.cache@.len() == 0,
{
    assert(s@.id == s.id && s@.cache == s.cache@ && s@.pending is None);
}

/// A copy of a stream agrees with it in all but what is pending and the
/// receiving end, which it lacks.
pub proof fn law_clone(s: Stream, copy: Stream)
    requires
        call_ensures(Stream::clone, (&s,), copy),
    ensures
        same_stream(copy, s),
        copy.data_sender == s.data_sender,
        copy.cache@ == s.cache@,
        copy.pending is None,
        copy.data_receiver is None,
{
    assert(s@.id == s.id && s@.cache == s.cache@);
    assert(copy@.id == copy.id && copy@.cache == copy.cache@ && copy@.pending is None);
}

/// Setting the flag of a stream changes the flag alone.
pub proof fn law_set_flag(s: &mut Stream, flag: Flag)
    requires
        call_ensures(Stream::set_flag, (s, flag), ()),
    ensures
        final(s).flag == flag,
        *final(s) == (Stream { flag: final(s).flag, ..*old(s) }),
{
}

/// The header `post` is `pre` with the bit of the flag added, unless it was
/// there.
pub open spec fn flag_added(pre: Header, post: Header, flag: Flag) -> bool {
    &&& post == (Header { flags: post.flags, ..pre })
    &&& post.flags.0 == pre.flags.0 + match flag {
        Flag::Unset => 0int,
        Flag::Syn => if pre.flags.0 % 2 == 1 { 0int } else { 1 },
        Flag::Ack => if pre.flags.0 / 2 % 2 == 1 { 0int } else { 2 },
    }
}

/// A flag is set on a header by adding its bit.
pub proof fn law_set_on(flag: Flag, h: &mut Header)
    requires
        call_ensures(Flag::set_on, (flag, h), ()),
    ensures
        flag_added(*old(h), *final(h), flag),
{
    lemma_set_bit(old(h).flags.0);
}

/// A stream sets its flag on one header, and on no second.
pub proof fn law_add_flag_once(
    s: &mut Stream,
    first: &mut Header,
    t: &mut Stream,
    second: &mut Header,
)
    requires
        call_ensures(Stream::add_flag, (s, first), ()),
        *old(t) == *final(s),
        call_ensures(Stream::add_flag, (t, second), ()),
    ensures
        flag_added(*old(first), *final(first), old(s).flag),
        *final(second) == *old(second),
        final(s).flag is Unset,
        *final(s) == (Stream { flag: final(s).flag, ..*old(s) }),
        *final(t) == *old(t),
{
    lemma_set_bit(old(first).flags.0);
}

/// A stream that is handed out goes to the user with all that was cached.
pub proof fn law_stream_hand_out(
    s: &mut Stream,
    tx: mpsc::Sender<Vec<u8>>,
    rx: mpsc::Receiver<Vec<u8>>,
    user: Stream,
)
    requires
        call_ensures(Stream::hand_out, (s, tx, rx), user),
    ensures
        stream_given(*old(s), user, *final(s)),
        final(s).data_sender == Some(tx),
        user.data_receiver == Some(rx),
{
    lemma_given(*old(s), user, *final(s), tx, rx);
}

/// A stream that is fed loses no data: it is delivered to the user or cached.
pub proof fn law_feed(s: &mut Stream, length: u32, body: Vec<u8>, deliveries: Vec<Vec<u8>>)
    requires
        call_ensures(Stream::feed, (s, length, body), deliveries),
    ensures
        data_taken(*old(s), *final(s), deliveries@, length, body@),
{
    lemma_data_taken(*old(s), *final(s), deliveries@, length, body@);
}

/// The outcome of a request is the reply, whatever it is; without a reply it
/// is a failure.
pub proof fn law_request_outcome<T>(
    reply: Option<Result<T, String>>,
    outcome: Result<T, String>,
)
    requires
        call_ensures(request_outcome::<T>, (reply,), outcome),
    ensures
        reply is Some ==> Some(outcome) == reply,
        reply is None ==> outcome is Err && outcome->Err_0@ == "fail"@,
{
}

/// What a user takes over of a stream: its receiving end, and what was cached,
/// if anything.
pub open spec fn taken_over(stream: Stream, served: ServedStream) -> bool {
    &&& stream.data_receiver == Some(served.data_receiver)
    &&& served.cached is Some <==> stream.cache@.len() > 0
    &&& served.cached matches Some(c) ==> c@ == stream.cache@
}

/// Serving a stream takes over its data.
pub proof fn law_serve(stream: Stream, served: ServedStream)
    requires
        stream.data_receiver is Some,
        call_ensures(serve, (stream,), served),
    ensures
        taken_over(stream, served),
{
}

/// A stream that is there is served; else the reason is passed on.
pub proof fn law_remote_stream_deal(reply: Result<Stream, String>, deal: Deal)
    requires
        reply matches Ok(stream) ==> stream.data_receiver is Some,
        call_ensures(remote_stream_deal, (reply,), deal),
    ensures
        match deal {
            Deal::Serve(served) => reply matches Ok(stream) && taken_over(stream, served),
            Deal::Retry(why) => reply == Err::<Stream, String>(why),
        },
{
}

/// The copy to send with is the stream itself, and the receiving end its own.
pub proof fn law_sending_copy(stream: Stream, parts: (Stream, mpsc::Receiver<Vec<u8>>))
    requires
        stream.data_receiver is Some,
        call_ensures(sending_copy, (stream,), parts),
    ensures
        same_stream(parts.0, stream),
        parts.0.data_sender == stream.data_sender,
        parts.0.cache@ == stream.cache@,
        parts.0.data_receiver is None,
        stream.data_receiver == Some(parts.1),
{
    assert(stream@.id == stream.id && stream@.cache == stream.cache@);
    assert(parts.0@.id == parts.0.id && parts.0@.cache == parts.0.cache@);
}

/// The numbers of greetings go up by one, as long as they fit a signed 32-bit
/// integer.
pub proof fn law_next_greeting(sent: u32, n: Option<u32>)
    requires
        call_ensures(next_greeting, (sent,), n),
    ensures
        n is Some <==> sent < 0x7fff_ffff,
        n matches Some(k) ==> k - sent == 1,
{
}

} // verus!
