//! Laws of several operations in a row, at one end of a connection or at both.

use crate::bytes::{be_u32, joined, strings};
use crate::frame::Frame;
use crate::frame_laws::{law_on_data, law_on_frame};
use crate::header::{Header, Tag};
use crate::io::{ReadState, ReadStep};
use crate::laws::law_stream_limit;
use crate::model::optional;
use crate::reader::{FrameEffects, SecioSessionReader};
use crate::session::{Action, StreamCommand};
use crate::session_laws::{foreign, law_get_stream, law_open, lemma_parts, lemma_streams};
use crate::stream::Stream;
use crate::wire_laws::{flagged_as, law_advance, law_data_frame_send};
use crate::writer::SecioSessionWriter;
use std::num::TryFromIntError;
use vstd::prelude::*;

verus! {

/// A stream that one end opens is accepted by the other end under the same ID
/// when the announcement arrives, and can be asked for there.
pub proof fn law_opened_stream_reaches_peer(
    a: &mut SecioSessionReader,
    user: Stream,
    frame: Frame,
    b: &mut SecioSessionReader,
    effects: FrameEffects,
    c: &mut SecioSessionReader,
    reply: Result<Stream, String>,
)
    requires
        !foreign(old(a).mode, old(a).next_id) && old(a).next_id + 2 <= 0xffff_ffff,
        call_ensures(
            SecioSessionReader::open_secio_stream,
            (a,),
            Ok((user, Some(StreamCommand::SendFrame(frame)))),
        ),
        call_ensures(SecioSessionReader::on_frame, (b, frame), effects),
        old(b).mode != old(a).mode,
        !old(b).streams@.contains_key(old(a).next_id),
        old(b).streams@.len() != old(b).config.max_num_streams,
        *old(c) == *final(b),
        call_ensures(SecioSessionReader::get_stream, (c, user.id.0), reply),
    ensures
        user.id.0 == old(a).next_id,
        final(a).streams@.contains_key(user.id.0),
        final(b).streams@.contains_key(user.id.0),
        effects.inbound matches Some(s) && s.id == user.id,
        effects.command is None,
        reply matches Ok(theirs) && theirs.id == user.id && theirs.cache@.len() == 0,
{
    law_open(a, Ok((user, Some(StreamCommand::SendFrame(frame)))));
    law_on_frame(b, frame, effects);
    law_get_stream(c, user.id.0, reply);
}

/// Streams that one end opens one after the other have different IDs of that
/// end, and the first is still there when the second is opened.
pub proof fn law_each_open_is_new(
    a: &mut SecioSessionReader,
    first: Result<(Stream, Option<StreamCommand>), String>,
    b: &mut SecioSessionReader,
    second: Result<(Stream, Option<StreamCommand>), String>,
)
    requires
        !foreign(old(a).mode, old(a).next_id) && old(a).next_id + 4 <= 0xffff_ffff,
        call_ensures(SecioSessionReader::open_secio_stream, (a,), first),
        *old(b) == *final(a),
        call_ensures(SecioSessionReader::open_secio_stream, (b,), second),
    ensures
        first matches Ok((s, _)) && second matches Ok((t, _)) && {
            &&& s.id != t.id
            &&& !foreign(old(a).mode, s.id.0)
            &&& !foreign(old(a).mode, t.id.0)
            &&& final(b).streams@.contains_key(s.id.0)
            &&& final(b).streams@.contains_key(t.id.0)
        },
{
    law_open(a, first);
    law_open(b, second);
    let key = old(a).next_id;
    assert(old(b).streams@.contains_key(key));
}

/// Data that arrives before a user asks for the stream reaches the user with
/// the stream, and data that arrives afterwards is delivered.
pub proof fn law_data_before_and_after_asking(
    a: &mut SecioSessionReader,
    early: Frame,
    first: (Action, Vec<Vec<u8>>),
    b: &mut SecioSessionReader,
    reply: Result<Stream, String>,
    c: &mut SecioSessionReader,
    late: Frame,
    second: (Action, Vec<Vec<u8>>),
    key: u32,
)
    requires
        old(a).streams@.contains_key(key),
        old(a).streams@[key].data_sender is None,
        foreign(old(a).mode, key),
        early.header.stream_id.0 == key,
        early.header.flags.0 % 2 == 0 && early.header.flags.0 / 8 % 2 == 0,
        late.header.stream_id.0 == key,
        late.header.flags.0 % 2 == 0 && late.header.flags.0 / 8 % 2 == 0,
        call_ensures(SecioSessionReader::on_data, (a, early), first),
        *old(b) == *final(a),
        call_ensures(SecioSessionReader::get_stream, (b, key), reply),
        *old(c) == *final(b),
        call_ensures(SecioSessionReader::on_data, (c, late), second),
    ensures
        first.1@.len() == 0,
        reply matches Ok(user) && user.cache@ == old(a).streams@[key].cache@ + be_u32(
            early.header.length,
        ) + early.body@,
        joined(strings(second.1@)) == be_u32(late.header.length) + late.body@,
        final(c).streams@[key].cache@.len() == 0,
{
    law_on_data(a, early, first);
    law_get_stream(b, key, reply);
    law_on_data(c, late, second);
    let none = strings(first.1@);
    assert(none =~= Seq::empty());
    assert(joined(none) =~= Seq::empty());
    assert(joined(none) + final(a).streams@[key].cache@ =~= final(a).streams@[key].cache@);
    assert(old(c).streams@[key].cache@ =~= Seq::empty());
    assert(final(c).streams@[key].cache@ =~= Seq::empty());
    assert(joined(strings(second.1@)) + final(c).streams@[key].cache@ =~= joined(
        strings(second.1@),
    ));
    assert(old(c).streams@[key].cache@ + be_u32(late.header.length) + late.body@ =~= be_u32(
        late.header.length,
    ) + late.body@);
}

/// A frame that opens a stream is accepted once. When it comes again, it is
/// answered as a protocol error, and the stream stays as it was.
pub proof fn law_stream_is_opened_once(
    a: &mut SecioSessionReader,
    frame: Frame,
    first: FrameEffects,
    b: &mut SecioSessionReader,
    second: FrameEffects,
)
    requires
        call_ensures(SecioSessionReader::on_frame, (a, frame), first),
        first.inbound is Some,
        *old(b) == *final(a),
        call_ensures(SecioSessionReader::on_frame, (b, frame), second),
    ensures
        first.command is None,
        !old(a).streams@.contains_key(frame.header.stream_id.0),
        final(a).streams@.contains_key(frame.header.stream_id.0),
        second.inbound is None,
        second.command matches Some(StreamCommand::SendFrame(f)) && f.header.tag == Tag::GoAway
            && f.header.length == 1,
        final(b).streams@.contains_key(frame.header.stream_id.0),
{
    law_on_frame(a, frame, first);
    law_on_frame(b, frame, second);
}

/// A frame of the remote never takes a stream away, and adds at most the one
/// that it names. What a stream is, who it belongs to and where its data goes
/// stays as it was.
pub proof fn law_frames_keep_streams(
    r: &mut SecioSessionReader,
    frame: Frame,
    effects: FrameEffects,
    key: u32,
)
    requires
        call_ensures(SecioSessionReader::on_frame, (r, frame), effects),
    ensures
        old(r).streams@.contains_key(key) ==> {
            &&& final(r).streams@.contains_key(key)
            &&& final(r).streams@[key].id == old(r).streams@[key].id
            &&& final(r).streams@[key].conn == old(r).streams@[key].conn
            &&& final(r).streams@[key].flag == old(r).streams@[key].flag
            &&& final(r).streams@[key].sender == old(r).streams@[key].sender
            &&& final(r).streams@[key].data_sender == old(r).streams@[key].data_sender
        },
        key != frame.header.stream_id.0 ==> {
            &&& final(r).streams@.contains_key(key) <==> old(r).streams@.contains_key(key)
            &&& old(r).streams@.contains_key(key) ==> final(r).streams@[key].cache@ == old(
                r,
            ).streams@[key].cache@
        },
        final(r).next_id == old(r).next_id,
        final(r).mode == old(r).mode,
        final(r).id == old(r).id,
        *final(r).config == *old(r).config,
        final(r).remote_stream_sender == old(r).remote_stream_sender,
        final(r).shutdown == old(r).shutdown,
{
    law_on_frame(r, frame, effects);
    assert(old(r).streams@.contains_key(key) || !old(r).streams@.contains_key(key));
}

/// A frame without SYN, FIN and RST for a stream that the session does not
/// know is answered with a reset of that stream; with SYN for an ID that is
/// not the remote's, with a protocol error.
pub proof fn law_stray_frames_are_answered(
    r: &mut SecioSessionReader,
    frame: Frame,
    effects: FrameEffects,
)
    requires
        call_ensures(SecioSessionReader::on_frame, (r, frame), effects),
        frame.header.tag == Tag::Data || frame.header.tag == Tag::WindowUpdate,
        frame.header.flags.0 / 8 % 2 == 0,
    ensures
        frame.header.flags.0 % 2 == 0 && frame.header.flags.0 / 4 % 2 == 0 && !old(
            r,
        ).streams@.contains_key(frame.header.stream_id.0) ==> {
            &&& effects.command matches Some(StreamCommand::SendFrame(f))
            &&& f.header.tag == Tag::Data
            &&& f.header.flags.0 == 8
            &&& f.header.stream_id == frame.header.stream_id
            &&& f.header.length == 0
            &&& f.body@.len() == 0
        },
        frame.header.flags.0 % 2 == 1 && !foreign(old(r).mode, frame.header.stream_id.0) ==> {
            &&& effects.command matches Some(StreamCommand::SendFrame(f))
            &&& f.header.tag == Tag::GoAway
            &&& f.header.stream_id.0 == 0
            &&& f.header.length == 1
            &&& effects.inbound is None
        },
{
    law_on_frame(r, frame, effects);
}

/// Frames of the remote never raise the number of streams beyond the
/// configured maximum.
pub proof fn law_frames_respect_limit(
    r: &mut SecioSessionReader,
    frame: Frame,
    effects: FrameEffects,
)
    requires
        old(r)@.wf(),
        call_ensures(SecioSessionReader::on_frame, (r, frame), effects),
        old(r).streams@.len() <= old(r).config.max_num_streams,
    ensures
        final(r).streams@.len() <= final(r).config.max_num_streams,
{
    lemma_parts(*old(r));
    lemma_parts(*final(r));
    lemma_streams(*old(r));
    lemma_streams(*final(r));
    law_stream_limit(
        old(r)@,
        frame@,
        final(r)@,
        optional(effects.inbound),
        optional(effects.announced),
        strings(effects.deliveries@),
        effects.command,
    );
}

/// A stream that has been given is given again as it was, but with nothing
/// cached. A request that is refused is refused again.
pub proof fn law_given_twice(
    a: &mut SecioSessionReader,
    first: Result<Stream, String>,
    b: &mut SecioSessionReader,
    second: Result<Stream, String>,
    key: u32,
)
    requires
        call_ensures(SecioSessionReader::get_stream, (a, key), first),
        *old(b) == *final(a),
        call_ensures(SecioSessionReader::get_stream, (b, key), second),
    ensures
        first is Ok <==> second is Ok,
        first matches Ok(s) ==> second matches Ok(t) && {
            &&& s.id == t.id
            &&& s.flag == t.flag
            &&& s.sender == t.sender
            &&& t.cache@.len() == 0
        },
        first matches Err(e) ==> second matches Err(f) && e@ == f@,
{
    law_get_stream(a, key, first);
    law_get_stream(b, key, second);
    assert(old(a).streams@.contains_key(key) <==> old(b).streams@.contains_key(key));
}

/// A ping of one end, answered by the other, comes back with its nonce and is
/// not answered again.
pub proof fn law_ping_comes_back(
    a: &mut SecioSessionReader,
    ping: Frame,
    effects: FrameEffects,
    b: &mut SecioSessionReader,
    end: FrameEffects,
)
    requires
        ping.header.tag == Tag::Ping,
        ping.header.flags.0 == 0,
        ping.header.stream_id.0 == 0,
        call_ensures(SecioSessionReader::on_frame, (a, ping), effects),
        effects.command matches Some(StreamCommand::SendFrame(pong)) ==> call_ensures(
            SecioSessionReader::on_frame,
            (b, pong),
            end,
        ),
    ensures
        effects.command matches Some(StreamCommand::SendFrame(pong)) && {
            &&& pong.header.tag == Tag::Ping
            &&& pong.header.length == ping.header.length
        },
        end.command is None,
{
    law_on_frame(a, ping, effects);
    let pong = effects.command->Some_0->SendFrame_0;
    law_on_frame(b, pong, end);
}

/// Data that one end sends on a stream is read at the other end as a data
/// frame on that stream with the same bytes.
pub proof fn law_sent_data_is_read(
    w: SecioSessionWriter,
    stream: Stream,
    data: Vec<u8>,
    res: Result<Vec<Vec<u8>>, TryFromIntError>,
    first: ReadStep,
    second: ReadStep,
    h: Header,
)
    requires
        call_ensures(SecioSessionWriter::data_frame_send, (&w, stream, data), res),
        res is Ok,
        data@.len() > 0,
        flagged_as(h, Tag::Data, stream.flag, stream.id, data@.len() as int),
        call_ensures(ReadState::advance, (ReadState::Init, res->Ok_0@[0]), first),
        first matches ReadStep::Pending(state) ==> call_ensures(
            ReadState::advance,
            (state, res->Ok_0@[1]),
            second,
        ),
    ensures
        first is Pending,
        second matches ReadStep::Complete(frame) && {
            &&& frame.header.tag == Tag::Data
            &&& frame.header.stream_id == stream.id
            &&& frame.header.length == data@.len()
            &&& frame.body@ == data@
        },
{
    let messages = res->Ok_0@;
    let head = messages[0]@;
    law_data_frame_send(w, stream, data, res, h);
    law_advance(ReadState::Init, messages[0], first);
    assert(Seq::<u8>::empty() + head.take(12) =~= head);
    assert(head.skip(12).len() == 0);
    let state = first->Pending_0;
    law_advance(state, messages[1], second);
    assert(state->Body_buffer@ =~= Seq::<u8>::empty());
    assert(state->Body_buffer@ + data@ =~= data@);
}

} // verus!
