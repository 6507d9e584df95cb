//! Laws of how a session handles frames and events, in terms of the flags of a
//! frame and of what the session holds.

use crate::bytes::{be_u32, joined, strings};
use crate::channel::{data_channel_ends, stream_channel_ends};
use crate::frame::Frame;
use crate::header::{Header, StreamId, Tag};
use crate::laws::{framed, law_no_data_lost};
use crate::model::{optional, Verdict};
use crate::reader::{FrameEffects, SecioSessionReader, SessionEffects, SessionEvent};
use crate::session::{Action, ActionView, ControlCommand, Shutdown, StreamCommand};
use crate::session_laws::{ack, apart_from_streams, fin, foreign, rst, syn};
use crate::session_laws::{same_session, same_stream};
use crate::session_laws::{lemma_accepted, lemma_asked_for, lemma_given, lemma_one_stream_put};
use crate::session_laws::{lemma_opened_by, lemma_parts, lemma_same_contents, lemma_same_streams};
use crate::session_laws::{lemma_same_view, lemma_streams};
use crate::session_laws::{other_streams_unchanged, stream_accepted, stream_asked_for, stream_given};
use crate::session_laws::{stream_opened, streams_unchanged, unchanged, unchanged_stream};
use crate::stream::{Stream, StreamView};
use crate::wire_laws::{is_header, law_flag_bits};
use futures::channel::mpsc;
use vstd::prelude::*;

verus! {

/// The stream that an action says has been opened.
pub open spec fn opened_by(action: Action) -> Option<Stream> {
    match action {
        Action::New(s) => Some(s),
        _ => None,
    }
}

/// The frame that an action says should be sent.
pub open spec fn answer_of(action: Action) -> Option<Frame> {
    match action {
        Action::Nothing | Action::New(_) => None,
        Action::Update(f) => Some(f),
        Action::Ping(f) => Some(f),
        Action::Reset(f) => Some(f),
        Action::Terminate(f) => Some(f),
    }
}

/// The frame that a command asks to be sent.
pub open spec fn asked_by(command: Option<StreamCommand>) -> Option<Frame> {
    match command {
        Some(StreamCommand::SendFrame(f)) => Some(f),
        _ => None,
    }
}

/// The frame that answers: a header with the parts given, and no body.
pub open spec fn answers(answer: Option<Frame>, tag: Tag, flags: int, id: int, n: int) -> bool {
    &&& answer matches Some(f)
    &&& is_header(f.header, tag, flags, id, n)
    &&& f.body@.len() == 0
}

/// Whether the session knows the stream that a header names.
pub open spec fn knows(r: SecioSessionReader, h: Header) -> bool {
    r.streams@.contains_key(h.stream_id.0)
}

/// Whether the session has all the streams that it takes.
pub open spec fn at_limit(r: SecioSessionReader) -> bool {
    r.streams@.len() == r.config.max_num_streams
}

/// Whether the remote may open a stream with the ID that a header names.
pub open spec fn may_open(r: SecioSessionReader, h: Header) -> bool {
    match h.tag {
        Tag::Data => foreign(r.mode, h.stream_id.0),
        Tag::WindowUpdate => foreign(r.mode, h.stream_id.0),
        Tag::Ping => h.stream_id.0 == 0,
        Tag::GoAway => h.stream_id.0 == 0,
    }
}

/// What comes of a window update.
///
/// With RST, or for a known or finished stream, nothing. For an unknown stream
/// the remote is told to reset it. With SYN a stream is accepted, which a
/// subscriber is told of; a SYN that breaks the rules is answered with a
/// protocol error.
pub open spec fn window_update_handled(
    pre: SecioSessionReader,
    h: Header,
    post: SecioSessionReader,
    opened: Option<Stream>,
    announced: Option<Stream>,
    answer: Option<Frame>,
) -> bool {
    let key = h.stream_id.0;
    if !rst(h) && syn(h) && may_open(pre, h) && !knows(pre, h) && !at_limit(pre) {
        &&& opened matches Some(s)
        &&& stream_accepted(pre, post, key, pre.remote_stream_sender is Some, s, announced)
        &&& pre.remote_stream_sender is Some ==> data_channel_ends(
            10,
            post.streams@[key].data_sender->Some_0,
            announced->Some_0.data_receiver->Some_0,
        )
        &&& answer is None
    } else {
        &&& unchanged(pre, post)
        &&& opened is None
        &&& announced is None
        &&& if rst(h) {
            answer is None
        } else if syn(h) {
            answers(answer, Tag::GoAway, 0, 0, 1)
        } else if knows(pre, h) || fin(h) {
            answer is None
        } else {
            answers(answer, Tag::Data, 8, key as int, 0)
        }
    }
}

/// What comes of data on a known stream. With a user, the user is sent what
/// was cached, if anything, then the length field and the body. Without one,
/// length field and body are cached behind what was cached before.
pub open spec fn data_taken(
    before: Stream,
    after: Stream,
    deliveries: Seq<Vec<u8>>,
    length: u32,
    body: Seq<u8>,
) -> bool {
    let n = deliveries.len() as int;
    &&& joined(strings(deliveries)) + after.cache@ == before.cache@ + be_u32(length) + body
    &&& if before.data_sender is Some {
        &&& after.cache@.len() == 0
        &&& n == if before.cache@.len() == 0 { 2int } else { 3 }
        &&& deliveries[n - 1]@ == body
        &&& deliveries[n - 2]@ == be_u32(length)
        &&& n == 3 ==> deliveries[0]@ == before.cache@
    } else {
        n == 0
    }
    &&& same_stream(before, after)
    &&& after.data_sender == before.data_sender
    &&& after.data_receiver == before.data_receiver
    &&& (after.pending is Some <==> before.pending is Some)
}

/// What comes of a data frame: as with a window update, but that data on a
/// known stream is taken, that a first body beyond the default credit breaks
/// the rules, that a session at its limit answers with an internal error, and
/// that no subscriber is told.
pub open spec fn data_handled(
    pre: SecioSessionReader,
    frame: Frame,
    post: SecioSessionReader,
    opened: Option<Stream>,
    answer: Option<Frame>,
    deliveries: Seq<Vec<u8>>,
) -> bool {
    let h = frame.header;
    let key = h.stream_id.0;
    let lawful = foreign(pre.mode, key) && frame.body@.len() <= 262144 && !knows(pre, h);
    if !rst(h) && !syn(h) && knows(pre, h) {
        &&& post.streams@.contains_key(key)
        &&& data_taken(pre.streams@[key], post.streams@[key], deliveries, h.length, frame.body@)
        &&& other_streams_unchanged(pre, post, key)
        &&& apart_from_streams(pre, post)
        &&& opened is None
        &&& answer is None
    } else if !rst(h) && syn(h) && lawful && !at_limit(pre) {
        &&& opened matches Some(s)
        &&& stream_accepted(pre, post, key, false, s, None)
        &&& answer is None
        &&& deliveries.len() == 0
    } else {
        &&& unchanged(pre, post)
        &&& opened is None
        &&& deliveries.len() == 0
        &&& if rst(h) {
            answer is None
        } else if syn(h) {
            answers(answer, Tag::GoAway, 0, 0, if lawful { 2int } else { 1 })
        } else if fin(h) {
            answer is None
        } else {
            answers(answer, Tag::Data, 8, key as int, 0)
        }
    }
}

/// What comes of a ping: without ACK it is answered with the same nonce if it
/// is for the session or one of its streams, else with a reset.
pub open spec fn ping_handled(r: SecioSessionReader, h: Header, answer: Option<Frame>) -> bool {
    if ack(h) {
        answer is None
    } else if h.stream_id.0 == 0 || knows(r, h) {
        answers(answer, Tag::Ping, 2, 0, h.length as int)
    } else {
        answers(answer, Tag::Data, 8, h.stream_id.0 as int, 0)
    }
}

/// The kind of an action goes by the frame that it asks for.
pub open spec fn fits(action: Action) -> bool {
    match action {
        Action::Nothing => true,
        Action::New(_) => true,
        Action::Update(_) => false,
        Action::Ping(f) => f.header.tag == Tag::Ping,
        Action::Reset(f) => f.header.tag == Tag::Data,
        Action::Terminate(f) => f.header.tag == Tag::GoAway,
    }
}

/// A frame as its view shows it.
proof fn lemma_frame(f: Frame)
    ensures
        f@.header == f.header,
        f@.body == f.body@,
{
}

/// The flags that a session sets on a header without any.
proof fn lemma_single_flags()
    ensures
        0u16 | 2u16 == 2u16,
        0u16 | 8u16 == 8u16,
{
    assert(0u16 | 2u16 == 2u16) by (bit_vector);
    assert(0u16 | 8u16 == 8u16) by (bit_vector);
}

/// A session that has handled a window update.
proof fn lemma_window_update(
    pre: SecioSessionReader,
    h: Header,
    post: SecioSessionReader,
    opened: Option<Stream>,
    announced: Option<Stream>,
    answer: Option<Frame>,
)
    requires
        pre@.window_update_effect(h, post@, optional(opened), optional(announced)),
        match pre@.judge_window_update(h).answer(h.stream_id) {
            Some(f) => answer matches Some(g) && g@ == f,
            None => answer is None,
        },
    ensures
        window_update_handled(pre, h, post, opened, announced, answer),
{
    law_flag_bits(h.flags.0);
    lemma_single_flags();
    lemma_parts(pre);
    lemma_streams(pre);
    if let Some(f) = answer {
        lemma_frame(f);
    }
    assert(pre@.streams.contains_key(h.stream_id.0) <==> knows(pre, h));
    if pre@.judge_window_update(h) is Accept {
        let s = opened->Some_0;
        if pre@.remote_stream_sender is Some {
            let user = announced->Some_0;
            assert(optional(announced) == Some(user@));
            assert(s@.data_sender == s.data_sender);
            assert(user@.data_receiver == user.data_receiver);
            let channel = Some((s.data_sender->Some_0, user.data_receiver->Some_0));
            lemma_accepted(pre, post, h.stream_id, channel, s, announced);
        } else {
            lemma_accepted(pre, post, h.stream_id, None, s, announced);
        }
    } else {
        lemma_same_contents(pre, post);
    }
}

/// A stream that has taken in data.
pub(crate) proof fn lemma_data_taken(
    before: Stream,
    after: Stream,
    deliveries: Seq<Vec<u8>>,
    length: u32,
    body: Seq<u8>,
)
    requires
        after@ == before@.fed(length, body),
        strings(deliveries) == before@.deliveries(length, body),
    ensures
        data_taken(before, after, deliveries, length, body),
{
    let s = strings(deliveries);
    let n = deliveries.len() as int;
    law_no_data_lost(before@, length, body);
    assert(before@.cache == before.cache@ && after@.cache == after.cache@);
    assert(before.cache@ + framed(length, body) =~= before.cache@ + be_u32(length) + body);
    assert(s.len() == n);
    assert forall|i: int| 0 <= i < n implies s[i] == (#[trigger] deliveries[i])@ by {}
    assert(before@.id == before.id && after@.id == after.id);
    assert(after@.pending == before@.pending);
    if n >= 2 {
        assert(s[n - 1] == deliveries[n - 1]@);
        assert(s[n - 2] == deliveries[n - 2]@);
        assert(s[0] == deliveries[0]@);
    }
}

/// A session that has handled a data frame.
proof fn lemma_data(
    pre: SecioSessionReader,
    frame: Frame,
    post: SecioSessionReader,
    opened: Option<Stream>,
    answer: Option<Frame>,
    deliveries: Seq<Vec<u8>>,
)
    requires
        pre@.data_effect(frame@, post@, optional(opened), strings(deliveries)),
        match pre@.judge_data(frame@).answer(frame.header.stream_id) {
            Some(f) => answer matches Some(g) && g@ == f,
            None => answer is None,
        },
    ensures
        data_handled(pre, frame, post, opened, answer, deliveries),
{
    let h = frame.header;
    let key = h.stream_id.0;
    law_flag_bits(h.flags.0);
    lemma_single_flags();
    lemma_frame(frame);
    lemma_parts(pre);
    lemma_parts(post);
    lemma_streams(pre);
    lemma_streams(post);
    if let Some(f) = answer {
        lemma_frame(f);
    }
    assert(strings(deliveries).len() == deliveries.len());
    assert(pre@.streams.contains_key(key) <==> knows(pre, h));
    match pre@.judge_data(frame@) {
        Verdict::Accept => {
            lemma_accepted(pre, post, h.stream_id, None, opened->Some_0, None);
        },
        Verdict::Known => {
            assert(post@.streams.contains_key(key));
            lemma_one_stream_put(pre, post, key);
            lemma_data_taken(
                pre.streams@[key],
                post.streams@[key],
                deliveries,
                h.length,
                frame.body@,
            );
        },
        _ => {
            lemma_same_contents(pre, post);
        },
    }
}

/// The answer to a ping as the session gives it.
proof fn lemma_ping(r: SecioSessionReader, h: Header, answer: Option<Frame>)
    requires
        match r@.ping_action(h) {
            ActionView::Ping(f) => answer matches Some(g) && g@ == f,
            ActionView::Reset(f) => answer matches Some(g) && g@ == f,
            _ => answer is None,
        },
    ensures
        ping_handled(r, h, answer),
{
    law_flag_bits(h.flags.0);
    lemma_single_flags();
    lemma_streams(r);
    if let Some(f) = answer {
        lemma_frame(f);
    }
    assert(r@.streams.contains_key(h.stream_id.0) <==> knows(r, h));
}

/// A window update is handled by its flags, whether the session knows the
/// stream, and whether there is a subscriber.
pub proof fn law_on_window_update_frame(
    r: &mut SecioSessionReader,
    frame: Frame,
    res: (Action, Option<Stream>),
)
    requires
        call_ensures(SecioSessionReader::on_window_update_frame, (r, frame), res),
    ensures
        window_update_handled(
            *old(r),
            frame.header,
            *final(r),
            opened_by(res.0),
            res.1,
            answer_of(res.0),
        ),
        fits(res.0),
{
    let verdict = old(r)@.judge_window_update(frame.header);
    lemma_action(res.0, verdict, frame.header.stream_id);
    lemma_window_update(
        *old(r),
        frame.header,
        *final(r),
        opened_by(res.0),
        res.1,
        answer_of(res.0),
    );
}

/// An action as a verdict asks for it.
proof fn lemma_action(action: Action, verdict: Verdict, id: StreamId)
    requires
        verdict matches Verdict::Refuse(f) ==> f.header.tag == Tag::GoAway,
        exists|inbound: Option<StreamView>| action@ == #[trigger] verdict.action(id, inbound),
    ensures
        match verdict.answer(id) {
            Some(f) => answer_of(action) matches Some(g) && g@ == f,
            None => answer_of(action) is None,
        },
        verdict is Accept <==> opened_by(action) is Some,
        optional(opened_by(action)) == if verdict is Accept {
            Some(action@->New_0)
        } else {
            None
        },
        fits(action),
{
    if let Some(f) = answer_of(action) {
        lemma_frame(f);
    }
}

/// Data is handled by the flags of the frame, and by whether the session knows
/// the stream and the stream has a user.
pub proof fn law_on_data(
    r: &mut SecioSessionReader,
    frame: Frame,
    res: (Action, Vec<Vec<u8>>),
)
    requires
        call_ensures(SecioSessionReader::on_data, (r, frame), res),
    ensures
        data_handled(
            *old(r),
            frame,
            *final(r),
            opened_by(res.0),
            answer_of(res.0),
            res.1@,
        ),
        fits(res.0),
{
    let verdict = old(r)@.judge_data(frame@);
    lemma_frame(frame);
    lemma_action(res.0, verdict, frame.header.stream_id);
    lemma_data(*old(r), frame, *final(r), opened_by(res.0), answer_of(res.0), res.1@);
}

/// A ping changes nothing, and is answered by whom it is for.
pub proof fn law_on_ping_frame(r: &mut SecioSessionReader, frame: Frame, action: Action)
    requires
        call_ensures(SecioSessionReader::on_ping_frame, (r, frame), action),
    ensures
        ping_handled(*old(r), frame.header, answer_of(action)),
        opened_by(action) is None,
        fits(action),
        unchanged(*old(r), *final(r)),
{
    lemma_ping(*old(r), frame.header, answer_of(action));
    lemma_same_contents(*old(r), *final(r));
    if let Some(f) = answer_of(action) {
        lemma_frame(f);
    }
}

/// What comes of a frame, by its tag. A go-away frame has no consequence.
pub open spec fn frame_handled(
    pre: SecioSessionReader,
    frame: Frame,
    post: SecioSessionReader,
    effects: FrameEffects,
) -> bool {
    let answer = asked_by(effects.command);
    &&& effects.command is Some <==> answer is Some
    &&& match frame.header.tag {
        Tag::Data => {
            &&& data_handled(
                pre,
                frame,
                post,
                effects.inbound,
                answer,
                effects.deliveries@,
            )
            &&& effects.announced is None
        },
        Tag::WindowUpdate => {
            &&& window_update_handled(
                pre,
                frame.header,
                post,
                effects.inbound,
                effects.announced,
                answer,
            )
            &&& effects.deliveries@.len() == 0
        },
        Tag::Ping => {
            &&& ping_handled(pre, frame.header, answer)
            &&& unchanged(pre, post)
            &&& effects.inbound is None
            &&& effects.announced is None
            &&& effects.deliveries@.len() == 0
        },
        Tag::GoAway => {
            &&& unchanged(pre, post)
            &&& effects.inbound is None
            &&& effects.announced is None
            &&& effects.deliveries@.len() == 0
            &&& answer is None
        },
    }
}

/// A session that has handled a frame.
proof fn lemma_frame_handled(
    pre: SecioSessionReader,
    frame: Frame,
    post: SecioSessionReader,
    effects: FrameEffects,
)
    requires
        pre@.frame_effect(
            frame@,
            post@,
            optional(effects.inbound),
            optional(effects.announced),
            strings(effects.deliveries@),
            effects.command,
        ),
    ensures
        frame_handled(pre, frame, post, effects),
{
    let answer = asked_by(effects.command);
    lemma_frame(frame);
    assert(strings(effects.deliveries@).len() == effects.deliveries@.len());
    match frame.header.tag {
        Tag::Data => {
            lemma_data(pre, frame, post, effects.inbound, answer, effects.deliveries@);
        },
        Tag::WindowUpdate => {
            lemma_window_update(
                pre,
                frame.header,
                post,
                effects.inbound,
                effects.announced,
                answer,
            );
        },
        Tag::Ping => {
            lemma_ping(pre, frame.header, answer);
            lemma_same_contents(pre, post);
        },
        Tag::GoAway => {
            lemma_same_contents(pre, post);
        },
    }
}

/// A frame is handled by its tag, and what it calls for is sent as a command.
pub proof fn law_on_frame(r: &mut SecioSessionReader, frame: Frame, effects: FrameEffects)
    requires
        call_ensures(SecioSessionReader::on_frame, (r, frame), effects),
    ensures
        frame_handled(*old(r), frame, *final(r), effects),
{
    lemma_frame_handled(*old(r), frame, *final(r), effects);
}

/// No data on a known stream is lost, whichever end opened the stream: what is
/// delivered, and then what the session has cached afterwards, is what it had
/// cached before, the length of the frame and its body.
pub proof fn law_data_on_known_stream(
    r: &mut SecioSessionReader,
    frame: Frame,
    res: (Action, Vec<Vec<u8>>),
    s: &mut SecioSessionReader,
    effects: FrameEffects,
)
    requires
        call_ensures(SecioSessionReader::on_data, (r, frame), res),
        call_ensures(SecioSessionReader::on_frame, (s, frame), effects),
        frame.header.tag == Tag::Data,
        frame.header.flags.0 % 2 == 0,
        frame.header.flags.0 / 8 % 2 == 0,
        old(r).streams@.contains_key(frame.header.stream_id.0),
        old(s).streams@.contains_key(frame.header.stream_id.0),
    ensures
        final(r).streams@.contains_key(frame.header.stream_id.0),
        joined(strings(res.1@)) + final(r).streams@[frame.header.stream_id.0].cache@ == old(
            r,
        ).streams@[frame.header.stream_id.0].cache@ + be_u32(frame.header.length)
            + frame.body@,
        final(s).streams@.contains_key(frame.header.stream_id.0),
        joined(strings(effects.deliveries@)) + final(s).streams@[frame.header.stream_id.0].cache@
            == old(s).streams@[frame.header.stream_id.0].cache@ + be_u32(frame.header.length)
            + frame.body@,
{
    law_on_data(r, frame, res);
    law_on_frame(s, frame, effects);
}

/// A subscriber is told of each stream that a window update opens, in either
/// mode, and gets the receiving end for its data.
pub proof fn law_subscriber_is_told(
    r: &mut SecioSessionReader,
    frame: Frame,
    res: (Action, Option<Stream>),
    key: u32,
)
    requires
        call_ensures(SecioSessionReader::on_window_update_frame, (r, frame), res),
        old(r).remote_stream_sender is Some,
        !old(r).streams@.contains_key(key),
        final(r).streams@.contains_key(key),
    ensures
        res.1 matches Some(user) && {
            &&& user.id == StreamId(key)
            &&& user.data_receiver is Some
            &&& final(r).streams@[key].data_sender is Some
            &&& data_channel_ends(
                10,
                final(r).streams@[key].data_sender->Some_0,
                user.data_receiver->Some_0,
            )
        },
        res.0 matches Action::New(s) && s.id == StreamId(key),
{
    law_on_window_update_frame(r, frame, res);
    if key != frame.header.stream_id.0 {
        assert(old(r).streams@.contains_key(key) <==> final(r).streams@.contains_key(key));
    }
    assert(key == frame.header.stream_id.0);
}

/// A ping without ACK for the session or for one of its streams is answered,
/// in either mode, with ACK and its own nonce, and the answer is sent.
pub proof fn law_ping_is_answered(
    r: &mut SecioSessionReader,
    frame: Frame,
    action: Action,
    s: &mut SecioSessionReader,
    effects: FrameEffects,
)
    requires
        call_ensures(SecioSessionReader::on_ping_frame, (r, frame), action),
        call_ensures(SecioSessionReader::on_frame, (s, frame), effects),
        frame.header.tag == Tag::Ping,
        frame.header.flags.0 / 2 % 2 == 0,
        frame.header.stream_id.0 == 0 || (old(r).streams@.contains_key(frame.header.stream_id.0)
            && old(s).streams@.contains_key(frame.header.stream_id.0)),
    ensures
        action matches Action::Ping(pong) && is_header(
            pong.header,
            Tag::Ping,
            2,
            0,
            frame.header.length as int,
        ) && pong.body@.len() == 0,
        effects.command matches Some(StreamCommand::SendFrame(pong)) && is_header(
            pong.header,
            Tag::Ping,
            2,
            0,
            frame.header.length as int,
        ) && pong.body@.len() == 0,
{
    law_on_ping_frame(r, frame, action);
    law_on_frame(s, frame, effects);
}

/// What comes of taking on a subscriber who listens to the channel given: it
/// is handed every stream of the other end once, each over a data channel
/// whose other end the session keeps, and the streams of this end are left
/// alone.
pub open spec fn subscriber_taken_on(
    pre: SecioSessionReader,
    post: SecioSessionReader,
    handed: Seq<Stream>,
) -> bool {
    &&& same_session(pre, post)
    &&& post.next_id == pre.next_id
    &&& post.shutdown == pre.shutdown
    &&& forall|k: u32|
        {
            &&& #[trigger] pre.streams@.contains_key(k) <==> post.streams@.contains_key(k)
            &&& pre.streams@.contains_key(k) && !foreign(pre.mode, k) ==> unchanged_stream(
                pre.streams@[k],
                post.streams@[k],
            )
            &&& pre.streams@.contains_key(k) && foreign(pre.mode, k) ==> exists|i: int|
                0 <= i < handed.len() && stream_given(
                    pre.streams@[k],
                    #[trigger] handed[i],
                    post.streams@[k],
                ) && data_channel_ends(
                    10,
                    post.streams@[k].data_sender->Some_0,
                    handed[i].data_receiver->Some_0,
                )
        }
}

/// Every stream that a subscriber is handed is one of the other end, and none
/// is handed twice.
pub open spec fn handed_once(pre: SecioSessionReader, handed: Seq<Stream>) -> bool {
    &&& forall|i: int|
        0 <= i < handed.len() ==> {
            let k = (#[trigger] handed[i]).id.0;
            pre.streams@.contains_key(k) && foreign(pre.mode, k)
        }
    &&& forall|i: int, j: int|
        0 <= i < j < handed.len() ==> (#[trigger] handed[i]).id != (#[trigger] handed[j]).id
}

/// A session that has taken on a subscriber.
proof fn lemma_subscribed(
    pre: SecioSessionReader,
    post: SecioSessionReader,
    tx: mpsc::Sender<Stream>,
    handed: Seq<Stream>,
)
    requires
        pre@.subscribes(tx, post@, handed),
    ensures
        subscriber_taken_on(pre, post, handed),
        post.remote_stream_sender == Some(tx),
        pre@.wf() ==> handed_once(pre, handed),
{
    lemma_parts(pre);
    lemma_parts(post);
    lemma_streams(pre);
    lemma_streams(post);
    let keys = choose|keys: Seq<u32>|
        {
            &&& keys.no_duplicates()
            &&& forall|k: u32| #[trigger] keys.contains(k) <==> pre@.remote_key(k)
            &&& #[trigger] pre@.hands_out(keys, post@.streams, handed)
        };
    assert forall|k: u32|
        {
            &&& #[trigger] pre.streams@.contains_key(k) <==> post.streams@.contains_key(k)
            &&& pre.streams@.contains_key(k) && !foreign(pre.mode, k) ==> unchanged_stream(
                pre.streams@[k],
                post.streams@[k],
            )
            &&& pre.streams@.contains_key(k) && foreign(pre.mode, k) ==> exists|i: int|
                0 <= i < handed.len() && stream_given(
                    pre.streams@[k],
                    #[trigger] handed[i],
                    post.streams@[k],
                ) && data_channel_ends(
                    10,
                    post.streams@[k].data_sender->Some_0,
                    handed[i].data_receiver->Some_0,
                )
        } by {
        assert(pre@.streams.dom().contains(k) <==> post@.streams.dom().contains(k));
        assert(pre@.streams.contains_key(k) <==> post@.streams.contains_key(k));
        if pre.streams@.contains_key(k) {
            assert(keys.contains(k) <==> pre@.remote_key(k));
            if foreign(pre.mode, k) {
                let i = choose|i: int| 0 <= i < keys.len() && keys[i] == k;
                let user = handed[i];
                assert(user.data_receiver is Some);
                let tx = post@.streams[k].data_sender->Some_0;
                lemma_given(
                    pre.streams@[k],
                    user,
                    post.streams@[k],
                    tx,
                    user.data_receiver->Some_0,
                );
            } else {
                lemma_same_view(pre.streams@[k], post.streams@[k]);
            }
        }
    }
    if pre@.wf() {
        assert forall|i: int| 0 <= i < handed.len() implies {
            let k = (#[trigger] handed[i]).id.0;
            k == keys[i] && pre.streams@.contains_key(k) && foreign(pre.mode, k)
        } by {
            assert(keys.contains(keys[i]));
            assert(pre@.remote_key(keys[i]));
            assert(handed[i]@.id == handed[i].id);
        }
    }
}

/// A subscriber is handed every stream of the other end once, and is told of
/// later ones in the channel that it has the receiving end of.
pub proof fn law_subscribe_stream(
    r: &mut SecioSessionReader,
    res: (mpsc::Receiver<Stream>, Vec<Stream>),
)
    requires
        call_ensures(SecioSessionReader::subscribe_stream, (r,), res),
    ensures
        subscriber_taken_on(*old(r), *final(r), res.1@),
        final(r).remote_stream_sender is Some,
        stream_channel_ends(10, final(r).remote_stream_sender->Some_0, res.0),
        old(r)@.wf() ==> handed_once(*old(r), res.1@),
{
    lemma_subscribed(*old(r), *final(r), final(r).remote_stream_sender->Some_0, res.1@);
}

/// A subscriber with a channel of its own is handed every stream of the other
/// end once.
pub proof fn law_subscribe_with(
    r: &mut SecioSessionReader,
    tx: mpsc::Sender<Stream>,
    handed: Vec<Stream>,
)
    requires
        call_ensures(SecioSessionReader::subscribe_with, (r, tx), handed),
    ensures
        subscriber_taken_on(*old(r), *final(r), handed@),
        final(r).remote_stream_sender == Some(tx),
        old(r)@.wf() ==> handed_once(*old(r), handed@),
{
    lemma_subscribed(*old(r), *final(r), tx, handed@);
}

/// An event is handled by what it is: a frame as a frame, a request as the
/// request, with the reply for whoever asked. A command to close the
/// connection starts the shutdown; other events change nothing.
pub proof fn law_on_event(
    r: &mut SecioSessionReader,
    event: SessionEvent,
    effects: SessionEffects,
)
    requires
        event matches SessionEvent::Control(Some(ControlCommand::OpenStream(_))) ==> !foreign(
            old(r).mode,
            old(r).next_id,
        ) && old(r).next_id + 2 <= 0xffff_ffff,
        call_ensures(SecioSessionReader::on_event, (r, event), effects),
    ensures
        match event {
            SessionEvent::Received(Ok(frame)) => {
                &&& effects matches SessionEffects::Handled(fx)
                &&& frame_handled(*old(r), frame, *final(r), fx)
            },
            SessionEvent::Control(Some(ControlCommand::OpenStream(tx))) => {
                &&& effects matches SessionEffects::Opened { reply_to, reply, command }
                &&& reply_to == tx
                &&& reply matches Ok(user)
                &&& stream_opened(*old(r), *final(r), user, command)
                &&& data_channel_ends(
                    10,
                    final(r).streams@[old(r).next_id].data_sender->Some_0,
                    user.data_receiver->Some_0,
                )
            },
            SessionEvent::Control(Some(ControlCommand::GetStream((key, tx)))) => {
                &&& effects matches SessionEffects::Found { reply_to, reply }
                &&& reply_to == tx
                &&& reply is Ok <==> old(r).streams@.contains_key(key) && foreign(
                    old(r).mode,
                    key,
                )
                &&& stream_asked_for(*old(r), *final(r), key, reply)
            },
            SessionEvent::Control(Some(ControlCommand::SubscribeStream(tx))) => {
                &&& effects matches SessionEffects::Subscribed { reply_to, reply, streams }
                &&& reply_to == tx
                &&& reply matches Ok(receiver)
                &&& subscriber_taken_on(*old(r), *final(r), streams@)
                &&& final(r).remote_stream_sender is Some
                &&& stream_channel_ends(
                    10,
                    final(r).remote_stream_sender->Some_0,
                    receiver,
                )
                &&& old(r)@.wf() ==> handed_once(*old(r), streams@)
            },
            SessionEvent::Control(Some(ControlCommand::CloseConnection(_))) => {
                &&& effects is Idle
                &&& same_session(*old(r), *final(r))
                &&& old(r).remote_stream_sender == final(r).remote_stream_sender
                &&& old(r).next_id == final(r).next_id
                &&& streams_unchanged(*old(r), *final(r))
                &&& final(r).shutdown == if old(r).shutdown is NotStarted {
                    Shutdown::InProgress
                } else {
                    old(r).shutdown
                }
            },
            SessionEvent::Received(Err(_)) => effects is Idle && unchanged(*old(r), *final(r)),
            SessionEvent::Control(None) => effects is Idle && unchanged(*old(r), *final(r)),
        },
{
    let pre = *old(r);
    let post = *final(r);
    lemma_parts(pre);
    lemma_parts(post);
    match event {
        SessionEvent::Received(Ok(frame)) => {
            lemma_frame_handled(pre, frame, post, effects->Handled_0);
        },
        SessionEvent::Control(Some(ControlCommand::OpenStream(_))) => {
            if let SessionEffects::Opened { reply, command, .. } = effects {
                lemma_opened_by(pre, post, reply->Ok_0, command);
            }
        },
        SessionEvent::Control(Some(ControlCommand::GetStream((key, _)))) => {
            if let SessionEffects::Found { reply, .. } = effects {
                lemma_asked_for(pre, post, key, reply);
            }
        },
        SessionEvent::Control(Some(ControlCommand::SubscribeStream(_))) => {
            if let SessionEffects::Subscribed { streams, .. } = effects {
                lemma_subscribed(pre, post, post.remote_stream_sender->Some_0, streams@);
            }
        },
        SessionEvent::Control(Some(ControlCommand::CloseConnection(_))) => {
            lemma_same_streams(pre, post);
        },
        _ => {
            lemma_same_contents(pre, post);
        },
    }
}

} // verus!
