//! Laws that relate several parts of the library.

use crate::bytes::{be_u32, joined};
use crate::config::DEFAULT_CREDIT;
use crate::frame::{internal_error_frame, protocol_error_frame, Frame, FrameView};
use crate::header::{decoded, header_bytes, plain_header, Header, StreamId, Tag, ACK, HEADER_SIZE, RST, SYN};
use crate::header::{law_decode_encode, law_flag_set, law_one_flag_valid, lemma_flags_distinct};
use crate::io::{overlaid, ReadStateView, ReadStepView};
use crate::model::{commands, open_frame, pong_frame, reset_frame, SessionView, Verdict};
use crate::reader::{handles, SessionEffects, SessionEvent};
use crate::session::{ActionView, ControlCommand, Mode, StreamCommand};
use crate::stream::{Flag, StreamView};
use crate::writer::frame_messages;
use futures::channel::mpsc;
use vstd::prelude::*;

verus! {

/// What becomes of reading a frame from a list of chunks, of which no more are
/// read than the frame needs.
pub open spec fn received(state: ReadStateView, chunks: Seq<Seq<u8>>) -> ReadStepView
    decreases chunks.len(),
{
    if chunks.len() == 0 {
        ReadStepView::Pending(state)
    } else {
        match state.step(chunks.first()) {
            ReadStepView::Pending(next) => received(next, chunks.drop_first()),
            other => other,
        }
    }
}

/// Whether reading can go on from each state in which a chunk is read.
pub open spec fn readable(state: ReadStateView, chunks: Seq<Seq<u8>>) -> bool
    decreases chunks.len(),
{
    chunks.len() > 0 ==> {
        &&& state.wf()
        &&& match state.step(chunks.first()) {
            ReadStepView::Pending(next) => readable(next, chunks.drop_first()),
            _ => true,
        }
    }
}

/// However the rest of a body is cut into chunks, the body that is received is
/// what had been read and the chunks, one after the other.
pub proof fn law_body_from_chunks(header: Header, buffer: Seq<u8>, chunks: Seq<Seq<u8>>)
    requires
        chunks.len() > 0,
        buffer.len() + joined(chunks).len() == header.length,
    ensures
        readable(ReadStateView::Body { header, offset: buffer.len(), buffer }, chunks),
        received(ReadStateView::Body { header, offset: buffer.len(), buffer }, chunks)
            == ReadStepView::Complete(FrameView { header, body: buffer + joined(chunks) }),
    decreases chunks.len(),
{
    let state = ReadStateView::Body { header, offset: buffer.len(), buffer };
    let first = chunks.first();
    let rest = chunks.drop_first();
    assert(joined(chunks) == first + joined(rest));
    if buffer.len() + first.len() == header.length {
        assert(joined(rest) =~= Seq::empty());
        assert(first + joined(rest) =~= first);
    } else {
        if rest.len() == 0 {
            assert(joined(rest) =~= Seq::empty());
        }
        law_body_from_chunks(header, buffer + first, rest);
        assert(buffer + first + joined(rest) =~= buffer + (first + joined(rest)));
    }
}

/// Where a chunk completes a header, its front is the end of the header, and
/// its rest the beginning of the body.
proof fn lemma_header_parts(frame: FrameView, begun: Seq<u8>, chunk: Seq<u8>, rest: Seq<u8>)
    requires
        begun.len() <= HEADER_SIZE,
        chunk.len() >= HEADER_SIZE - begun.len(),
        begun + (chunk + rest) == header_bytes(frame.header) + frame.body,
    ensures
        begun + chunk.take(HEADER_SIZE - begun.len()) == header_bytes(frame.header),
        frame.body == chunk.skip(HEADER_SIZE - begun.len()) + rest,
{
    let head = header_bytes(frame.header);
    let missing = HEADER_SIZE - begun.len();
    let all = begun + (chunk + rest);
    assert(all.take(HEADER_SIZE as int) =~= begun + chunk.take(missing));
    assert((head + frame.body).take(HEADER_SIZE as int) =~= head);
    assert(all.skip(HEADER_SIZE as int) =~= chunk.skip(missing) + rest);
    assert((head + frame.body).skip(HEADER_SIZE as int) =~= frame.body);
}

/// A chunk that completes the header of a frame completes the frame where all
/// of it has been read, and else begins its body.
proof fn lemma_header_completed(
    frame: FrameView,
    offset: nat,
    buffer: Seq<u8>,
    chunk: Seq<u8>,
    rest: Seq<u8>,
)
    requires
        frame.sendable(),
        offset <= HEADER_SIZE,
        buffer.len() == HEADER_SIZE,
        chunk.len() >= HEADER_SIZE - offset,
        buffer.take(offset as int) + (chunk + rest) == header_bytes(frame.header) + frame.body,
    ensures
        ({
            let begin = chunk.skip(HEADER_SIZE - offset);
            let next = (ReadStateView::Header { offset, buffer }).step(chunk);
            &&& frame.body == begin + rest
            &&& if rest.len() == 0 || begin.len() == frame.header.length {
                rest.len() == 0 && next == ReadStepView::Complete(frame)
            } else {
                &&& begin.len() + rest.len() == frame.header.length
                &&& next == ReadStepView::Pending(
                    ReadStateView::Body {
                        header: frame.header,
                        offset: begin.len(),
                        buffer: begin,
                    },
                )
            }
        }),
{
    let begin = chunk.skip(HEADER_SIZE - offset);
    lemma_header_parts(frame, buffer.take(offset as int), chunk, rest);
    law_decode_encode(frame.header);
    if rest.len() == 0 {
        assert(begin + rest =~= begin);
    }
    if frame.body.len() == 0 {
        assert(frame.body =~= Seq::empty());
    }
}

/// However the rest of a header and the body behind it are cut into chunks,
/// the header is put together at its offset, and the frame is received as it
/// was.
pub proof fn law_header_from_chunks(
    frame: FrameView,
    offset: nat,
    buffer: Seq<u8>,
    chunks: Seq<Seq<u8>>,
)
    requires
        frame.sendable(),
        offset <= HEADER_SIZE,
        buffer.len() == HEADER_SIZE,
        chunks.len() > 0,
        buffer.take(offset as int) + joined(chunks) == header_bytes(frame.header) + frame.body,
    ensures
        readable(ReadStateView::Header { offset, buffer }, chunks),
        received(ReadStateView::Header { offset, buffer }, chunks) == ReadStepView::Complete(
            frame,
        ),
    decreases chunks.len(),
{
    let state = ReadStateView::Header { offset, buffer };
    let begun = buffer.take(offset as int);
    let first = chunks.first();
    let rest = chunks.drop_first();
    let missing = HEADER_SIZE - offset;
    assert(joined(chunks) == first + joined(rest));
    if first.len() < missing {
        let more = overlaid(buffer, offset, first);
        let reached = offset + first.len();
        assert(more.take(reached as int) =~= begun + first);
        assert(begun + first + joined(rest) =~= begun + (first + joined(rest)));
        if rest.len() == 0 {
            assert(joined(rest) =~= Seq::empty());
        }
        law_header_from_chunks(frame, reached, more, rest);
        assert(state.step(first) == ReadStepView::Pending(
            ReadStateView::Header { offset: reached, buffer: more },
        ));
    } else {
        lemma_header_completed(frame, offset, buffer, first, joined(rest));
        if joined(rest).len() > 0 {
            law_body_from_chunks(frame.header, first.skip(missing), rest);
        }
    }
}

/// However the bytes of a frame are cut into chunks, the frame is received as
/// it was.
pub proof fn law_frame_from_chunks(frame: FrameView, chunks: Seq<Seq<u8>>)
    requires
        frame.sendable(),
        joined(chunks) == header_bytes(frame.header) + frame.body,
    ensures
        readable(ReadStateView::Init, chunks),
        received(ReadStateView::Init, chunks) == ReadStepView::Complete(frame),
{
    let zeros = Seq::new(HEADER_SIZE as nat, |i: int| 0u8);
    assert(chunks.len() > 0) by {
        assert(header_bytes(frame.header).len() == HEADER_SIZE);
    }
    assert(zeros.take(0) + joined(chunks) =~= joined(chunks));
    law_header_from_chunks(frame, 0, zeros, chunks);
    assert(ReadStateView::Init.step(chunks.first()) == (ReadStateView::Header {
        offset: 0,
        buffer: zeros,
    }).step(chunks.first()));
}

/// The bytes of a list of two strings.
proof fn lemma_joined_two(a: Seq<u8>, b: Seq<u8>)
    ensures
        joined(seq![a, b]) == a + b,
{
    reveal_with_fuel(joined, 3);
    assert(seq![a, b].drop_first() =~= seq![b]);
    assert(seq![b].drop_first() =~= Seq::empty());
    assert(joined(seq![a, b]) =~= a + b);
}

/// The messages of a frame hold its header and its body.
pub(crate) proof fn lemma_joined_messages(frame: FrameView)
    ensures
        joined(frame_messages(frame)) == header_bytes(frame.header) + frame.body,
{
    let messages = frame_messages(frame);
    let head = header_bytes(frame.header);
    if frame.body.len() > 0 {
        lemma_joined_two(head, frame.body);
    } else {
        assert(messages.drop_first() =~= Seq::empty());
        reveal_with_fuel(joined, 2);
        assert(joined(messages) =~= head + frame.body);
    }
}

/// A frame that is sent is received as it was, when each message arrives as
/// one chunk.
pub proof fn law_send_receive(frame: FrameView)
    requires
        frame.sendable(),
    ensures
        readable(ReadStateView::Init, frame_messages(frame)),
        received(ReadStateView::Init, frame_messages(frame)) == ReadStepView::Complete(frame),
{
    lemma_joined_messages(frame);
    law_frame_from_chunks(frame, frame_messages(frame));
}

/// The frames that are received from a list of chunks. A frame that is
/// complete or has failed is followed by the next one.
pub open spec fn all_received(state: ReadStateView, chunks: Seq<Seq<u8>>) -> Seq<FrameView>
    decreases chunks.len(),
{
    if chunks.len() == 0 {
        Seq::empty()
    } else {
        match state.step(chunks.first()) {
            ReadStepView::Pending(next) => all_received(next, chunks.drop_first()),
            ReadStepView::Complete(frame) => seq![frame] + all_received(
                ReadStateView::Init,
                chunks.drop_first(),
            ),
            ReadStepView::Failed(_) => all_received(ReadStateView::Init, chunks.drop_first()),
        }
    }
}

/// Whether reading can go on from each state in which a chunk is read, frame
/// after frame.
pub open spec fn all_readable(state: ReadStateView, chunks: Seq<Seq<u8>>) -> bool
    decreases chunks.len(),
{
    chunks.len() > 0 ==> {
        &&& state.wf()
        &&& match state.step(chunks.first()) {
            ReadStepView::Pending(next) => all_readable(next, chunks.drop_first()),
            _ => all_readable(ReadStateView::Init, chunks.drop_first()),
        }
    }
}

/// What stands in a header buffer behind the offset has no bearing on what is
/// received.
proof fn lemma_unread_bytes(offset: nat, a: Seq<u8>, b: Seq<u8>, chunks: Seq<Seq<u8>>)
    requires
        offset <= HEADER_SIZE,
        a.len() == HEADER_SIZE,
        b.len() == HEADER_SIZE,
        a.take(offset as int) == b.take(offset as int),
    ensures
        ({
            let x = ReadStateView::Header { offset, buffer: a };
            let y = ReadStateView::Header { offset, buffer: b };
            &&& all_received(x, chunks) == all_received(y, chunks)
            &&& all_readable(x, chunks) == all_readable(y, chunks)
            &&& received(x, chunks) is Pending <==> received(y, chunks) is Pending
            &&& !(received(x, chunks) is Pending) ==> received(x, chunks) == received(y, chunks)
        }),
    decreases chunks.len(),
{
    if chunks.len() > 0 {
        let first = chunks.first();
        if first.len() < HEADER_SIZE - offset {
            let reached = offset + first.len();
            let more_a = overlaid(a, offset, first);
            let more_b = overlaid(b, offset, first);
            assert(more_a.take(reached as int) =~= a.take(offset as int) + first);
            assert(more_b.take(reached as int) =~= b.take(offset as int) + first);
            lemma_unread_bytes(reached, more_a, more_b, chunks.drop_first());
        }
    }
}

/// A header of which nothing has been read is read as from the beginning.
pub proof fn law_fresh_header_is_beginning(buffer: Seq<u8>, chunks: Seq<Seq<u8>>)
    requires
        buffer.len() == HEADER_SIZE,
    ensures
        ({
            let fresh = ReadStateView::Header { offset: 0, buffer };
            let begin = ReadStateView::Init;
            &&& all_received(fresh, chunks) == all_received(begin, chunks)
            &&& all_readable(fresh, chunks) == all_readable(begin, chunks)
            &&& received(fresh, chunks) is Pending <==> received(begin, chunks) is Pending
            &&& !(received(fresh, chunks) is Pending) ==> received(fresh, chunks) == received(
                begin,
                chunks,
            )
        }),
{
    let zeros = Seq::new(HEADER_SIZE as nat, |i: int| 0u8);
    let same = ReadStateView::Header { offset: 0, buffer: zeros };
    assert(buffer.take(0) =~= zeros.take(0));
    lemma_unread_bytes(0, buffer, zeros, chunks);
    if chunks.len() > 0 {
        assert(ReadStateView::Init.step(chunks.first()) == same.step(chunks.first()));
    }
}

/// After a data frame that is dropped, because the chunk that completes its
/// header holds more than its body, reading goes on with the chunks that
/// follow as it does from the beginning, however the header was cut.
pub proof fn law_reading_resumes_after_drop(
    offset: nat,
    buffer: Seq<u8>,
    chunk: Seq<u8>,
    chunks: Seq<Seq<u8>>,
)
    requires
        offset <= HEADER_SIZE,
        buffer.len() == HEADER_SIZE,
        chunk.len() >= HEADER_SIZE - offset,
        decoded(buffer.take(offset as int) + chunk.take(HEADER_SIZE - offset)) matches Ok(header)
            && header.tag == Tag::Data && chunk.skip(HEADER_SIZE - offset).len() % 0x1_0000_0000
            > header.length,
    ensures
        (ReadStateView::Header { offset, buffer }).step(chunk) matches ReadStepView::Pending(next)
            && {
            &&& next.wf()
            &&& all_received(next, chunks) == all_received(ReadStateView::Init, chunks)
            &&& all_readable(next, chunks) == all_readable(ReadStateView::Init, chunks)
            &&& received(next, chunks) is Pending <==> received(
                ReadStateView::Init,
                chunks,
            ) is Pending
            &&& !(received(next, chunks) is Pending) ==> received(next, chunks) == received(
                ReadStateView::Init,
                chunks,
            )
        },
{
    let bytes = buffer.take(offset as int) + chunk.take(HEADER_SIZE - offset);
    law_fresh_header_is_beginning(bytes, chunks);
}

/// Empty chunks between two frames have no bearing on what is received.
proof fn lemma_empty_chunks(chunks: Seq<Seq<u8>>, more: Seq<Seq<u8>>)
    requires
        joined(chunks).len() == 0,
    ensures
        all_received(ReadStateView::Init, chunks + more) == all_received(
            ReadStateView::Init,
            more,
        ),
        all_readable(ReadStateView::Init, chunks + more) == all_readable(
            ReadStateView::Init,
            more,
        ),
    decreases chunks.len(),
{
    if chunks.len() == 0 {
        assert(chunks + more =~= more);
    } else {
        let zeros = Seq::new(HEADER_SIZE as nat, |i: int| 0u8);
        let first = chunks.first();
        let rest = chunks.drop_first();
        assert(joined(chunks) == first + joined(rest));
        assert((chunks + more).first() == first);
        assert((chunks + more).drop_first() =~= rest + more);
        law_fresh_header_is_beginning(overlaid(zeros, 0, first), rest + more);
        lemma_empty_chunks(rest, more);
    }
}

/// However the rest of a body is cut into chunks, the frame is received, and
/// what follows is read from the beginning.
proof fn lemma_body_then_more(
    header: Header,
    buffer: Seq<u8>,
    chunks: Seq<Seq<u8>>,
    more: Seq<Seq<u8>>,
)
    requires
        chunks.len() > 0,
        buffer.len() + joined(chunks).len() == header.length,
    ensures
        ({
            let state = ReadStateView::Body { header, offset: buffer.len(), buffer };
            let frame = FrameView { header, body: buffer + joined(chunks) };
            &&& all_received(state, chunks + more) == seq![frame] + all_received(
                ReadStateView::Init,
                more,
            )
            &&& all_readable(state, chunks + more) == all_readable(ReadStateView::Init, more)
        }),
    decreases chunks.len(),
{
    let state = ReadStateView::Body { header, offset: buffer.len(), buffer };
    let first = chunks.first();
    let rest = chunks.drop_first();
    assert(joined(chunks) == first + joined(rest));
    assert((chunks + more).first() == first);
    assert((chunks + more).drop_first() =~= rest + more);
    if buffer.len() + first.len() == header.length {
        assert(first + joined(rest) =~= first);
        assert(state.step(first) == ReadStepView::Complete(
            FrameView { header, body: buffer + first },
        ));
        lemma_empty_chunks(rest, more);
    } else {
        if rest.len() == 0 {
            assert(joined(rest) =~= Seq::empty());
        }
        lemma_body_then_more(header, buffer + first, rest, more);
        assert(buffer + first + joined(rest) =~= buffer + (first + joined(rest)));
    }
}

/// However the rest of a header and the body behind it are cut into chunks,
/// the frame is received, and what follows is read from the beginning.
proof fn lemma_header_then_more(
    frame: FrameView,
    offset: nat,
    buffer: Seq<u8>,
    chunks: Seq<Seq<u8>>,
    more: Seq<Seq<u8>>,
)
    requires
        frame.sendable(),
        offset <= HEADER_SIZE,
        buffer.len() == HEADER_SIZE,
        chunks.len() > 0,
        buffer.take(offset as int) + joined(chunks) == header_bytes(frame.header) + frame.body,
    ensures
        ({
            let state = ReadStateView::Header { offset, buffer };
            &&& all_received(state, chunks + more) == seq![frame] + all_received(
                ReadStateView::Init,
                more,
            )
            &&& all_readable(state, chunks + more) == all_readable(ReadStateView::Init, more)
        }),
    decreases chunks.len(),
{
    let state = ReadStateView::Header { offset, buffer };
    let begun = buffer.take(offset as int);
    let first = chunks.first();
    let rest = chunks.drop_first();
    let missing = HEADER_SIZE - offset;
    assert(joined(chunks) == first + joined(rest));
    assert((chunks + more).first() == first);
    assert((chunks + more).drop_first() =~= rest + more);
    if first.len() < missing {
        let buffer_more = overlaid(buffer, offset, first);
        let reached = offset + first.len();
        assert(buffer_more.take(reached as int) =~= begun + first);
        assert(begun + first + joined(rest) =~= begun + (first + joined(rest)));
        if rest.len() == 0 {
            assert(joined(rest) =~= Seq::empty());
        }
        lemma_header_then_more(frame, reached, buffer_more, rest, more);
        assert(state.step(first) == ReadStepView::Pending(
            ReadStateView::Header { offset: reached, buffer: buffer_more },
        ));
    } else {
        lemma_header_completed(frame, offset, buffer, first, joined(rest));
        if joined(rest).len() > 0 {
            lemma_body_then_more(frame.header, first.skip(missing), rest, more);
        } else {
            lemma_empty_chunks(rest, more);
        }
    }
}

/// The chunks of a list of frames, one frame after the other.
pub open spec fn all_chunks(chunks: Seq<Seq<Seq<u8>>>) -> Seq<Seq<u8>>
    decreases chunks.len(),
{
    if chunks.len() == 0 {
        Seq::empty()
    } else {
        chunks.first() + all_chunks(chunks.drop_first())
    }
}

/// However the bytes of each of a list of frames are cut into chunks, the
/// frames are received one after the other, each as it was, and reading can go
/// on at each step.
pub proof fn law_frames_from_chunks(frames: Seq<FrameView>, chunks: Seq<Seq<Seq<u8>>>)
    requires
        chunks.len() == frames.len(),
        forall|i: int| 0 <= i < frames.len() ==> (#[trigger] frames[i]).sendable(),
        forall|i: int|
            0 <= i < frames.len() ==> joined(#[trigger] chunks[i]) == header_bytes(
                frames[i].header,
            ) + frames[i].body,
    ensures
        all_received(ReadStateView::Init, all_chunks(chunks)) == frames,
        all_readable(ReadStateView::Init, all_chunks(chunks)),
    decreases frames.len(),
{
    if frames.len() == 0 {
        assert(frames =~= Seq::empty());
    } else {
        let frame = frames.first();
        let own = chunks.first();
        let others = frames.drop_first();
        let more = chunks.drop_first();
        let zeros = Seq::new(HEADER_SIZE as nat, |i: int| 0u8);
        assert(frames[0].sendable());
        assert(joined(chunks[0]) == header_bytes(frame.header) + frame.body);
        assert forall|i: int| 0 <= i < others.len() implies (#[trigger] others[i]).sendable() by {
            assert(others[i] == frames[i + 1]);
        }
        assert forall|i: int| 0 <= i < others.len() implies joined(#[trigger] more[i])
            == header_bytes(others[i].header) + others[i].body by {
            assert(more[i] == chunks[i + 1]);
            assert(others[i] == frames[i + 1]);
        }
        law_frames_from_chunks(others, more);
        assert(own.len() > 0) by {
            assert(header_bytes(frame.header).len() == HEADER_SIZE);
        }
        assert(zeros.take(0) + joined(own) =~= joined(own));
        lemma_header_then_more(frame, 0, zeros, own, all_chunks(more));
        law_fresh_header_is_beginning(zeros, own + all_chunks(more));
        assert(frames =~= seq![frame] + others);
    }
}

/// The messages of a list of frames, one frame after the other.
pub open spec fn all_messages(frames: Seq<FrameView>) -> Seq<Seq<u8>> {
    all_chunks(frames.map_values(|f: FrameView| frame_messages(f)))
}

/// Frames that are sent one after the other are received one after the other,
/// each as it was, when each message arrives as one chunk.
pub proof fn law_send_receive_all(frames: Seq<FrameView>)
    requires
        forall|i: int| 0 <= i < frames.len() ==> (#[trigger] frames[i]).sendable(),
    ensures
        all_received(ReadStateView::Init, all_messages(frames)) == frames,
        all_readable(ReadStateView::Init, all_messages(frames)),
{
    let chunks = frames.map_values(|f: FrameView| frame_messages(f));
    assert forall|i: int| 0 <= i < frames.len() implies joined(#[trigger] chunks[i])
        == header_bytes(frames[i].header) + frames[i].body by {
        lemma_joined_messages(frames[i]);
    }
    law_frames_from_chunks(frames, chunks);
}

/// Every frame that a session makes of its own accord can travel: the answer
/// to a ping, the announcement of a stream, the frame that resets one, and
/// those that terminate the session.
pub proof fn law_own_frames_sendable(id: StreamId, n: u32)
    ensures
        pong_frame(n).sendable(),
        open_frame(id, n).sendable(),
        reset_frame(id).sendable(),
        protocol_error_frame().sendable(),
        internal_error_frame().sendable(),
{
    law_one_flag_valid(plain_header(Tag::Ping, StreamId(0), n), ACK);
    law_one_flag_valid(plain_header(Tag::WindowUpdate, id, n), SYN);
    law_one_flag_valid(plain_header(Tag::Data, id, 0), RST);
}

/// An ID that one end assigns is one that the other end accepts of its remote,
/// and the other way round.
pub proof fn law_ends_agree_on_ids(mode: Mode, id: StreamId)
    ensures
        mode.local(id) <==> mode.opposite().remote(id),
        mode.remote(id) <==> mode.opposite().local(id),
        mode.opposite().opposite() == mode,
{
}

/// The two ends of a connection never open streams with the same ID.
pub proof fn law_ends_never_clash(local: SessionView, peer: SessionView)
    requires
        local.can_open(),
        peer.can_open(),
        peer.mode == local.mode.opposite(),
    ensures
        local.opened().id != peer.opened().id,
{
}

/// The next ID of a session is new to it. Once a stream is opened with it, the
/// next ID is a greater one of the same end, and the other streams are as
/// they were.
pub proof fn law_opened_id_is_new(session: SessionView, tx: mpsc::Sender<Vec<u8>>)
    requires
        session.wf(),
        session.can_open(),
    ensures
        !session.streams.contains_key(session.next_id),
        session.after_open(tx).wf(),
        session.after_open(tx).next_id > session.next_id,
        session.after_open(tx).streams.contains_key(session.next_id),
        forall|k: u32| #[trigger]
            session.streams.contains_key(k) ==> session.after_open(tx).streams.contains_key(k)
                && session.after_open(tx).streams[k] == session.streams[k],
{
}

/// The announcement of a stream, sent by one end and received by the other,
/// opens the stream with the same ID there, unless the other end knows the
/// stream already or has all the streams that it takes.
pub proof fn law_open_reaches_peer(local: SessionView, peer: SessionView)
    requires
        local.wf(),
        local.can_open(),
        !local.config.lazy_open,
        peer.mode == local.mode.opposite(),
        !peer.streams.contains_key(local.next_id),
        !peer.full(),
    ensures
        local.announcement() matches Some(frame) && {
            &&& received(ReadStateView::Init, frame_messages(frame)) == ReadStepView::Complete(
                frame,
            )
            &&& frame.header.stream_id == StreamId(local.next_id)
            &&& peer.judge_window_update(frame.header) is Accept
            &&& peer.accepted(frame.header.stream_id).flag == Flag::Ack
        },
{
    let frame = local.announcement()->Some_0;
    let plain = plain_header(
        Tag::WindowUpdate,
        StreamId(local.next_id),
        local.config.receive_window,
    );
    law_own_frames_sendable(StreamId(local.next_id), local.config.receive_window);
    law_send_receive(frame);
    law_one_flag_valid(plain, SYN);
    law_flag_set(plain, SYN, SYN);
    lemma_flags_distinct();
}

/// Data that one end sends on a stream is received by the other end as it was
/// and, where the stream is known there, reaches the user of the stream or the
/// cache, behind what was cached before. The frame that announces a stream is
/// another matter: it opens the stream, and its data is dropped.
pub proof fn law_data_reaches_peer(id: StreamId, flag: Flag, data: Seq<u8>, peer: SessionView)
    requires
        flag != Flag::Syn,
        data.len() <= u32::MAX,
        peer.streams.contains_key(id.0),
    ensures
        ({
            let header = flag.on(plain_header(Tag::Data, id, data.len() as u32));
            let frame = FrameView { header, body: data };
            let known = peer.streams[id.0];
            &&& received(ReadStateView::Init, seq![header_bytes(header), data])
                == ReadStepView::Complete(frame)
            &&& peer.judge_data(frame) is Known
            &&& joined(known.deliveries(header.length, data)) + known.fed(
                header.length,
                data,
            ).cache == known.cache + framed(data.len() as u32, data)
        }),
{
    let plain = plain_header(Tag::Data, id, data.len() as u32);
    let header = flag.on(plain);
    let frame = FrameView { header, body: data };
    let messages = seq![header_bytes(header), data];
    if flag == Flag::Ack {
        law_one_flag_valid(plain, ACK);
    }
    lemma_flags_distinct();
    assert(0u16 & 1u16 != 1 && 0u16 & 8u16 != 8) by (bit_vector);
    lemma_joined_two(header_bytes(header), data);
    law_frame_from_chunks(frame, messages);
    law_no_data_lost(peer.streams[id.0], header.length, data);
}

/// A stream that is opened lazily is announced by its first data frame, which
/// opens it at the other end unless its data exceeds the default credit, the
/// other end knows the stream already or has all the streams that it takes.
pub proof fn law_lazy_open_reaches_peer(local: SessionView, peer: SessionView, data: Seq<u8>)
    requires
        local.wf(),
        local.can_open(),
        local.config.lazy_open,
        peer.mode == local.mode.opposite(),
        !peer.streams.contains_key(local.next_id),
        !peer.full(),
        data.len() <= DEFAULT_CREDIT,
    ensures
        ({
            let stream = local.opened();
            let header = stream.flag.on(
                plain_header(Tag::Data, stream.id, data.len() as u32),
            );
            let frame = FrameView { header, body: data };
            &&& local.announcement() is None
            &&& received(ReadStateView::Init, seq![header_bytes(header), data])
                == ReadStepView::Complete(frame)
            &&& peer.judge_data(frame) is Accept
        }),
{
    let id = StreamId(local.next_id);
    let plain = plain_header(Tag::Data, id, data.len() as u32);
    let header = plain.flagged(SYN);
    let frame = FrameView { header, body: data };
    let messages = seq![header_bytes(header), data];
    law_one_flag_valid(plain, SYN);
    law_flag_set(plain, SYN, SYN);
    lemma_flags_distinct();
    lemma_joined_two(header_bytes(header), data);
    law_frame_from_chunks(frame, messages);
}

/// A frame that opens a stream is refused as a protocol error once the stream
/// is there, whether it is a window update or carries data.
pub proof fn law_open_once(
    session: SessionView,
    frame: FrameView,
    stream: StreamView,
)
    requires
        frame.header.flags.has(SYN),
        !frame.header.flags.has(RST),
    ensures
        session.with_stream(frame.header.stream_id.0, stream).judge_window_update(frame.header)
            == Verdict::Refuse(protocol_error_frame()),
        session.with_stream(frame.header.stream_id.0, stream).judge_data(frame) == Verdict::Refuse(
            protocol_error_frame(),
        ),
{
}

/// The answer to a ping carries the nonce of the ping, reaches the other end,
/// and is not answered there.
pub proof fn law_pong(session: SessionView, peer: SessionView, ping: Header)
    requires
        session.ping_action(ping) is Ping,
    ensures
        session.ping_action(ping) matches ActionView::Ping(pong) && {
            &&& pong.header.tag == Tag::Ping
            &&& pong.header.length == ping.length
            &&& received(ReadStateView::Init, frame_messages(pong)) == ReadStepView::Complete(pong)
            &&& peer.ping_action(pong.header) == ActionView::Nothing
        },
{
    let plain = plain_header(Tag::Ping, StreamId(0), ping.length);
    law_own_frames_sendable(StreamId(0), ping.length);
    law_send_receive(pong_frame(ping.length));
    law_flag_set(plain, ACK, ACK);
}

/// Frames of the remote never raise the number of streams beyond the
/// configured maximum.
pub proof fn law_stream_limit(
    session: SessionView,
    frame: FrameView,
    post: SessionView,
    inbound: Option<StreamView>,
    announced: Option<StreamView>,
    deliveries: Seq<Seq<u8>>,
    command: Option<StreamCommand>,
)
    requires
        session.wf(),
        session.streams.len() <= session.config.max_num_streams,
        session.frame_effect(frame, post, inbound, announced, deliveries, command),
    ensures
        post.config == session.config,
        post.streams.len() <= post.config.max_num_streams,
{
    let key = frame.header.stream_id.0;
    if session.streams.contains_key(key) {
        assert(session.streams.dom().insert(key) =~= session.streams.dom());
    }
}

/// A frame that is refused, ignored or answered with a reset leaves the
/// session as it was, and delivers nothing.
pub proof fn law_refusal_changes_nothing(
    session: SessionView,
    frame: FrameView,
    post: SessionView,
    inbound: Option<StreamView>,
    announced: Option<StreamView>,
    deliveries: Seq<Seq<u8>>,
    command: Option<StreamCommand>,
)
    requires
        session.frame_effect(frame, post, inbound, announced, deliveries, command),
        frame.header.tag == Tag::WindowUpdate ==> !(session.judge_window_update(
            frame.header,
        ) is Accept),
        frame.header.tag == Tag::Data ==> !(session.judge_data(frame) is Accept
            || session.judge_data(frame) is Known),
    ensures
        post == session,
        inbound is None,
        announced is None,
        deliveries.len() == 0,
{
}

/// A data frame or window update that is refused is answered: one for an
/// unknown stream with the frame that resets the stream, one that breaks the
/// rules with the frame that terminates the session. The answer can travel,
/// and is received as it was.
pub proof fn law_refusal_is_answered(
    session: SessionView,
    frame: FrameView,
    post: SessionView,
    inbound: Option<StreamView>,
    announced: Option<StreamView>,
    deliveries: Seq<Seq<u8>>,
    command: Option<StreamCommand>,
)
    requires
        session.frame_effect(frame, post, inbound, announced, deliveries, command),
        frame.header.tag == Tag::WindowUpdate || frame.header.tag == Tag::Data,
    ensures
        ({
            let verdict = if frame.header.tag == Tag::Data {
                session.judge_data(frame)
            } else {
                session.judge_window_update(frame.header)
            };
            &&& verdict is Reset ==> commands(command, Some(reset_frame(frame.header.stream_id)))
            &&& verdict matches Verdict::Refuse(term) ==> commands(command, Some(term))
            &&& command is Some <==> verdict is Reset || verdict is Refuse
        }),
        command matches Some(StreamCommand::SendFrame(answer)) ==> {
            &&& answer@.sendable()
            &&& received(ReadStateView::Init, frame_messages(answer@)) == ReadStepView::Complete(
                answer@,
            )
        },
{
    law_own_frames_sendable(frame.header.stream_id, 0);
    if let Some(StreamCommand::SendFrame(answer)) = command {
        law_send_receive(answer@);
    }
}

/// A frame that one session sends in answer to another frame has no answer in
/// turn, and leaves the session that it reaches as it was.
pub proof fn law_answers_are_not_answered(
    session: SessionView,
    frame: FrameView,
    post: SessionView,
    inbound: Option<StreamView>,
    announced: Option<StreamView>,
    deliveries: Seq<Seq<u8>>,
    answer: Frame,
    peer: SessionView,
    peer_post: SessionView,
    peer_inbound: Option<StreamView>,
    peer_announced: Option<StreamView>,
    peer_deliveries: Seq<Seq<u8>>,
    peer_command: Option<StreamCommand>,
)
    requires
        session.frame_effect(
            frame,
            post,
            inbound,
            announced,
            deliveries,
            Some(StreamCommand::SendFrame(answer)),
        ),
        peer.frame_effect(
            answer@,
            peer_post,
            peer_inbound,
            peer_announced,
            peer_deliveries,
            peer_command,
        ),
    ensures
        peer_command is None,
        peer_post == peer,
        peer_deliveries.len() == 0,
{
    law_flag_set(plain_header(Tag::Data, frame.header.stream_id, 0), RST, RST);
    law_flag_set(plain_header(Tag::Ping, StreamId(0), frame.header.length), ACK, ACK);
}

/// A shutdown that has been started is never taken back, and a command to
/// close the connection always leaves it started.
pub proof fn law_shutdown_stays_started(
    pre: SessionView,
    event: SessionEvent,
    post: SessionView,
    effects: SessionEffects,
)
    requires
        handles(pre, event, post, effects),
    ensures
        !(pre.shutdown is NotStarted) ==> post.shutdown == pre.shutdown,
        event matches SessionEvent::Control(Some(ControlCommand::CloseConnection(_)))
            ==> !(post.shutdown is NotStarted),
{
}

/// A frame touches no stream but the one that it names.
pub proof fn law_other_streams_untouched(
    session: SessionView,
    frame: FrameView,
    post: SessionView,
    inbound: Option<StreamView>,
    announced: Option<StreamView>,
    deliveries: Seq<Seq<u8>>,
    command: Option<StreamCommand>,
    key: u32,
)
    requires
        session.frame_effect(frame, post, inbound, announced, deliveries, command),
        key != frame.header.stream_id.0,
    ensures
        post.streams.contains_key(key) <==> session.streams.contains_key(key),
        session.streams.contains_key(key) ==> post.streams[key] == session.streams[key],
{
}

/// A stream that the remote has opened can be asked for.
pub proof fn law_accepted_can_be_given(
    session: SessionView,
    id: StreamId,
    post: SessionView,
    inbound: StreamView,
    announced: Option<StreamView>,
    channel: Option<(mpsc::Sender<Vec<u8>>, mpsc::Receiver<Vec<u8>>)>,
)
    requires
        session.mode.remote(id),
        session.accepts(id, channel, post, inbound, announced),
    ensures
        post.remote_key(id.0),
        inbound.id == id,
{
}

/// The data of a frame as it reaches the user of a stream: the length field
/// and the body.
pub open spec fn framed(length: u32, body: Seq<u8>) -> Seq<u8> {
    be_u32(length) + body
}

/// The data of a list of frames, one after the other.
pub open spec fn all_framed(frames: Seq<(u32, Seq<u8>)>) -> Seq<u8>
    decreases frames.len(),
{
    if frames.len() == 0 {
        Seq::empty()
    } else {
        framed(frames.first().0, frames.first().1) + all_framed(frames.drop_first())
    }
}

/// What the session keeps of a stream once a list of data frames has arrived.
pub open spec fn fed_all(stream: StreamView, frames: Seq<(u32, Seq<u8>)>) -> StreamView
    decreases frames.len(),
{
    if frames.len() == 0 {
        stream
    } else {
        fed_all(stream.fed(frames.first().0, frames.first().1), frames.drop_first())
    }
}

/// What is put into the data channel of a stream while a list of data frames
/// arrives.
pub open spec fn all_deliveries(stream: StreamView, frames: Seq<(u32, Seq<u8>)>) -> Seq<u8>
    decreases frames.len(),
{
    if frames.len() == 0 {
        Seq::empty()
    } else {
        let (length, body) = frames.first();
        joined(stream.deliveries(length, body)) + all_deliveries(
            stream.fed(length, body),
            frames.drop_first(),
        )
    }
}

/// No data is lost or reordered when a data frame arrives: what is delivered
/// and what stays in the cache is what was in the cache and the data of the
/// frame.
pub proof fn law_no_data_lost(stream: StreamView, length: u32, body: Seq<u8>)
    ensures
        joined(stream.deliveries(length, body)) + stream.fed(length, body).cache == stream.cache
            + framed(length, body),
{
    let d = stream.deliveries(length, body);
    let prefix = be_u32(length);
    reveal_with_fuel(joined, 4);
    if stream.data_sender is None {
        assert(joined(d) =~= Seq::empty());
        assert(stream.cache + prefix + body =~= stream.cache + framed(length, body));
    } else if stream.cache.len() == 0 {
        assert(d.drop_first() =~= seq![body]);
        assert(d.drop_first().drop_first() =~= Seq::empty());
        assert(joined(d) =~= prefix + body);
    } else {
        assert(d.drop_first() =~= seq![prefix, body]);
        assert(d.drop_first().drop_first() =~= seq![body]);
        assert(d.drop_first().drop_first().drop_first() =~= Seq::empty());
        assert(joined(d) =~= stream.cache + framed(length, body));
    }
}

/// No data is lost or reordered over any number of data frames. Without a user
/// all of it is in the cache, from where the user who is handed the stream
/// gets it; with a user all of it has been delivered.
pub proof fn law_no_data_lost_over_time(stream: StreamView, frames: Seq<(u32, Seq<u8>)>)
    ensures
        all_deliveries(stream, frames) + fed_all(stream, frames).cache == stream.cache + all_framed(
            frames,
        ),
        fed_all(stream, frames).data_sender == stream.data_sender,
        stream.data_sender is None ==> all_deliveries(stream, frames).len() == 0,
        stream.data_sender is Some && frames.len() > 0 ==> fed_all(stream, frames).cache.len()
            == 0,
    decreases frames.len(),
{
    if frames.len() == 0 {
        assert(all_deliveries(stream, frames) + stream.cache =~= stream.cache + all_framed(frames));
    } else {
        let (length, body) = frames.first();
        let next = stream.fed(length, body);
        let rest = frames.drop_first();
        let now = joined(stream.deliveries(length, body));
        law_no_data_lost(stream, length, body);
        law_no_data_lost_over_time(next, rest);
        assert(now + all_deliveries(next, rest) + fed_all(next, rest).cache =~= now + (
        all_deliveries(next, rest) + fed_all(next, rest).cache));
        assert(now + (next.cache + all_framed(rest)) =~= (now + next.cache) + all_framed(rest));
        assert(stream.cache + framed(length, body) + all_framed(rest) =~= stream.cache + (framed(
            length,
            body,
        ) + all_framed(rest)));
    }
}

/// A user who is handed a stream gets what had been cached, and the session
/// keeps nothing of it.
pub proof fn law_cache_moves_to_user(
    stream: StreamView,
    tx: mpsc::Sender<Vec<u8>>,
    rx: mpsc::Receiver<Vec<u8>>,
)
    ensures
        stream.handed_out(rx).cache == stream.cache,
        stream.attached(tx).cache.len() == 0,
        stream.attached(tx).data_sender == Some(tx),
        stream.handed_out(rx).data_receiver == Some(rx),
{
}

/// Whenever a user is handed a stream, the user gets all of its data: what
/// arrived before is in the cache of what is handed out, and what arrives
/// afterwards is delivered, in the order of arrival and nothing twice.
pub proof fn law_user_gets_everything(
    stream: StreamView,
    before: Seq<(u32, Seq<u8>)>,
    after: Seq<(u32, Seq<u8>)>,
    tx: mpsc::Sender<Vec<u8>>,
    rx: mpsc::Receiver<Vec<u8>>,
)
    requires
        stream.data_sender is None,
    ensures
        fed_all(stream, before).handed_out(rx).cache + all_deliveries(
            fed_all(stream, before).attached(tx),
            after,
        ) == stream.cache + all_framed(before) + all_framed(after),
        fed_all(fed_all(stream, before).attached(tx), after).cache.len() == 0,
{
    let kept = fed_all(stream, before).attached(tx);
    law_no_data_lost_over_time(stream, before);
    law_no_data_lost_over_time(kept, after);
    assert(all_deliveries(stream, before) + fed_all(stream, before).cache =~= fed_all(
        stream,
        before,
    ).cache);
    assert(kept.cache + all_framed(after) =~= all_framed(after));
    if after.len() == 0 {
        assert(fed_all(kept, after) == kept);
    }
    assert(fed_all(kept, after).cache =~= Seq::empty());
    assert(all_deliveries(kept, after) + fed_all(kept, after).cache =~= all_deliveries(
        kept,
        after,
    ));
}

} // verus!
