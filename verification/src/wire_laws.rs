//! Laws of headers, frames and messages, in terms of numbers and bytes.

use crate::bytes::{be_u16, be_u32, join_u16, join_u32, joined, low_u32, split_u16, split_u32, strings};
use crate::frame::Frame;
use crate::header::{decode, decoded, encode, header_bytes, plain_header};
use crate::header::{Flags, Header, HeaderDecodeError, StreamId, Tag};
use crate::io::{header_step, overlaid, ReadState, ReadStateView, ReadStep, ReadStepView};
use crate::laws::{law_send_receive, lemma_joined_messages, received};
use crate::session::StreamCommand;
use crate::stream::{Flag, Stream};
use crate::writer::{frame_messages, SecioSessionWriter};
use std::num::TryFromIntError;
use vstd::prelude::*;

verus! {

/// The bits of flags as remainders: SYN, ACK, FIN and RST are the four lowest.
pub proof fn law_flag_bits(f: u16)
    ensures
        Flags(f).has(1) <==> f % 2 == 1,
        Flags(f).has(2) <==> f / 2 % 2 == 1,
        Flags(f).has(4) <==> f / 4 % 2 == 1,
        Flags(f).has(8) <==> f / 8 % 2 == 1,
{
    assert(f & 1 == 1 <==> f % 2 == 1) by (bit_vector);
    assert(f & 2 == 2 <==> (f / 2) % 2 == 1) by (bit_vector);
    assert(f & 4 == 4 <==> (f / 4) % 2 == 1) by (bit_vector);
    assert(f & 8 == 8 <==> (f / 8) % 2 == 1) by (bit_vector);
}

/// Setting one of the flags adds its bit, unless it is there.
pub(crate) proof fn lemma_set_bit(f: u16)
    ensures
        f | 1 == f + if f % 2 == 1 { 0int } else { 1 },
        f | 2 == f + if f / 2 % 2 == 1 { 0int } else { 2 },
        f | 8 == f + if f / 8 % 2 == 1 { 0int } else { 8 },
{
    assert(f % 2 == 1 ==> f | 1 == f) by (bit_vector);
    assert(f % 2 != 1 ==> f | 1 == f + 1) by (bit_vector);
    assert((f / 2) % 2 == 1 ==> f | 2 == f) by (bit_vector);
    assert((f / 2) % 2 != 1 ==> f | 2 == f + 2) by (bit_vector);
    assert((f / 8) % 2 == 1 ==> f | 8 == f) by (bit_vector);
    assert((f / 8) % 2 != 1 ==> f | 8 == f + 8) by (bit_vector);
}

/// Flags contain other flags if adding those changes nothing. They contain
/// SYN, ACK, FIN or RST if the bit of that flag is set.
pub proof fn law_contains(f: Flags, other: Flags, b: bool)
    requires
        call_ensures(Flags::contains, (f, other), b),
    ensures
        b <==> f.0 | other.0 == f.0,
        other.0 == 0 ==> b,
        other.0 == 1 ==> (b <==> f.0 % 2 == 1),
        other.0 == 2 ==> (b <==> f.0 / 2 % 2 == 1),
        other.0 == 4 ==> (b <==> f.0 / 4 % 2 == 1),
        other.0 == 8 ==> (b <==> f.0 / 8 % 2 == 1),
{
    let x = f.0;
    let y = other.0;
    law_flag_bits(x);
    assert(x & y == y <==> x | y == x) by (bit_vector);
    assert(x & 0 == 0) by (bit_vector);
}

/// Setting a flag on a header sets its bit, whatever was set before, and
/// changes nothing else.
pub proof fn law_header_flags(
    s: &mut Header,
    a: &mut Header,
    r: &mut Header,
)
    requires
        call_ensures(Header::syn, (s,), ()),
        call_ensures(Header::ack, (a,), ()),
        call_ensures(Header::rst, (r,), ()),
    ensures
        *final(s) == (Header { flags: final(s).flags, ..*old(s) }),
        final(s).flags.0 == old(s).flags.0 + if old(s).flags.0 % 2 == 1 { 0int } else { 1 },
        *final(a) == (Header { flags: final(a).flags, ..*old(a) }),
        final(a).flags.0 == old(a).flags.0 + if old(a).flags.0 / 2 % 2 == 1 { 0int } else { 2 },
        *final(r) == (Header { flags: final(r).flags, ..*old(r) }),
        final(r).flags.0 == old(r).flags.0 + if old(r).flags.0 / 8 % 2 == 1 { 0int } else { 8 },
{
    lemma_set_bit(s.flags.0);
    lemma_set_bit(a.flags.0);
    lemma_set_bit(r.flags.0);
}

/// Even IDs belong to the server and odd ones to the client; zero alone
/// denotes the session.
pub proof fn law_stream_ids(n: u32, id: StreamId, server: bool, client: bool, session: bool, v: u32)
    requires
        call_ensures(StreamId::new, (n,), id),
        call_ensures(StreamId::is_server, (id,), server),
        call_ensures(StreamId::is_client, (id,), client),
        call_ensures(StreamId::is_session, (id,), session),
        call_ensures(StreamId::val, (id,), v),
    ensures
        v == n,
        server <==> n % 2 == 0,
        client <==> n % 2 == 1,
        session <==> n == 0,
{
}

/// The parts of a header: version, tag, flags, stream ID and length field.
pub open spec fn is_header(h: Header, tag: Tag, flags: int, id: int, length: int) -> bool {
    &&& h.version == 0
    &&& h.tag == tag
    &&& h.flags.0 == flags
    &&& h.stream_id.0 == id
    &&& h.length == length
}

/// Every header that is made has version zero and no flags. Those for a
/// stream name it, the others name the session.
pub proof fn law_made_headers(
    id: StreamId,
    n: u32,
    data: Header,
    update: Header,
    ping: Header,
    term: Header,
    protocol: Header,
    internal: Header,
)
    requires
        call_ensures(Header::data, (id, n), data),
        call_ensures(Header::window_update, (id, n), update),
        call_ensures(Header::ping, (n,), ping),
        call_ensures(Header::term, (), term),
        call_ensures(Header::protocol_error, (), protocol),
        call_ensures(Header::internal_error, (), internal),
    ensures
        is_header(data, Tag::Data, 0, id.0 as int, n as int),
        is_header(update, Tag::WindowUpdate, 0, id.0 as int, n as int),
        is_header(ping, Tag::Ping, 0, 0, n as int),
        is_header(term, Tag::GoAway, 0, 0, 0),
        is_header(protocol, Tag::GoAway, 0, 0, 1),
        is_header(internal, Tag::GoAway, 0, 0, 2),
{
}

/// The credit of a window update and the nonce of a ping are what they were
/// made with.
pub proof fn law_credit_and_nonce(
    id: StreamId,
    n: u32,
    update: Header,
    ping: Header,
    credit: u32,
    nonce: u32,
)
    requires
        call_ensures(Header::window_update, (id, n), update),
        call_ensures(Header::ping, (n,), ping),
        call_ensures(Header::credit, (&update,), credit),
        call_ensures(Header::nonce, (&ping,), nonce),
    ensures
        credit == n,
        nonce == n,
{
}

/// Twelve bytes that stand for a header: the version, the number of the tag,
/// then the flags, the stream ID and the length field, each with the most
/// significant byte first.
pub open spec fn on_wire(b: Seq<u8>, h: Header) -> bool {
    &&& b.len() == 12
    &&& b[0] == h.version
    &&& match h.tag {
        Tag::Data => b[1] == 0,
        Tag::WindowUpdate => b[1] == 1,
        Tag::Ping => b[1] == 2,
        Tag::GoAway => b[1] == 3,
    }
    &&& h.flags.0 == 256 * b[2] + b[3]
    &&& h.stream_id.0 == 256 * (256 * (256 * b[4] + b[5]) + b[6]) + b[7]
    &&& h.length == 256 * (256 * (256 * b[8] + b[9]) + b[10]) + b[11]
}

/// Whether twelve bytes stand for a header that a receiver knows.
pub open spec fn known_bytes(b: Seq<u8>) -> bool {
    b[0] == 0 && b[1] <= 3 && 256 * b[2] + b[3] <= 8
}

/// The bytes of an integer, most significant first, weigh what the integer is.
pub proof fn law_network_byte_order(x: u16, y: u32)
    ensures
        be_u16(x).len() == 2,
        x == 256 * be_u16(x)[0] + be_u16(x)[1],
        be_u32(y).len() == 4,
        y == 256 * (256 * (256 * be_u32(y)[0] + be_u32(y)[1]) + be_u32(y)[2]) + be_u32(y)[3],
{
}

/// Splitting and joining integers goes by the weight of the bytes.
pub proof fn law_split_and_join(
    x: u16,
    y: u32,
    xs: (u8, u8),
    ys: (u8, u8, u8, u8),
    b: (u8, u8, u8, u8),
    j: u16,
    k: u32,
    n: usize,
    low: u32,
)
    requires
        call_ensures(split_u16, (x,), xs),
        call_ensures(split_u32, (y,), ys),
        call_ensures(join_u16, (b.0, b.1), j),
        call_ensures(join_u32, (b.0, b.1, b.2, b.3), k),
        call_ensures(low_u32, (n,), low),
    ensures
        x == 256 * xs.0 + xs.1,
        y == 256 * (256 * (256 * ys.0 + ys.1) + ys.2) + ys.3,
        j == 256 * b.0 + b.1,
        k == 256 * (256 * (256 * b.0 + b.1) + b.2) + b.3,
        n <= 0xffff_ffff ==> low == n,
        (n - low) % 0x1_0000_0000 == 0,
{
    assert(seq![xs.0, xs.1][0] == be_u16(x)[0] && seq![xs.0, xs.1][1] == be_u16(x)[1]);
    assert(seq![ys.0, ys.1, ys.2, ys.3][0] == be_u32(y)[0]);
    assert(seq![ys.0, ys.1, ys.2, ys.3][1] == be_u32(y)[1]);
    assert(seq![ys.0, ys.1, ys.2, ys.3][2] == be_u32(y)[2]);
    assert(seq![ys.0, ys.1, ys.2, ys.3][3] == be_u32(y)[3]);
    law_network_byte_order(x, y);
}

/// What is written for a header stands for it.
proof fn lemma_header_on_wire(h: Header)
    ensures
        on_wire(header_bytes(h), h),
{
    let b = header_bytes(h);
    law_network_byte_order(h.flags.0, h.stream_id.0);
    law_network_byte_order(h.flags.0, h.length);
    assert(b[2] == be_u16(h.flags.0)[0] && b[3] == be_u16(h.flags.0)[1]);
    assert(b[4] == be_u32(h.stream_id.0)[0] && b[5] == be_u32(h.stream_id.0)[1]);
    assert(b[6] == be_u32(h.stream_id.0)[2] && b[7] == be_u32(h.stream_id.0)[3]);
    assert(b[8] == be_u32(h.length)[0] && b[9] == be_u32(h.length)[1]);
    assert(b[10] == be_u32(h.length)[2] && b[11] == be_u32(h.length)[3]);
}

/// Encoding a header writes bytes that stand for it.
pub proof fn law_encode(h: Header, buf: [u8; 12])
    requires
        call_ensures(encode, (&h,), buf),
    ensures
        on_wire(buf@, h),
{
    lemma_header_on_wire(h);
}

/// Bytes decode exactly if they are known, and then to the header that they
/// stand for.
proof fn lemma_decoded(b: Seq<u8>)
    requires
        b.len() == 12,
    ensures
        decoded(b) is Ok <==> known_bytes(b),
        decoded(b) matches Ok(h) ==> on_wire(b, h),
        decoded(b) matches Err(e) ==> match e {
            HeaderDecodeError::Version(v) => v == b[0] && b[0] != 0,
            HeaderDecodeError::Type(t) => b[0] == 0 && t == b[1] && b[1] > 3,
            HeaderDecodeError::Flags(f) => b[0] == 0 && b[1] <= 3 && f == 256 * b[2] + b[3] && f
                > 8,
        },
{
}

/// Decoding gives the header that the bytes stand for, if version, tag and
/// flags are known. Else the first of these that is not known is reported.
pub proof fn law_decode(buf: [u8; 12], res: Result<Header, HeaderDecodeError>)
    requires
        call_ensures(decode, (&buf,), res),
    ensures
        res is Ok <==> known_bytes(buf@),
        match res {
            Ok(h) => on_wire(buf@, h),
            Err(HeaderDecodeError::Version(v)) => v == buf@[0] && v != 0,
            Err(HeaderDecodeError::Type(t)) => buf@[0] == 0 && t == buf@[1] && t > 3,
            Err(HeaderDecodeError::Flags(f)) => {
                &&& buf@[0] == 0
                &&& buf@[1] <= 3
                &&& f == 256 * buf@[2] + buf@[3]
                &&& f > 8
            },
        },
{
    lemma_decoded(buf@);
}

/// A data frame holds the body that it was made of and announces its length.
/// It is refused exactly where the length does not fit 32 bits.
pub proof fn law_data_frame(id: StreamId, b: Vec<u8>, res: Result<Frame, TryFromIntError>)
    requires
        call_ensures(Frame::data, (id, b), res),
    ensures
        res is Ok <==> b@.len() < 0x1_0000_0000,
        res matches Ok(f) ==> {
            &&& is_header(f.header, Tag::Data, 0, id.0 as int, b@.len() as int)
            &&& f.body@ == b@
        },
{
    if let Ok(f) = res {
        assert(f@.header == f.header && f@.body == f.body@);
    }
}

/// Frames that are made without data have the header asked for and no body.
pub proof fn law_bare_frames(
    h: Header,
    id: StreamId,
    n: u32,
    plain: Frame,
    update: Frame,
    term: Frame,
    protocol: Frame,
    internal: Frame,
)
    requires
        call_ensures(Frame::new, (h,), plain),
        call_ensures(Frame::window_update, (id, n), update),
        call_ensures(Frame::term, (), term),
        call_ensures(Frame::protocol_error, (), protocol),
        call_ensures(Frame::internal_error, (), internal),
    ensures
        plain.header == h && plain.body@.len() == 0,
        is_header(update.header, Tag::WindowUpdate, 0, id.0 as int, n as int),
        update.body@.len() == 0,
        is_header(term.header, Tag::GoAway, 0, 0, 0) && term.body@.len() == 0,
        is_header(protocol.header, Tag::GoAway, 0, 0, 1) && protocol.body@.len() == 0,
        is_header(internal.header, Tag::GoAway, 0, 0, 2) && internal.body@.len() == 0,
{
    assert(plain@.header == plain.header && plain@.body == plain.body@);
    assert(update@.header == update.header && update@.body == update.body@);
    assert(term@.header == term.header && term@.body == term.body@);
    assert(protocol@.header == protocol.header && protocol@.body == protocol.body@);
    assert(internal@.header == internal.header && internal@.body == internal.body@);
}

/// The parts of a frame are what it holds, and the length of the body is
/// exact where it fits 32 bits.
pub proof fn law_frame_parts(frame: Frame, h: Header, body: &[u8], n: u32, taken: Vec<u8>)
    requires
        call_ensures(Frame::header, (&frame,), &h),
        call_ensures(Frame::body, (&frame,), body),
        call_ensures(Frame::body_len, (&frame,), n),
        call_ensures(Frame::into_body, (frame,), taken),
    ensures
        h == frame.header,
        body@ == frame.body@,
        taken@ == frame.body@,
        frame.body@.len() < 0x1_0000_0000 ==> n == frame.body@.len(),
{
}

/// The header with the flag that a stream still has to set.
pub open spec fn flagged_as(h: Header, tag: Tag, flag: Flag, id: StreamId, length: int) -> bool {
    is_header(
        h,
        tag,
        match flag {
            Flag::Unset => 0,
            Flag::Syn => 1,
            Flag::Ack => 2,
        },
        id.0 as int,
        length,
    )
}

/// A list of messages that sends a header and, behind it, a body.
pub open spec fn sends(messages: Seq<Vec<u8>>, h: Header, body: Seq<u8>) -> bool {
    &&& messages.len() >= 1
    &&& on_wire(messages[0]@, h)
    &&& if messages.len() == 1 {
        body.len() == 0
    } else {
        messages.len() == 2 && messages[1]@ == body
    }
}

/// A frame is sent as its header and then its body, which is left out where
/// it is empty.
pub proof fn law_frame_send(w: SecioSessionWriter, frame: Frame, messages: Vec<Vec<u8>>)
    requires
        call_ensures(SecioSessionWriter::frame_send, (&w, frame), messages),
    ensures
        sends(messages@, frame.header, frame.body@),
        messages@.len() == if frame.body@.len() == 0 { 1nat } else { 2 },
{
    lemma_frame_messages(frame, messages);
}

/// Messages that are those of a frame send its header and its body.
proof fn lemma_frame_messages(frame: Frame, messages: Vec<Vec<u8>>)
    requires
        strings(messages@) == frame_messages(frame@),
    ensures
        sends(messages@, frame.header, frame.body@),
        messages@.len() == if frame.body@.len() == 0 { 1nat } else { 2 },
{
    let s = strings(messages@);
    lemma_header_on_wire(frame.header);
    assert(s.len() == messages@.len());
    assert(s[0] == messages@[0]@);
    if messages@.len() == 2 {
        assert(s[1] == messages@[1]@);
    }
}

/// A command to send a frame is answered with its header and then its body;
/// read from the beginning, these messages give exactly that frame. Any other
/// command is answered with nothing.
pub proof fn law_send_process(
    w: SecioSessionWriter,
    command: Option<StreamCommand>,
    messages: Vec<Vec<u8>>,
)
    requires
        call_ensures(SecioSessionWriter::send_process, (&w, command), messages),
    ensures
        match command {
            Some(StreamCommand::SendFrame(frame)) => {
                &&& sends(messages@, frame.header, frame.body@)
                &&& messages@.len() == if frame.body@.len() == 0 { 1nat } else { 2 }
                &&& joined(strings(messages@)) == header_bytes(
                    frame.header,
                ) + frame.body@
                &&& frame@.sendable() ==> received(
                    ReadStateView::Init,
                    strings(messages@),
                ) == ReadStepView::Complete(frame@)
            },
            _ => messages@.len() == 0,
        },
{
    match command {
        Some(StreamCommand::SendFrame(frame)) => {
            lemma_frame_messages(frame, messages);
            lemma_joined_messages(frame@);
            if frame@.sendable() {
                law_send_receive(frame@);
            }
        },
        _ => {
            assert(strings(messages@).len() == messages@.len());
        },
    }
}

/// Sending a frame and asking by command for the frame to be sent come to the
/// same messages.
pub proof fn law_command_sends_as_frame_send(
    w: SecioSessionWriter,
    frame: Frame,
    sent: Vec<Vec<u8>>,
    commanded: Vec<Vec<u8>>,
)
    requires
        call_ensures(SecioSessionWriter::frame_send, (&w, frame), sent),
        call_ensures(
            SecioSessionWriter::send_process,
            (&w, Some(StreamCommand::SendFrame(frame))),
            commanded,
        ),
    ensures
        sent@.len() == commanded@.len(),
        forall|i: int| 0 <= i < sent@.len() ==> (#[trigger] sent@[i])@ == commanded@[i]@,
{
    let a = strings(sent@);
    let b = strings(commanded@);
    assert(a.len() == sent@.len() && b.len() == commanded@.len());
    assert forall|i: int| 0 <= i < sent@.len() implies (#[trigger] sent@[i])@
        == commanded@[i]@ by {
        assert(a[i] == sent@[i]@ && b[i] == commanded@[i]@);
    }
}

/// Data is sent on a stream as two messages: a header with the ID and the
/// pending flag of the stream and the length of the data, and the data. It is
/// refused exactly where its length does not fit 32 bits.
pub proof fn law_data_frame_send(
    w: SecioSessionWriter,
    stream: Stream,
    data: Vec<u8>,
    res: Result<Vec<Vec<u8>>, TryFromIntError>,
    h: Header,
)
    requires
        call_ensures(SecioSessionWriter::data_frame_send, (&w, stream, data), res),
        flagged_as(h, Tag::Data, stream.flag, stream.id, data@.len() as int),
    ensures
        res is Ok <==> data@.len() < 0x1_0000_0000,
        res matches Ok(messages) ==> {
            &&& messages@.len() == 2
            &&& on_wire(messages@[0]@, h)
            &&& messages@[1]@ == data@
        },
{
    if let Ok(messages) = res {
        let s = strings(messages@);
        assert(s.len() == messages@.len());
        assert(s[0] == messages@[0]@ && s[1] == messages@[1]@);
        lemma_set_bit(0);
        lemma_header_on_wire(h);
        let plain = plain_header(Tag::Data, stream.id, data@.len() as u32);
        assert(stream.flag.on(plain) == h);
    }
}

/// Credit is granted by one message: a header with the stream, the credit and
/// the flag asked for.
pub proof fn law_window_update_frame_send(
    w: SecioSessionWriter,
    id: StreamId,
    credit: u32,
    flag: Flag,
    messages: Vec<Vec<u8>>,
    h: Header,
)
    requires
        call_ensures(
            SecioSessionWriter::window_update_frame_send,
            (&w, id, credit, flag),
            messages,
        ),
        flagged_as(h, Tag::WindowUpdate, flag, id, credit as int),
    ensures
        messages@.len() == 1,
        on_wire(messages@[0]@, h),
{
    let s = strings(messages@);
    assert(s.len() == messages@.len());
    assert(s[0] == messages@[0]@);
    lemma_set_bit(0);
    lemma_header_on_wire(h);
    assert(flag.on(plain_header(Tag::WindowUpdate, id, credit)) == h);
}

/// What has been read of a header, with as much of a chunk as completes it.
pub open spec fn completed(begun: Seq<u8>, chunk: Seq<u8>) -> Seq<u8> {
    begun + chunk.take(12 - begun.len())
}

/// What a chunk makes of a header of which `begun` has been read.
///
/// The bytes are collected until there are twelve. If they stand for no known
/// header, reading fails. If the frame is not a data frame, it is complete. A
/// data frame is complete with a body of exactly the length announced, is
/// waited for where the chunk holds less, and dropped where it holds more. The
/// length of what the chunk holds counts modulo the range of the length field.
pub open spec fn header_progress(begun: Seq<u8>, chunk: Seq<u8>, next: ReadStep) -> bool {
    let bytes = completed(begun, chunk);
    let rest = chunk.skip(12 - begun.len());
    if begun.len() + chunk.len() < 12 {
        &&& next matches ReadStep::Pending(ReadState::Header { offset, buffer })
        &&& offset == begun.len() + chunk.len()
        &&& buffer@.take(offset as int) == begun + chunk
    } else if !known_bytes(bytes) {
        next matches ReadStep::Failed(e) && e@ == "decode header fail"@
    } else if bytes[1] != 0 {
        &&& next matches ReadStep::Complete(frame)
        &&& on_wire(bytes, frame.header)
        &&& frame.body@.len() == 0
    } else {
        let length = 256 * (256 * (256 * bytes[8] + bytes[9]) + bytes[10]) + bytes[11];
        if rest.len() % 0x1_0000_0000 == length {
            &&& next matches ReadStep::Complete(frame)
            &&& on_wire(bytes, frame.header)
            &&& frame.body@ == rest
        } else if rest.len() % 0x1_0000_0000 < length {
            &&& next matches ReadStep::Pending(ReadState::Body { header, offset, buffer })
            &&& on_wire(bytes, header)
            &&& offset == rest.len()
            &&& buffer@ == rest
        } else {
            next matches ReadStep::Pending(ReadState::Header { offset, .. }) && offset == 0
        }
    }
}

/// Reading a frame goes on with a chunk as the bytes of the header and the
/// length that it announces demand, from whichever state.
pub proof fn law_advance(state: ReadState, chunk: Vec<u8>, next: ReadStep)
    requires
        match state {
            ReadState::Init => true,
            ReadState::Header { offset, .. } => offset <= 12,
            ReadState::Body { header, offset, .. } => offset <= header.length,
        },
        call_ensures(ReadState::advance, (state, chunk), next),
    ensures
        match state {
            ReadState::Init => header_progress(Seq::empty(), chunk@, next),
            ReadState::Header { offset, buffer } => header_progress(
                buffer@.take(offset as int),
                chunk@,
                next,
            ),
            ReadState::Body { header, offset, buffer } => {
                let total = offset + chunk@.len();
                if total == header.length {
                    &&& next matches ReadStep::Complete(frame)
                    &&& frame.header == header
                    &&& frame.body@ == buffer@ + chunk@
                } else if total < header.length {
                    &&& next matches ReadStep::Pending(ReadState::Body { header: h, offset: o, buffer: b })
                    &&& h == header
                    &&& o == total
                    &&& b@ == buffer@ + chunk@
                } else {
                    &&& next matches ReadStep::Pending(ReadState::Body { header: h, offset: o, buffer: b })
                    &&& h == header
                    &&& o == offset
                    &&& b@ == buffer@
                }
            },
        },
{
    let zeros = Seq::new(12, |i: int| 0u8);
    match state {
        ReadState::Init => {
            assert(zeros.take(0) =~= Seq::empty());
            lemma_header_progress(0, zeros, chunk@, next);
        },
        ReadState::Header { offset, buffer } => {
            lemma_header_progress(offset as nat, buffer@, chunk@, next);
        },
        ReadState::Body { .. } => {},
    }
}

/// A step from a header state makes the progress that its bytes demand.
proof fn lemma_header_progress(offset: nat, buffer: Seq<u8>, chunk: Seq<u8>, next: ReadStep)
    requires
        offset <= 12,
        buffer.len() == 12,
        next@ == header_step(offset, buffer, chunk),
    ensures
        header_progress(buffer.take(offset as int), chunk, next),
{
    let begun = buffer.take(offset as int);
    let bytes = completed(begun, chunk);
    if begun.len() + chunk.len() < 12 {
        let more = overlaid(buffer, offset, chunk);
        assert(more.take((offset + chunk.len()) as int) =~= begun + chunk);
    } else {
        lemma_decoded(bytes);
    }
}

/// Reading can go on unless more has been read of a header or of a body than
/// there is of it.
pub proof fn law_can_advance(state: ReadState, b: bool)
    requires
        call_ensures(ReadState::can_advance, (&state,), b),
    ensures
        b <==> match state {
            ReadState::Init => true,
            ReadState::Header { offset, .. } => offset <= 12,
            ReadState::Body { header, offset, .. } => offset <= header.length,
        },
{
}

} // verus!
