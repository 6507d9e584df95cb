//! The frame header and its twelve-byte wire format.

use crate::bytes::{be_u16, be_u32, from_be_u16, from_be_u32, join_u16, join_u32, split_u16, split_u32};
use crate::bytes::{law_u16_bytes_round_trip, law_u16_round_trip, law_u32_bytes_round_trip, law_u32_round_trip};
use vstd::prelude::*;

verus! {

/// A tag is the runtime representation of a message type.
#[derive(Copy, Clone, Debug, PartialEq, Eq, Structural)]
pub enum Tag {
    Data,
    WindowUpdate,
    Ping,
    GoAway,
}

impl Tag {
    /// The byte that stands for this tag on the wire.
    pub open spec fn code(self) -> u8 {
        match self {
            Tag::Data => 0,
            Tag::WindowUpdate => 1,
            Tag::Ping => 2,
            Tag::GoAway => 3,
        }
    }

    /// The tag that a byte stands for on the wire, if any.
    pub open spec fn of_code(code: u8) -> Option<Tag> {
        if code == 0 {
            Some(Tag::Data)
        } else if code == 1 {
            Some(Tag::WindowUpdate)
        } else if code == 2 {
            Some(Tag::Ping)
        } else if code == 3 {
            Some(Tag::GoAway)
        } else {
            None
        }
    }
}

/// Possible flags set on a message.
#[derive(Copy, Clone, Debug, PartialEq, Eq, Structural)]
pub struct Flags(pub u16);

impl Flags {
    /// Whether every bit of `other` is set.
    pub open spec fn has(self, other: u16) -> bool {
        self.0 & other == other
    }

    /// Whether every bit of `other` is set in these flags.
    pub fn contains(self, other: Flags) -> (b: bool)
        ensures
            b == self.has(other.0),
    {
        self.0 & other.0 == other.0
    }

    /// The flags as they stand on the wire.
    pub fn val(self) -> (v: u16)
        ensures
            v == self.0,
    {
        self.0
    }
}

/// The largest flags value that a received header may have.
pub const MAX_FLAG_VAL: u16 = 8;

/// Indicates the start of a new stream.
pub const SYN: u16 = 1;

/// Acknowledges the start of a new stream.
pub const ACK: u16 = 2;

/// Indicates the half-closing of a stream.
pub const FIN: u16 = 4;

/// Indicates an immediate stream reset.
pub const RST: u16 = 8;

/// The ID of a stream.
///
/// The value 0 denotes no particular stream but the whole session.
#[derive(Copy, Clone, Debug, PartialEq, Eq, PartialOrd, Ord, Structural)]
pub struct StreamId(pub u32);

/// The ID that denotes the whole session.
pub const CONNECTION_ID: u32 = 0;

impl StreamId {
    /// Makes the ID with the given value.
    pub fn new(val: u32) -> (id: Self)
        ensures
            id == StreamId(val),
    {
        StreamId(val)
    }

    /// Whether the ID is one that a server assigns.
    pub open spec fn server_side(self) -> bool {
        self.0 % 2 == 0
    }

    /// Whether a server assigns this ID: server IDs are even.
    pub fn is_server(self) -> (b: bool)
        ensures
            b == self.server_side(),
    {
        self.0 % 2 == 0
    }

    /// Whether a client assigns this ID: client IDs are odd.
    pub fn is_client(self) -> (b: bool)
        ensures
            b == !self.server_side(),
    {
        !self.is_server()
    }

    /// Whether this ID denotes the whole session.
    pub fn is_session(self) -> (b: bool)
        ensures
            b == (self.0 == CONNECTION_ID),
    {
        self == StreamId(CONNECTION_ID)
    }

    /// The numeric value of this ID.
    pub fn val(self) -> (v: u32)
        ensures
            v == self.0,
    {
        self.0
    }
}

/// The message frame header.
#[derive(Clone, Debug, PartialEq, Eq, Structural)]
pub struct Header {
    pub version: u8,
    pub tag: Tag,
    pub flags: Flags,
    pub stream_id: StreamId,
    pub length: u32,
}

/// The version-0 header with the given tag, no flags, stream and length field.
pub open spec fn plain_header(tag: Tag, stream_id: StreamId, length: u32) -> Header {
    Header { version: 0, tag, flags: Flags(0), stream_id, length }
}

impl Header {
    /// This header with the bits of `flag` set besides those it has.
    pub open spec fn flagged(self, flag: u16) -> Header {
        Header { flags: Flags(self.flags.0 | flag), ..self }
    }

    /// Whether a receiver accepts this header: a known version, and flags
    /// within the known range.
    pub open spec fn valid(self) -> bool {
        self.version == 0 && self.flags.0 <= MAX_FLAG_VAL
    }

    /// Create a new data frame header.
    pub fn data(id: StreamId, len: u32) -> (h: Self)
        ensures
            h == plain_header(Tag::Data, id, len),
    {
        Header { version: 0, tag: Tag::Data, flags: Flags(0), stream_id: id, length: len }
    }

    /// Create a new window update frame header.
    pub fn window_update(id: StreamId, credit: u32) -> (h: Self)
        ensures
            h == plain_header(Tag::WindowUpdate, id, credit),
    {
        Header { version: 0, tag: Tag::WindowUpdate, flags: Flags(0), stream_id: id, length: credit }
    }

    /// The credit this window update grants to the remote.
    pub fn credit(&self) -> (c: u32)
        ensures
            c == self.length,
    {
        self.length
    }

    /// Create a new ping frame header.
    pub fn ping(nonce: u32) -> (h: Self)
        ensures
            h == plain_header(Tag::Ping, StreamId(0), nonce),
    {
        Header { version: 0, tag: Tag::Ping, flags: Flags(0), stream_id: StreamId(0), length: nonce }
    }

    /// The nonce of this ping.
    pub fn nonce(&self) -> (n: u32)
        ensures
            n == self.length,
    {
        self.length
    }

    /// Terminate the session without indicating an error to the remote.
    pub fn term() -> (h: Self)
        ensures
            h == plain_header(Tag::GoAway, StreamId(0), 0),
    {
        Self::go_away(0)
    }

    /// Terminate the session indicating a protocol error to the remote.
    pub fn protocol_error() -> (h: Self)
        ensures
            h == plain_header(Tag::GoAway, StreamId(0), 1),
    {
        Self::go_away(1)
    }

    /// Terminate the session indicating an internal error to the remote.
    pub fn internal_error() -> (h: Self)
        ensures
            h == plain_header(Tag::GoAway, StreamId(0), 2),
    {
        Self::go_away(2)
    }

    /// Terminate the session with the given code.
    fn go_away(code: u32) -> (h: Self)
        ensures
            h == plain_header(Tag::GoAway, StreamId(0), code),
    {
        Header { version: 0, tag: Tag::GoAway, flags: Flags(0), stream_id: StreamId(0), length: code }
    }

    /// Set the SYN flag.
    pub fn syn(&mut self)
        ensures
            *final(self) == old(self).flagged(SYN),
    {
        self.flags = Flags(self.flags.0 | SYN);
    }

    /// Set the ACK flag.
    pub fn ack(&mut self)
        ensures
            *final(self) == old(self).flagged(ACK),
    {
        self.flags = Flags(self.flags.0 | ACK);
    }

    /// Set the RST flag.
    pub fn rst(&mut self)
        ensures
            *final(self) == old(self).flagged(RST),
    {
        self.flags = Flags(self.flags.0 | RST);
    }
}

/// The serialised header size in bytes.
pub const HEADER_SIZE: usize = 12;

/// The wire format of a header: version, tag, then flags, stream ID and length
/// in network byte order.
pub open spec fn header_bytes(hdr: Header) -> Seq<u8> {
    seq![hdr.version, hdr.tag.code()] + be_u16(hdr.flags.0) + be_u32(hdr.stream_id.0) + be_u32(
        hdr.length,
    )
}

/// Encode a [`Header`] value.
pub fn encode(hdr: &Header) -> (buf: [u8; HEADER_SIZE])
    ensures
        buf@ == header_bytes(*hdr),
{
    let tag: u8 = match hdr.tag {
        Tag::Data => 0,
        Tag::WindowUpdate => 1,
        Tag::Ping => 2,
        Tag::GoAway => 3,
    };
    let f = split_u16(hdr.flags.0);
    let s = split_u32(hdr.stream_id.0);
    let l = split_u32(hdr.length);
    let ghost fs = seq![f.0, f.1];
    let ghost ss = seq![s.0, s.1, s.2, s.3];
    let ghost ls = seq![l.0, l.1, l.2, l.3];
    let buf: [u8; HEADER_SIZE] = [
        hdr.version,
        tag,
        f.0,
        f.1,
        s.0,
        s.1,
        s.2,
        s.3,
        l.0,
        l.1,
        l.2,
        l.3,
    ];
    assert(buf@ =~= seq![hdr.version, tag] + fs + ss + ls);
    buf
}

/// Possible errors while decoding a message frame header.
#[non_exhaustive]
#[derive(Debug)]
pub enum HeaderDecodeError {
    /// Unknown version.
    Version(u8),
    /// An unknown frame type.
    Type(u8),
    /// Unknown flags.
    Flags(u16),
}

/// What twelve bytes decode to. The version is judged first, then the frame
/// type, then the flags.
pub open spec fn decoded(b: Seq<u8>) -> Result<Header, HeaderDecodeError> {
    let flags = from_be_u16(b[2], b[3]);
    if b[0] != 0 {
        Err(HeaderDecodeError::Version(b[0]))
    } else {
        match Tag::of_code(b[1]) {
            None => Err(HeaderDecodeError::Type(b[1])),
            Some(tag) => if flags > MAX_FLAG_VAL {
                Err(HeaderDecodeError::Flags(flags))
            } else {
                Ok(
                    Header {
                        version: 0,
                        tag,
                        flags: Flags(flags),
                        stream_id: StreamId(from_be_u32(b[4], b[5], b[6], b[7])),
                        length: from_be_u32(b[8], b[9], b[10], b[11]),
                    },
                )
            },
        }
    }
}

/// Decode a [`Header`] value.
pub fn decode(buf: &[u8; HEADER_SIZE]) -> (res: Result<Header, HeaderDecodeError>)
    ensures
        res == decoded(buf@),
{
    if buf[0] != 0 {
        return Err(HeaderDecodeError::Version(buf[0]));
    }
    let hdr = Header {
        version: buf[0],
        tag: match buf[1] {
            0 => Tag::Data,
            1 => Tag::WindowUpdate,
            2 => Tag::Ping,
            3 => Tag::GoAway,
            t => return Err(HeaderDecodeError::Type(t)),
        },
        flags: Flags(join_u16(buf[2], buf[3])),
        stream_id: StreamId(join_u32(buf[4], buf[5], buf[6], buf[7])),
        length: join_u32(buf[8], buf[9], buf[10], buf[11]),
    };
    if hdr.flags.0 > MAX_FLAG_VAL {
        return Err(HeaderDecodeError::Flags(hdr.flags.0));
    }
    Ok(hdr)
}

/// A header that is encoded and decoded again comes back unchanged, whenever
/// its version and flags are ones that a receiver knows.
pub proof fn law_decode_encode(hdr: Header)
    requires
        hdr.valid(),
    ensures
        decoded(header_bytes(hdr)) == Ok::<Header, HeaderDecodeError>(hdr),
{
    lemma_header_bytes(hdr);
    law_u16_round_trip(hdr.flags.0);
    law_u32_round_trip(hdr.stream_id.0);
    law_u32_round_trip(hdr.length);
}

/// Bytes that decode to a header are exactly the bytes of that header, and the
/// header is a valid one.
pub proof fn law_encode_decode(b: Seq<u8>)
    requires
        b.len() == HEADER_SIZE,
        decoded(b) is Ok,
    ensures
        header_bytes(decoded(b)->Ok_0) == b,
        decoded(b)->Ok_0.valid(),
{
    law_u16_bytes_round_trip(b[2], b[3]);
    law_u32_bytes_round_trip(b[4], b[5], b[6], b[7]);
    law_u32_bytes_round_trip(b[8], b[9], b[10], b[11]);
    assert(header_bytes(decoded(b)->Ok_0) =~= b);
}

/// Where the parts of a header stand among its bytes.
proof fn lemma_header_bytes(hdr: Header)
    ensures
        header_bytes(hdr).len() == HEADER_SIZE,
        header_bytes(hdr)[0] == hdr.version,
        header_bytes(hdr)[1] == hdr.tag.code(),
        header_bytes(hdr)[2] == be_u16(hdr.flags.0)[0],
        header_bytes(hdr)[3] == be_u16(hdr.flags.0)[1],
        header_bytes(hdr)[4] == be_u32(hdr.stream_id.0)[0],
        header_bytes(hdr)[5] == be_u32(hdr.stream_id.0)[1],
        header_bytes(hdr)[6] == be_u32(hdr.stream_id.0)[2],
        header_bytes(hdr)[7] == be_u32(hdr.stream_id.0)[3],
        header_bytes(hdr)[8] == be_u32(hdr.length)[0],
        header_bytes(hdr)[9] == be_u32(hdr.length)[1],
        header_bytes(hdr)[10] == be_u32(hdr.length)[2],
        header_bytes(hdr)[11] == be_u32(hdr.length)[3],
{
}

/// Tags with the same code are the same tag.
proof fn lemma_tag_code_injective(a: Tag, b: Tag)
    requires
        a.code() == b.code(),
    ensures
        a == b,
{
}

/// Headers with the same bytes are the same header.
#[verifier::spinoff_prover]
pub proof fn law_encode_injective(a: Header, b: Header)
    requires
        header_bytes(a) == header_bytes(b),
    ensures
        a == b,
{
    lemma_header_bytes(a);
    lemma_header_bytes(b);
    assert(a.version == b.version);
    lemma_tag_code_injective(a.tag, b.tag);
    assert(a.flags.0 == b.flags.0) by {
        law_u16_round_trip(a.flags.0);
        law_u16_round_trip(b.flags.0);
    }
    assert(a.stream_id.0 == b.stream_id.0) by {
        law_u32_round_trip(a.stream_id.0);
        law_u32_round_trip(b.stream_id.0);
    }
    assert(a.length == b.length) by {
        law_u32_round_trip(a.length);
        law_u32_round_trip(b.length);
    }
}

/// Setting a flag sets it, and leaves every flag that was there.
pub proof fn law_flag_set(hdr: Header, flag: u16, other: u16)
    ensures
        hdr.flagged(flag).flags.has(flag),
        hdr.flags.has(other) ==> hdr.flagged(flag).flags.has(other),
{
    let f = hdr.flags.0;
    assert((f | flag) & flag == flag) by (bit_vector);
    assert(f & other == other ==> (f | flag) & other == other) by (bit_vector);
}

/// The four flags are distinct bits: none of them is contained in another.
pub(crate) proof fn lemma_flags_distinct()
    ensures
        !Flags(SYN).has(ACK) && !Flags(SYN).has(FIN) && !Flags(SYN).has(RST),
        !Flags(ACK).has(SYN) && !Flags(ACK).has(FIN) && !Flags(ACK).has(RST),
        !Flags(FIN).has(SYN) && !Flags(FIN).has(ACK) && !Flags(FIN).has(RST),
        !Flags(RST).has(SYN) && !Flags(RST).has(ACK) && !Flags(RST).has(FIN),
{
    assert(1u16 & 2u16 != 2 && 1u16 & 4u16 != 4 && 1u16 & 8u16 != 8) by (bit_vector);
    assert(2u16 & 1u16 != 1 && 2u16 & 4u16 != 4 && 2u16 & 8u16 != 8) by (bit_vector);
    assert(4u16 & 1u16 != 1 && 4u16 & 2u16 != 2 && 4u16 & 8u16 != 8) by (bit_vector);
    assert(8u16 & 1u16 != 1 && 8u16 & 2u16 != 2 && 8u16 & 4u16 != 4) by (bit_vector);
}

/// A header without flags that is given one of SYN, ACK or RST is one that a
/// receiver accepts.
pub proof fn law_one_flag_valid(hdr: Header, flag: u16)
    requires
        hdr.version == 0,
        hdr.flags.0 == 0,
        flag == SYN || flag == ACK || flag == RST,
    ensures
        hdr.flagged(flag).flags.0 == flag,
        hdr.flagged(flag).valid(),
{
    assert(0u16 | flag == flag) by (bit_vector);
}

} // verus!
