//! Laws of text: numbers in it can be read back.

use crate::client::{period_frame, period_text};
use crate::frame::Frame;
use crate::header::{HeaderDecodeError, StreamId, Tag};
use crate::stream::Stream;
use crate::text::{decimal, decimal_chars, labelled};
use crate::wire_laws::is_header;
use vstd::prelude::*;
use vstd::utf8::{is_ascii_chars, is_ascii_chars_encode_utf8};

verus! {

/// The number that a string of decimal digits stands for.
pub open spec fn number_of(s: Seq<char>) -> int
    decreases s.len(),
{
    if s.len() == 0 {
        0
    } else {
        10 * number_of(s.drop_last()) + (s.last() as int - '0' as int)
    }
}

/// Whether a string is a number in decimal: digits alone, without leading
/// zeros, that stand for the number.
pub open spec fn is_number(s: Seq<char>, n: int) -> bool {
    &&& s.len() >= 1
    &&& forall|i: int| 0 <= i < s.len() ==> '0' <= #[trigger] s[i] <= '9'
    &&& s.len() > 1 ==> s[0] != '0'
    &&& number_of(s) == n
}

/// Decimal digits stand for the number that they were made of.
pub proof fn law_decimal_digits(n: nat)
    ensures
        is_number(decimal_chars(n), n as int),
    decreases n,
{
    let s = decimal_chars(n);
    if n < 10 {
        assert(s.drop_last() =~= Seq::empty());
        assert(number_of(s.drop_last()) == 0);
    } else {
        let front = decimal_chars(n / 10);
        law_decimal_digits(n / 10);
        assert(s.drop_last() =~= front);
        assert(s[0] == front[0]);
        if front.len() == 1 {
            assert(front.drop_last() =~= Seq::empty());
            assert(number_of(front.drop_last()) == 0);
            assert(front.last() == front[0]);
        }
    }
}

/// A number written in decimal, alone or behind a label, can be read back.
pub proof fn law_decimal(n: u32, s: String, label: &str, t: String, id: String)
    requires
        call_ensures(decimal, (n,), s),
        call_ensures(labelled, (label, n), t),
        call_ensures(StreamId::to_text, (&StreamId(n),), id),
    ensures
        is_number(s@, n as int),
        is_number(id@, n as int),
        t@.len() > label@.len(),
        t@.take(label@.len() as int) == label@,
        is_number(t@.skip(label@.len() as int), n as int),
{
    law_decimal_digits(n as nat);
    assert(t@.take(label@.len() as int) =~= label@);
    assert(t@.skip(label@.len() as int) =~= decimal_chars(n as nat));
}

/// The value that a decode error complains of.
pub open spec fn unknown_value(e: HeaderDecodeError) -> int {
    match e {
        HeaderDecodeError::Version(v) => v as int,
        HeaderDecodeError::Type(t) => t as int,
        HeaderDecodeError::Flags(f) => f as int,
    }
}

/// A decode error tells in words what is unknown, and its value.
pub proof fn law_decode_error_text(e: HeaderDecodeError, s: String)
    requires
        call_ensures(HeaderDecodeError::to_text, (&e,), s),
    ensures
        exists|d: Seq<char>|
            {
                &&& #[trigger] is_number(d, unknown_value(e))
                &&& s@ == match e {
                    HeaderDecodeError::Version(_) => "unknown version: "@,
                    HeaderDecodeError::Type(_) => "unknown frame type: "@,
                    HeaderDecodeError::Flags(_) => "unknown flags type: "@,
                } + d
            },
{
    let d = decimal_chars(unknown_value(e) as nat);
    law_decimal_digits(unknown_value(e) as nat);
    assert(is_number(d, unknown_value(e)));
}

/// A stream as text names its session and then itself; for debugging, itself
/// and then its session, and whether something is pending.
pub proof fn law_stream_text(stream: Stream, s: String, t: String)
    requires
        call_ensures(Stream::to_text, (&stream,), s),
        call_ensures(Stream::to_debug_text, (&stream,), t),
    ensures
        exists|conn: Seq<char>, id: Seq<char>|
            {
                &&& #[trigger] is_number(conn, stream.conn.0 as int)
                &&& #[trigger] is_number(id, stream.id.0 as int)
                &&& s@ == "(Stream "@ + conn + "/"@ + id + ")"@
                &&& t@ == "Stream { id: "@ + id + ", connection: "@ + conn
                    + if stream.pending is Some {
                    ", pending: true }"@
                } else {
                    ", pending: false }"@
                }
            },
{
    law_decimal_digits(stream.conn.0 as nat);
    law_decimal_digits(stream.id.0 as nat);
    assert(is_number(decimal_chars(stream.conn.0 as nat), stream.conn.0 as int));
    assert(is_number(decimal_chars(stream.id.0 as nat), stream.id.0 as int));
}

/// A greeting is a data frame on the stream given whose bytes spell the
/// greeting with its number.
pub proof fn law_period_frame(id: StreamId, index: u32, f: Frame)
    requires
        call_ensures(period_frame, (id, index), f),
    ensures
        is_header(f.header, Tag::Data, 0, id.0 as int, f.body@.len() as int),
        exists|d: Seq<char>|
            {
                &&& #[trigger] is_number(d, index as int)
                &&& f.body@.len() == ("love and peace:"@ + d).len()
                &&& forall|i: int|
                    0 <= i < f.body@.len() ==> #[trigger] f.body@[i] as int == ("love and peace:"@
                        + d)[i] as int
            },
{
    let d = decimal_chars(index as nat);
    let text = period_text(index);
    law_decimal_digits(index as nat);
    reveal_strlit("love and peace:");
    assert(is_ascii_chars("love and peace:"@));
    assert(is_ascii_chars(text));
    is_ascii_chars_encode_utf8(text);
    assert(f@.header == f.header && f@.body == f.body@);
    assert(is_number(d, index as int));
}

} // verus!
