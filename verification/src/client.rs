//! The users of a session: what they make of the replies that they get, and
//! the messages of a demonstration session.

use crate::frame::{Frame, FrameView};
use crate::header::{plain_header, StreamId, Tag};
use crate::stream::Stream;
use crate::text::{decimal_chars, labelled, lemma_decimal};
use futures::channel::mpsc;
use vstd::prelude::*;
use vstd::string::*;
use vstd::utf8::{encode_utf8, is_ascii_chars, is_ascii_chars_encode_utf8};

verus! {

/// The outcome of a request to the session: the reply, or a failure where the
/// request could not be made or was never answered.
pub fn request_outcome<T>(reply: Option<Result<T, String>>) -> (outcome: Result<T, String>)
    ensures
        match reply {
            Some(r) => outcome == r,
            None => outcome matches Err(e) && e@ == "fail"@,
        },
{
    match reply {
        Some(r) => r,
        None => Err("fail".to_owned()),
    }
}

/// A stream whose data a user takes over.
pub struct ServedStream {
    /// What had been cached of the stream, if anything.
    pub cached: Option<Vec<u8>>,
    /// Where further data arrives.
    pub data_receiver: mpsc::Receiver<Vec<u8>>,
}

/// `served` is what a user takes over of `stream`.
pub open spec fn serves(stream: Stream, served: ServedStream) -> bool {
    &&& stream.data_receiver == Some(served.data_receiver)
    &&& match served.cached {
        Some(cache) => cache@ == stream.cache@ && cache@.len() > 0,
        None => stream.cache@.len() == 0,
    }
}

/// Takes over the data of a stream that was handed out.
pub fn serve(stream: Stream) -> (served: ServedStream)
    requires
        stream.data_receiver is Some,
    ensures
        serves(stream, served),
{
    let data_receiver = stream.data_receiver.unwrap();
    let cached = if !stream.cache.is_empty() {
        Some(stream.cache)
    } else {
        None
    };
    ServedStream { cached, data_receiver }
}

/// What a user does who waits for a stream of the remote.
pub enum Deal {
    /// The stream is there.
    Serve(ServedStream),
    /// The stream is not there yet, for the given reason: ask again later.
    Retry(String),
}

/// Decides what to do about the reply to a request for a stream of the remote.
pub fn remote_stream_deal(reply: Result<Stream, String>) -> (deal: Deal)
    requires
        reply matches Ok(stream) ==> stream.data_receiver is Some,
    ensures
        match reply {
            Ok(stream) => deal matches Deal::Serve(served) && serves(stream, served),
            Err(e) => deal == Deal::Retry(e),
        },
{
    match reply {
        Ok(stream) => Deal::Serve(serve(stream)),
        Err(e) => Deal::Retry(e),
    }
}

/// Parts a stream that was handed out into a copy to send with, and the
/// receiving end for its data.
pub fn sending_copy(stream: Stream) -> (parts: (Stream, mpsc::Receiver<Vec<u8>>))
    requires
        stream.data_receiver is Some,
    ensures
        parts.0@ == stream@.copied(),
        stream.data_receiver == Some(parts.1),
{
    let copy = stream.clone();
    (copy, stream.data_receiver.unwrap())
}

/// The text of the `index`-th periodic message.
pub open spec fn period_text(index: u32) -> Seq<char> {
    "love and peace:"@ + decimal_chars(index as nat)
}

/// The number of the next periodic message, when `sent` of them have been sent.
/// The numbers end at the largest 32-bit signed integer.
pub fn next_greeting(sent: u32) -> (n: Option<u32>)
    ensures
        match n {
            Some(k) => sent < i32::MAX && k == sent + 1,
            None => sent >= i32::MAX,
        },
{
    if sent < 0x7fff_ffff {
        Some(sent + 1)
    } else {
        None
    }
}

/// The periodic message of a demonstration session: a data frame on the given
/// stream that holds the numbered greeting.
pub fn period_frame(id: StreamId, index: u32) -> (f: Frame)
    ensures
        f@ == (FrameView {
            header: plain_header(Tag::Data, id, encode_utf8(period_text(index)).len() as u32),
            body: encode_utf8(period_text(index)),
        }),
        f.body@.len() <= 25,
{
    let text = labelled("love and peace:", index);
    let body = text.as_str().as_bytes_vec();
    proof {
        reveal_strlit("love and peace:");
        assert(vstd::arithmetic::power::pow(10, 10) == 10_000_000_000) by {
            reveal_with_fuel(vstd::arithmetic::power::pow, 11);
        }
        lemma_decimal(index as nat, 10, 10_000_000_000);
        assert(is_ascii_chars("love and peace:"@));
        assert(is_ascii_chars(period_text(index)));
        is_ascii_chars_encode_utf8(period_text(index));
    }
    Frame::data(id, body).unwrap()
}

} // verus!
