//! Message frames: a header and a body.

use crate::bytes::low_u32;
use crate::header::{plain_header, Header, StreamId, Tag};
use std::num::TryFromIntError;
use vstd::prelude::*;

verus! {

/// A Yamux message frame consisting of header and body.
#[derive(Clone, Debug, PartialEq, Eq)]
pub struct Frame {
    pub header: Header,
    pub body: Vec<u8>,
}

/// The contents of a [`Frame`].
#[verifier::ext_equal]
pub struct FrameView {
    pub header: Header,
    pub body: Seq<u8>,
}

impl View for Frame {
    type V = FrameView;

    open spec fn view(&self) -> FrameView {
        FrameView { header: self.header, body: self.body@ }
    }
}

/// The frame that consists of a header alone.
pub open spec fn bare_frame(header: Header) -> FrameView {
    FrameView { header, body: Seq::empty() }
}

/// The go-away frame that tells the remote of a protocol error.
pub open spec fn protocol_error_frame() -> FrameView {
    bare_frame(plain_header(Tag::GoAway, StreamId(0), 1))
}

/// The go-away frame that tells the remote of an internal error.
pub open spec fn internal_error_frame() -> FrameView {
    bare_frame(plain_header(Tag::GoAway, StreamId(0), 2))
}

impl FrameView {
    /// Whether the frame can travel: its header is one that a receiver
    /// accepts, a data frame announces the length of its body, and no other
    /// frame has a body.
    pub open spec fn sendable(self) -> bool {
        &&& self.header.valid()
        &&& if self.header.tag == Tag::Data {
            self.header.length == self.body.len()
        } else {
            self.body.len() == 0
        }
    }
}

impl Frame {
    /// Create a frame without a body.
    pub fn new(header: Header) -> (f: Self)
        ensures
            f@ == bare_frame(header),
    {
        Frame { header, body: Vec::new() }
    }

    /// The header of this frame.
    pub fn header(&self) -> (h: &Header)
        ensures
            *h == self.header,
    {
        &self.header
    }

    /// The header of this frame, for modification.
    pub fn header_mut(&mut self) -> (h: &mut Header)
        ensures
            *h == old(self).header,
            final(self).header == *final(h),
            final(self).body == old(self).body,
    {
        &mut self.header
    }

    /// Create a new data frame. A body whose length does not fit the header
    /// is refused.
    pub fn data(id: StreamId, b: Vec<u8>) -> (res: Result<Self, TryFromIntError>)
        ensures
            res is Ok <==> b@.len() <= u32::MAX,
            res matches Ok(f) ==> f@ == (FrameView {
                header: plain_header(Tag::Data, id, b@.len() as u32),
                body: b@,
            }),
    {
        match u32::try_from(b.len()) {
            Ok(len) => Ok(Frame { header: Header::data(id, len), body: b }),
            Err(e) => Err(e),
        }
    }

    /// The body of this frame.
    pub fn body(&self) -> (b: &[u8])
        ensures
            b@ == self.body@,
    {
        &self.body
    }

    /// The length of the body, modulo the range of the length field. A frame
    /// made by [`Frame::data`] always has a body within that range.
    pub fn body_len(&self) -> (n: u32)
        ensures
            n == self.body@.len() % 0x1_0000_0000,
    {
        low_u32(self.body().len())
    }

    /// Takes the body out of this frame.
    pub fn into_body(self) -> (b: Vec<u8>)
        ensures
            b == self.body,
    {
        self.body
    }

    /// Create a new window update frame.
    pub fn window_update(id: StreamId, credit: u32) -> (f: Self)
        ensures
            f@ == bare_frame(plain_header(Tag::WindowUpdate, id, credit)),
    {
        Frame { header: Header::window_update(id, credit), body: Vec::new() }
    }

    /// Create a new go away frame.
    pub fn term() -> (f: Self)
        ensures
            f@ == bare_frame(plain_header(Tag::GoAway, StreamId(0), 0)),
    {
        Frame { header: Header::term(), body: Vec::new() }
    }

    /// Create a go away frame that indicates a protocol error.
    pub fn protocol_error() -> (f: Self)
        ensures
            f@ == protocol_error_frame(),
    {
        Frame { header: Header::protocol_error(), body: Vec::new() }
    }

    /// Create a go away frame that indicates an internal error.
    pub fn internal_error() -> (f: Self)
        ensures
            f@ == internal_error_frame(),
    {
        Frame { header: Header::internal_error(), body: Vec::new() }
    }
}

} // verus!
