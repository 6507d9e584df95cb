//! Receiving frames from a transport that delivers bytes in chunks.

use crate::bytes::low_u32;
use crate::frame::{bare_frame, Frame, FrameView};
use crate::header::{decode, decoded, Header, Tag, HEADER_SIZE};
use vstd::prelude::*;

verus! {

/// The stages of reading a new `Frame`.
#[derive(Clone, Debug, PartialEq, Eq)]
pub enum ReadState {
    /// Initial reading state.
    Init,
    /// Reading the frame header.
    Header { offset: usize, buffer: [u8; HEADER_SIZE] },
    /// Reading the frame body.
    Body { header: Header, offset: usize, buffer: Vec<u8> },
}

/// The contents of a [`ReadState`].
pub enum ReadStateView {
    Init,
    Header { offset: nat, buffer: Seq<u8> },
    Body { header: Header, offset: nat, buffer: Seq<u8> },
}

impl View for ReadState {
    type V = ReadStateView;

    open spec fn view(&self) -> ReadStateView {
        match self {
            ReadState::Init => ReadStateView::Init,
            ReadState::Header { offset, buffer } => ReadStateView::Header {
                offset: *offset as nat,
                buffer: buffer@,
            },
            ReadState::Body { header, offset, buffer } => ReadStateView::Body {
                header: *header,
                offset: *offset as nat,
                buffer: buffer@,
            },
        }
    }
}

/// What became of reading a frame once a chunk has arrived.
#[derive(Debug)]
pub enum ReadStep {
    /// More chunks are needed.
    Pending(ReadState),
    /// The frame is complete.
    Complete(Frame),
    /// The header is not one of a frame.
    Failed(String),
}

/// The contents of a [`ReadStep`].
pub enum ReadStepView {
    Pending(ReadStateView),
    Complete(FrameView),
    Failed(Seq<char>),
}

impl View for ReadStep {
    type V = ReadStepView;

    open spec fn view(&self) -> ReadStepView {
        match self {
            ReadStep::Pending(s) => ReadStepView::Pending(s@),
            ReadStep::Complete(f) => ReadStepView::Complete(f@),
            ReadStep::Failed(e) => ReadStepView::Failed(e@),
        }
    }
}

/// What becomes of a header that has just been read in full, when `rest`
/// follows it in the same chunk. A data frame whose chunk holds more than its
/// body is dropped: the next chunk begins a new header.
pub open spec fn header_read(bytes: Seq<u8>, rest: Seq<u8>) -> ReadStepView {
    match decoded(bytes) {
        Err(_) => ReadStepView::Failed("decode header fail"@),
        Ok(header) => if header.tag != Tag::Data {
            ReadStepView::Complete(bare_frame(header))
        } else if rest.len() % 0x1_0000_0000 == header.length {
            ReadStepView::Complete(FrameView { header, body: rest })
        } else if rest.len() % 0x1_0000_0000 < header.length {
            ReadStepView::Pending(
                ReadStateView::Body { header, offset: rest.len(), buffer: rest },
            )
        } else {
            ReadStepView::Pending(ReadStateView::Header { offset: 0, buffer: bytes })
        },
    }
}

/// A header buffer once a chunk has been copied to the given offset.
pub open spec fn overlaid(buffer: Seq<u8>, offset: nat, chunk: Seq<u8>) -> Seq<u8> {
    buffer.take(offset as int) + chunk + buffer.skip((offset + chunk.len()) as int)
}

/// What a chunk makes of a header of which the first `offset` bytes are in
/// `buffer`.
///
/// A chunk that is shorter than what is missing is added to the header. Else
/// the header is complete; what follows it is the beginning of the body.
pub open spec fn header_step(offset: nat, buffer: Seq<u8>, chunk: Seq<u8>) -> ReadStepView {
    let missing = HEADER_SIZE - offset;
    if chunk.len() < missing {
        ReadStepView::Pending(
            ReadStateView::Header {
                offset: offset + chunk.len(),
                buffer: overlaid(buffer, offset, chunk),
            },
        )
    } else {
        header_read(buffer.take(offset as int) + chunk.take(missing), chunk.skip(missing))
    }
}

impl ReadStateView {
    /// Whether reading can go on from this state: no more of a header has
    /// been read than its size, and no more of a body than the header
    /// announces.
    pub open spec fn wf(self) -> bool {
        match self {
            ReadStateView::Init => true,
            ReadStateView::Header { offset, buffer } => {
                &&& offset <= HEADER_SIZE
                &&& buffer.len() == HEADER_SIZE
            },
            ReadStateView::Body { header, offset, .. } => offset <= header.length,
        }
    }

    /// What a chunk makes of this state.
    ///
    /// In the initial state the chunk begins the header, in the header state
    /// it goes on with it. In the body state the chunk is added to the body,
    /// unless it would exceed it: then the chunk is dropped.
    pub open spec fn step(self, chunk: Seq<u8>) -> ReadStepView {
        match self {
            ReadStateView::Init => header_step(
                0,
                Seq::new(HEADER_SIZE as nat, |i: int| 0u8),
                chunk,
            ),
            ReadStateView::Header { offset, buffer } => header_step(offset, buffer, chunk),
            ReadStateView::Body { header, offset, buffer } => if offset + chunk.len()
                == header.length {
                ReadStepView::Complete(FrameView { header, body: buffer + chunk })
            } else if offset + chunk.len() < header.length {
                ReadStepView::Pending(
                    ReadStateView::Body {
                        header,
                        offset: offset + chunk.len(),
                        buffer: buffer + chunk,
                    },
                )
            } else {
                ReadStepView::Pending(self)
            },
        }
    }
}

/// Copies a chunk into a header buffer.
fn fill(buffer: [u8; HEADER_SIZE], offset: usize, chunk: &Vec<u8>) -> (filled: [u8; HEADER_SIZE])
    requires
        offset <= HEADER_SIZE,
        chunk@.len() <= HEADER_SIZE - offset,
    ensures
        filled@ == overlaid(buffer@, offset as nat, chunk@),
{
    let mut filled = buffer;
    let mut i: usize = 0;
    while i < chunk.len()
        invariant
            offset <= HEADER_SIZE,
            i <= chunk@.len() <= HEADER_SIZE - offset,
            filled@.len() == HEADER_SIZE,
            buffer@.len() == HEADER_SIZE,
            forall|j: int| 0 <= j < offset ==> filled@[j] == buffer@[j],
            forall|j: int| offset <= j < offset + i ==> filled@[j] == chunk@[j - offset],
            forall|j: int| offset + i <= j < HEADER_SIZE ==> filled@[j] == buffer@[j],
        decreases chunk@.len() - i,
    {
        filled[offset + i] = chunk[i];
        i += 1;
    }
    assert(filled@ =~= overlaid(buffer@, offset as nat, chunk@));
    filled
}

impl ReadState {
    /// Goes on with a header of which the first `offset` bytes are in
    /// `buffer`.
    fn read_header(offset: usize, buffer: [u8; HEADER_SIZE], chunk: Vec<u8>) -> (next: ReadStep)
        requires
            offset <= HEADER_SIZE,
        ensures
            next@ == header_step(offset as nat, buffer@, chunk@),
    {
        let missing: usize = HEADER_SIZE - offset;
        if chunk.len() < missing {
            let buffer = fill(buffer, offset, &chunk);
            return ReadStep::Pending(ReadState::Header { offset: offset + chunk.len(), buffer });
        }
        let mut front = chunk;
        let rest = front.split_off(missing);
        let ghost begun = buffer@.take(offset as int);
        let buffer = fill(buffer, offset, &front);
        assert(buffer@ =~= begun + front@);
        let header = match decode(&buffer) {
            Ok(hd) => hd,
            Err(_) => return ReadStep::Failed("decode header fail".to_owned()),
        };
        match header.tag {
            Tag::Data => {
                let rest_len: u32 = low_u32(rest.len());
                if rest_len == header.length {
                    ReadStep::Complete(Frame { header, body: rest })
                } else if rest_len < header.length {
                    ReadStep::Pending(
                        ReadState::Body { header, offset: rest.len(), buffer: rest },
                    )
                } else {
                    ReadStep::Pending(ReadState::Header { offset: 0, buffer })
                }
            },
            _ => ReadStep::Complete(Frame::new(header)),
        }
    }

    /// Whether reading can go on from this state.
    pub fn can_advance(&self) -> (b: bool)
        ensures
            b == self@.wf(),
    {
        match self {
            ReadState::Init => true,
            ReadState::Header { offset, .. } => *offset <= HEADER_SIZE,
            ReadState::Body { header, offset, .. } => *offset <= header.length as usize,
        }
    }

    /// Goes on reading a frame with the next chunk. After a chunk whose length
    /// fits 32 bits, reading can go on.
    pub fn advance(self, chunk: Vec<u8>) -> (next: ReadStep)
        requires
            self@.wf(),
        ensures
            next@ == self@.step(chunk@),
            chunk@.len() <= u32::MAX ==> (next@ matches ReadStepView::Pending(state)
                ==> state.wf()),
    {
        match self {
            ReadState::Init => {
                let buffer: [u8; HEADER_SIZE] = [0; HEADER_SIZE];
                assert(buffer@ =~= Seq::new(HEADER_SIZE as nat, |i: int| 0u8));
                Self::read_header(0, buffer, chunk)
            },
            ReadState::Header { offset, buffer } => Self::read_header(offset, buffer, chunk),
            ReadState::Body { header, offset, buffer } => {
                let missing: usize = header.length as usize - offset;
                let mut chunk = chunk;
                let mut buffer = buffer;
                if chunk.len() == missing {
                    buffer.append(&mut chunk);
                    ReadStep::Complete(Frame { header, body: buffer })
                } else if chunk.len() < missing {
                    let offset: usize = offset + chunk.len();
                    buffer.append(&mut chunk);
                    ReadStep::Pending(ReadState::Body { header, offset, buffer })
                } else {
                    ReadStep::Pending(ReadState::Body { header, offset, buffer })
                }
            },
        }
    }
}

} // verus!
