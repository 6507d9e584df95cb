//! The sending half of a session: what is written to the transport for each
//! frame.

use crate::bytes::strings;
use crate::frame::{Frame, FrameView};
use crate::header::{encode, header_bytes, plain_header, Header, StreamId, Tag};
use crate::session::StreamCommand;
use crate::stream::{Flag, Stream};
use futures::channel::mpsc;
use std::num::TryFromIntError;
use vstd::prelude::*;
use vstd::slice::slice_to_vec;

verus! {

/// The sending half of a session. Frames to be sent arrive as commands.
pub struct SecioSessionWriter {
    pub stream_receiver: mpsc::Receiver<StreamCommand>,
}

/// The messages that a frame is sent as: its header and, unless it is empty,
/// its body.
pub open spec fn frame_messages(frame: FrameView) -> Seq<Seq<u8>> {
    if frame.body.len() == 0 {
        seq![header_bytes(frame.header)]
    } else {
        seq![header_bytes(frame.header), frame.body]
    }
}

/// The messages that a command is answered with: those of the frame that it
/// asks to be sent, or none. A command to close a stream is not carried out.
pub open spec fn command_messages(command: Option<StreamCommand>) -> Seq<Seq<u8>> {
    match command {
        Some(StreamCommand::SendFrame(frame)) => frame_messages(frame@),
        _ => Seq::empty(),
    }
}

/// The message that a header is sent as.
fn header_message(header: &Header) -> (m: Vec<u8>)
    ensures
        m@ == header_bytes(*header),
{
    let bytes = encode(header);
    slice_to_vec(bytes.as_slice())
}

impl SecioSessionWriter {
    /// Create a new sending half that takes commands from the given channel.
    pub fn new(receiver: mpsc::Receiver<StreamCommand>) -> (w: Self)
        ensures
            w.stream_receiver == receiver,
    {
        SecioSessionWriter { stream_receiver: receiver }
    }

    /// The messages that grant the remote credit on a stream, with the flag
    /// that announces or acknowledges the stream.
    pub fn window_update_frame_send(&self, id: StreamId, credit: u32, flag: Flag) -> (messages: Vec<
        Vec<u8>,
    >)
        ensures
            strings(messages@) == seq![
                header_bytes(flag.on(plain_header(Tag::WindowUpdate, id, credit))),
            ],
    {
        let mut frame = Frame::window_update(id, credit);
        flag.set_on(frame.header_mut());
        let m = header_message(&frame.header);
        let messages = vec![m];
        assert(strings(messages@) =~= seq![m@]);
        messages
    }

    /// The messages that send data on a stream: a header and the data. The
    /// data is refused where its length does not fit the header.
    pub fn data_frame_send(&self, stream: Stream, data: Vec<u8>) -> (res: Result<
        Vec<Vec<u8>>,
        TryFromIntError,
    >)
        ensures
            res is Ok <==> data@.len() <= u32::MAX,
            res matches Ok(messages) ==> strings(messages@) == seq![
                header_bytes(
                    stream.flag.on(plain_header(Tag::Data, stream.id, data@.len() as u32)),
                ),
                data@,
            ],
    {
        let mut frame = match Frame::data(stream.id(), data) {
            Ok(f) => f,
            Err(e) => return Err(e),
        };
        stream.flag.set_on(&mut frame.header);
        let m = header_message(&frame.header);
        let messages = vec![m, frame.body];
        assert(strings(messages@) =~= seq![m@, data@]);
        Ok(messages)
    }

    /// The messages that send a frame.
    pub fn frame_send(&self, frame: Frame) -> (messages: Vec<Vec<u8>>)
        ensures
            strings(messages@) == frame_messages(frame@),
    {
        let mut messages = vec![header_message(&frame.header)];
        if !frame.body.is_empty() {
            messages.push(frame.body);
        }
        assert(strings(messages@) =~= frame_messages(frame@));
        messages
    }

    /// The messages that answer what the command channel gave: those of a
    /// frame to be sent, or none.
    pub fn send_process(&self, command: Option<StreamCommand>) -> (messages: Vec<Vec<u8>>)
        ensures
            strings(messages@) == command_messages(command),
    {
        match command {
            Some(StreamCommand::SendFrame(frame)) => self.frame_send(frame),
            _ => {
                let messages: Vec<Vec<u8>> = Vec::new();
                assert(strings(messages@) =~= Seq::empty());
                messages
            },
        }
    }
}

} // verus!
