use futures::channel::mpsc;
use yamux::frame::Frame;
use yamux::header::{encode, Flags, Header, StreamId, Tag, RST, SYN};
use yamux::reader::{SecioSessionReader, SessionEffects, SessionEvent};
use yamux::session::{ControlCommand, Id, Mode};
use yamux::stream::Flag;
use yamux::writer::SecioSessionWriter;
use yamux::io::{ReadState, ReadStep};
use yamux::Config;

fn session(mode: Mode) -> SecioSessionReader {
    SecioSessionReader::with_id(Id(1), Config::default(), mode, mpsc::channel(10).0)
}

fn frame(tag: Tag, id: u32, flags: u16, body: &[u8]) -> Frame {
    Frame {
        header: Header {
            version: 0,
            tag,
            flags: Flags(flags),
            stream_id: StreamId(id),
            length: body.len() as u32,
        },
        body: body.to_vec(),
    }
}

#[test]
fn different_headers_have_different_bytes() {
    let h = Header::data(StreamId(1), 1);
    let mut f = h.clone();
    f.syn();
    let all = [
        h,
        f,
        Header::data(StreamId(256), 1),
        Header::data(StreamId(1), 256),
        Header::window_update(StreamId(1), 1),
    ];
    for i in 0..all.len() {
        for j in 0..all.len() {
            assert_eq!(encode(&all[i]) == encode(&all[j]), i == j);
        }
    }
}

#[test]
fn frames_are_received_in_the_order_of_sending() {
    let writer = SecioSessionWriter::new(mpsc::channel(10).1);
    let frames = vec![
        frame(Tag::Data, 1, 0, b"one"),
        Frame::new(Header::ping(9)),
        frame(Tag::Data, 1, SYN, b""),
        frame(Tag::Data, 3, 0, b"two"),
    ];
    let mut received = Vec::new();
    let mut state = ReadState::Init;
    for f in &frames {
        for message in writer.frame_send(f.clone()) {
            state = match state.advance(message) {
                ReadStep::Pending(next) => next,
                ReadStep::Complete(f) => {
                    received.push(f);
                    ReadState::Init
                }
                ReadStep::Failed(e) => panic!("failed: {}", e),
            };
        }
    }
    assert_eq!(received, frames);
}

#[test]
fn frames_are_received_in_order_however_they_are_cut() {
    let writer = SecioSessionWriter::new(mpsc::channel(10).1);
    let frames = vec![
        frame(Tag::Data, 1, 0, b"one"),
        Frame::new(Header::ping(9)),
        frame(Tag::Data, 1, SYN, b""),
        frame(Tag::Data, 3, 0, b"two"),
    ];
    for size in 1..20 {
        let mut received = Vec::new();
        let mut state = ReadState::Init;
        for f in &frames {
            let bytes = writer.frame_send(f.clone()).concat();
            let mut chunks: Vec<Vec<u8>> = bytes.chunks(size).map(|c| c.to_vec()).collect();
            chunks.push(Vec::new());
            for chunk in chunks {
                assert!(state.can_advance());
                state = match state.advance(chunk) {
                    ReadStep::Pending(next) => next,
                    ReadStep::Complete(f) => {
                        received.push(f);
                        ReadState::Init
                    }
                    ReadStep::Failed(e) => panic!("failed: {}", e),
                };
            }
        }
        assert_eq!(received, frames);
    }
}

#[test]
fn the_ends_open_different_streams() {
    let mut client = session(Mode::Client);
    let mut server = session(Mode::Server);
    let mut ids = Vec::new();
    for _ in 0..4 {
        ids.push(client.open_secio_stream().unwrap().0.id().val());
        ids.push(server.open_secio_stream().unwrap().0.id().val());
    }
    assert_eq!(ids, vec![1, 2, 3, 4, 5, 6, 7, 8]);
    assert_eq!(client.streams.len(), 4);
}

#[test]
fn a_refused_frame_changes_nothing() {
    let mut r = session(Mode::Client);
    r.on_frame(frame(Tag::Data, 2, SYN, b""));
    r.on_frame(frame(Tag::Data, 2, 0, b"kept"));
    for f in [
        frame(Tag::Data, 2, SYN, b"x"),
        frame(Tag::Data, 3, SYN, b"x"),
        frame(Tag::Data, 2, RST, b"x"),
        frame(Tag::Data, 8, 0, b"x"),
        frame(Tag::WindowUpdate, 2, SYN, b""),
        frame(Tag::WindowUpdate, 2, 0, b""),
        frame(Tag::GoAway, 0, 0, b""),
    ] {
        let fx = r.on_frame(f);
        assert!(fx.inbound.is_none() && fx.announced.is_none());
        assert!(fx.deliveries.is_empty());
        assert_eq!(r.streams.len(), 1);
        assert_eq!(r.streams[&2].cache, b"\0\0\0\x04kept".to_vec());
        assert_eq!(r.next_id, 1);
    }
}

#[test]
fn a_frame_touches_one_stream() {
    let mut r = session(Mode::Client);
    for id in [2, 4] {
        r.on_frame(frame(Tag::WindowUpdate, id, SYN, b""));
        r.on_frame(frame(Tag::Data, id, 0, b"a"));
    }
    r.on_frame(frame(Tag::Data, 4, 0, b"b"));
    assert_eq!(r.streams[&2].cache, b"\0\0\0\x01a".to_vec());
    assert_eq!(r.streams[&4].cache, b"\0\0\0\x01a\0\0\0\x01b".to_vec());
    assert_eq!(r.streams[&2].flag, Flag::Ack);
    assert!(r.streams[&2].data_sender.is_none());
}

#[test]
fn a_user_gets_all_data_in_order() {
    let mut r = session(Mode::Client);
    r.on_frame(frame(Tag::WindowUpdate, 2, SYN, b""));
    r.on_frame(frame(Tag::Data, 2, 0, b"a"));
    r.on_frame(frame(Tag::Data, 2, 0, b"bc"));
    let mut user = r.get_stream(2).unwrap();
    let mut got = user.cache.clone();
    for body in [&b"def"[..], &b""[..], &b"g"[..]] {
        let fx = r.on_frame(frame(Tag::Data, 2, 0, body));
        let kept = r.streams.get_mut(&2).unwrap();
        for data in fx.deliveries {
            kept.data_sender.as_mut().unwrap().try_send(data).unwrap();
        }
    }
    while let Ok(data) = user.data_receiver.as_mut().unwrap().try_recv() {
        got.extend(data);
    }
    assert_eq!(got, b"\0\0\0\x01a\0\0\0\x02bc\0\0\0\x03def\0\0\0\0\0\0\0\x01g".to_vec());
}

#[test]
fn a_pong_is_not_answered() {
    let mut client = session(Mode::Client);
    let mut server = session(Mode::Server);
    let pong = match client.on_frame(Frame::new(Header::ping(5))).command {
        Some(yamux::session::StreamCommand::SendFrame(f)) => f,
        other => panic!("no pong: {:?}", other),
    };
    assert_eq!(pong.header.nonce(), 5);
    assert!(server.on_frame(pong).command.is_none());
}

#[test]
fn answers_are_not_answered() {
    let mut client = session(Mode::Client);
    let mut server = session(Mode::Server);
    for f in [
        frame(Tag::Data, 8, 0, b"x"),
        frame(Tag::Data, 3, SYN, b"x"),
        frame(Tag::WindowUpdate, 8, 0, b""),
        frame(Tag::Ping, 8, 0, b""),
    ] {
        match client.on_frame(f).command {
            Some(yamux::session::StreamCommand::SendFrame(answer)) => {
                assert!(server.on_frame(answer).command.is_none());
                assert!(server.streams.is_empty());
            }
            other => panic!("no answer: {:?}", other),
        }
    }
}

#[test]
fn requests_for_streams_are_answered_once_there_is_one() {
    let mut r = session(Mode::Server);
    for round in 0..2 {
        let (tx, mut rx) = futures::channel::oneshot::channel();
        match r.on_event(SessionEvent::Control(Some(ControlCommand::GetStream((1, tx))))) {
            SessionEffects::Found { reply_to, reply } => assert!(reply_to.send(reply).is_ok()),
            _ => panic!("not answered"),
        }
        let reply = rx.try_recv().unwrap().unwrap();
        assert_eq!(reply.is_ok(), round == 1);
        r.on_frame(frame(Tag::Data, 1, SYN, b""));
    }
}
