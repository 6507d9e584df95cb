use futures::channel::{mpsc, oneshot};
use std::sync::Arc;
use yamux::client::{remote_stream_deal, request_outcome, sending_copy, serve, Deal};
use yamux::frame::Frame;
use yamux::header::{encode, Flags, Header, StreamId, Tag, ACK, FIN, RST, SYN};
use yamux::io::{ReadState, ReadStep};
use yamux::reader::{FrameEffects, SecioSessionReader, SessionEffects, SessionEvent};
use yamux::session::{Action, ControlCommand, Id, Mode, Shutdown, StreamCommand};
use yamux::stream::{Flag, Stream};
use yamux::writer::SecioSessionWriter;
use yamux::{Config, WindowUpdateMode, DEFAULT_CREDIT};

fn commands() -> (mpsc::Sender<StreamCommand>, mpsc::Receiver<StreamCommand>) {
    mpsc::channel(10)
}

fn reader(mode: Mode, config: Config) -> SecioSessionReader {
    SecioSessionReader::with_id(Id(5), config, mode, commands().0)
}

fn writer() -> SecioSessionWriter {
    SecioSessionWriter::new(commands().1)
}

fn stream(flag: Flag) -> Stream {
    let mut s = Stream::new(StreamId(3), Id(7), Arc::new(Config::default()), commands().0);
    s.set_flag(flag);
    s
}

fn flagged(mut header: Header, flags: u16) -> Header {
    header.flags = Flags(flags);
    header
}

fn data(id: u32, flags: u16, body: &[u8]) -> Frame {
    let mut f = Frame::data(StreamId(id), body.to_vec()).unwrap();
    f.header.flags = Flags(flags);
    f
}

fn update(id: u32, flags: u16) -> Frame {
    Frame::new(flagged(Header::window_update(StreamId(id), 10), flags))
}

fn reset(id: u32) -> Frame {
    Frame::new(flagged(Header::data(StreamId(id), 0), RST))
}

fn terminated(action: Action) -> Frame {
    match action {
        Action::Terminate(f) => f,
        other => panic!("not terminated: {:?}", other),
    }
}

fn transfer(messages: Vec<Vec<u8>>) -> Frame {
    let mut state = ReadState::Init;
    for m in messages {
        match state.advance(m) {
            ReadStep::Pending(next) => state = next,
            ReadStep::Complete(frame) => return frame,
            ReadStep::Failed(e) => panic!("failed: {}", e),
        }
    }
    panic!("incomplete")
}

fn frame_of(command: Option<StreamCommand>) -> Frame {
    match command {
        Some(StreamCommand::SendFrame(f)) => f,
        other => panic!("no frame: {:?}", other),
    }
}

#[test]
fn configuration_defaults() {
    let c = Config::default();
    assert_eq!(DEFAULT_CREDIT, 262144);
    assert_eq!(c.receive_window, 262144);
    assert_eq!(c.max_buffer_size, 1048576);
    assert_eq!(c.max_num_streams, 8192);
    assert_eq!(c.window_update_mode, WindowUpdateMode::OnReceive);
    assert!(!c.lazy_open);
}

#[test]
fn a_stream_keeps_its_flag_for_one_header() {
    for (flag, bits) in [(Flag::Unset, 0), (Flag::Syn, SYN), (Flag::Ack, ACK)] {
        let mut s = stream(flag);
        let mut h = Header::data(s.id(), 0);
        s.add_flag(&mut h);
        assert_eq!(h.flags, Flags(bits));
        assert_eq!(s.flag, Flag::Unset);
        let mut h = Header::data(s.id(), 0);
        s.add_flag(&mut h);
        assert_eq!(h.flags, Flags(0));
    }
}

#[test]
fn a_copied_stream_shares_configuration_and_channels() {
    let mut s = stream(Flag::Ack);
    let (tx, mut rx) = mpsc::channel(10);
    s.data_sender = Some(tx);
    s.data_receiver = Some(mpsc::channel(10).1);
    s.pending = Some(Frame::term());
    s.cache = vec![1, 2];
    let mut c = s.clone();
    assert!(Arc::ptr_eq(&s.config, &c.config));
    assert!(s.sender.same_receiver(&c.sender));
    assert_eq!(c.cache, vec![1, 2]);
    assert_eq!(c.flag, Flag::Ack);
    assert_eq!(c.id(), StreamId(3));
    assert_eq!(c.conn.0, 7);
    assert!(c.pending.is_none());
    assert!(c.data_receiver.is_none());
    c.data_sender.as_mut().unwrap().try_send(vec![9]).unwrap();
    assert_eq!(rx.try_recv().unwrap(), vec![9]);
}

#[test]
fn a_stream_as_text() {
    let mut s = stream(Flag::Unset);
    assert_eq!(s.to_text(), "(Stream 7/3)");
    assert_eq!(s.to_debug_text(), "Stream { id: 3, connection: 7, pending: false }");
    assert_eq!(format!("{:?}", s), s.to_debug_text());
    s.pending = Some(Frame::term());
    assert_eq!(s.to_debug_text(), "Stream { id: 3, connection: 7, pending: true }");
    assert_eq!(format!("{:?}", s), s.to_debug_text());
    assert_eq!(
        format!("{:#?}", s),
        "Stream {\n    id: 3,\n    connection: 7,\n    pending: true,\n}"
    );
}

#[test]
fn writer_messages() {
    let w = writer();
    assert_eq!(
        w.window_update_frame_send(StreamId(2), 8, Flag::Syn),
        vec![encode(&flagged(Header::window_update(StreamId(2), 8), SYN)).to_vec()]
    );
    assert_eq!(
        w.window_update_frame_send(StreamId(2), 8, Flag::Ack),
        vec![encode(&flagged(Header::window_update(StreamId(2), 8), ACK)).to_vec()]
    );
    assert_eq!(
        w.window_update_frame_send(StreamId(2), 8, Flag::Unset),
        vec![encode(&Header::window_update(StreamId(2), 8)).to_vec()]
    );
    assert_eq!(
        w.data_frame_send(stream(Flag::Syn), b"hello yamux".to_vec()).unwrap(),
        vec![
            encode(&flagged(Header::data(StreamId(3), 11), SYN)).to_vec(),
            b"hello yamux".to_vec()
        ]
    );
    assert_eq!(
        w.data_frame_send(stream(Flag::Unset), Vec::new()).unwrap(),
        vec![encode(&Header::data(StreamId(3), 0)).to_vec(), Vec::new()]
    );
    assert_eq!(w.frame_send(Frame::term()), vec![encode(&Header::term()).to_vec()]);
    assert_eq!(
        w.frame_send(data(1, 0, b"ab")),
        vec![encode(&Header::data(StreamId(1), 2)).to_vec(), b"ab".to_vec()]
    );
    assert_eq!(
        w.send_process(Some(StreamCommand::SendFrame(Frame::term()))),
        vec![encode(&Header::term()).to_vec()]
    );
    assert!(w.send_process(Some(StreamCommand::CloseStream { id: StreamId(1), ack: true })).is_empty());
    assert!(w.send_process(None).is_empty());
}

#[test]
fn sent_frames_are_received() {
    let w = writer();
    for f in [
        data(1, 0, b""),
        data(1, ACK, b"xyz"),
        update(4, SYN),
        Frame::new(Header::ping(99)),
        Frame::internal_error(),
        reset(6),
    ] {
        assert_eq!(transfer(w.frame_send(f.clone())), f);
    }
}

#[test]
fn a_new_session() {
    let r = reader(Mode::Client, Config::default());
    assert_eq!(r.id.0, 5);
    assert_eq!(r.next_id, 1);
    assert!(r.streams.is_empty() && r.garbage.is_empty() && !r.is_closed);
    assert!(r.remote_stream_sender.is_none());
    assert!(matches!(r.shutdown, Shutdown::NotStarted));
    assert_eq!(reader(Mode::Server, Config::default()).next_id, 2);
}

#[test]
fn session_ids_are_random() {
    let ids: Vec<u32> = (0..8)
        .map(|_| SecioSessionReader::new(Config::default(), Mode::Client, commands().0).id.0)
        .collect();
    assert!(ids.iter().any(|i| *i != ids[0]));
}

#[test]
fn remote_ids_are_those_of_the_other_end() {
    let c = reader(Mode::Client, Config::default());
    let s = reader(Mode::Server, Config::default());
    for tag in [Tag::Data, Tag::WindowUpdate] {
        assert!(c.is_valid_remote_id(StreamId(2), tag) && !c.is_valid_remote_id(StreamId(1), tag));
        assert!(s.is_valid_remote_id(StreamId(1), tag) && !s.is_valid_remote_id(StreamId(2), tag));
    }
    for tag in [Tag::Ping, Tag::GoAway] {
        assert!(c.is_valid_remote_id(StreamId(0), tag) && !c.is_valid_remote_id(StreamId(2), tag));
        assert!(s.is_valid_remote_id(StreamId(0), tag) && !s.is_valid_remote_id(StreamId(1), tag));
    }
}

#[test]
fn next_ids_go_up_by_two() {
    let mut s = reader(Mode::Server, Config::default());
    assert_eq!(s.next_stream_id(), Ok(StreamId(2)));
    assert_eq!(s.next_stream_id(), Ok(StreamId(4)));
    assert_eq!(s.next_id, 6);
}

#[test]
fn opened_streams_are_announced_and_accepted() {
    let mut client = reader(Mode::Client, Config::default());
    let mut server = reader(Mode::Server, Config::default());
    let (mut stream, command) = client.open_secio_stream().unwrap();
    assert_eq!(stream.id(), StreamId(1));
    assert_eq!(stream.flag, Flag::Unset);
    assert_eq!(client.next_id, 3);
    let kept = client.streams.get_mut(&1).unwrap();
    kept.data_sender.as_mut().unwrap().try_send(vec![8]).unwrap();
    assert_eq!(stream.data_receiver.as_mut().unwrap().try_recv().unwrap(), vec![8]);
    let frame = frame_of(command);
    assert_eq!(frame.header, flagged(Header::window_update(StreamId(1), DEFAULT_CREDIT), SYN));
    let (action, announced) = server.on_window_update_frame(transfer(writer().frame_send(frame)));
    match action {
        Action::New(s) => {
            assert_eq!(s.id(), StreamId(1));
            assert_eq!(s.flag, Flag::Ack);
            assert!(s.data_sender.is_none());
        }
        other => panic!("not new: {:?}", other),
    }
    assert!(announced.is_none());
    assert!(server.streams.contains_key(&1));
}

#[test]
fn lazily_opened_streams_are_announced_by_data() {
    let config = Config { lazy_open: true, ..Config::default() };
    let mut client = reader(Mode::Client, config);
    let mut server = reader(Mode::Server, Config::default());
    let (stream, command) = client.open_secio_stream().unwrap();
    assert!(command.is_none());
    assert_eq!(stream.flag, Flag::Syn);
    let frame = transfer(writer().data_frame_send(stream, b"hi".to_vec()).unwrap());
    let (action, deliveries) = server.on_data(frame);
    assert!(matches!(action, Action::New(_)));
    assert!(deliveries.is_empty());
    assert!(server.streams[&1].cache.is_empty());
}

#[test]
fn a_stream_is_opened_once() {
    let mut r = reader(Mode::Client, Config::default());
    assert!(matches!(r.on_window_update_frame(update(2, SYN)).0, Action::New(_)));
    assert_eq!(terminated(r.on_window_update_frame(update(2, SYN)).0), Frame::protocol_error());
    assert_eq!(terminated(r.on_data(data(2, SYN, b"")).0), Frame::protocol_error());
    assert_eq!(r.streams.len(), 1);
}

#[test]
fn streams_with_foreign_ids_are_refused() {
    let mut r = reader(Mode::Client, Config::default());
    assert_eq!(terminated(r.on_window_update_frame(update(3, SYN)).0), Frame::protocol_error());
    assert_eq!(terminated(r.on_data(data(3, SYN, b"")).0), Frame::protocol_error());
    assert!(r.streams.is_empty());
}

#[test]
fn the_number_of_streams_is_limited() {
    let config = Config { max_num_streams: 1, ..Config::default() };
    let mut r = reader(Mode::Client, config);
    assert!(matches!(r.on_data(data(2, SYN, b"")).0, Action::New(_)));
    assert_eq!(terminated(r.on_window_update_frame(update(4, SYN)).0), Frame::protocol_error());
    assert_eq!(terminated(r.on_data(data(4, SYN, b"")).0), Frame::internal_error());
    assert_eq!(r.streams.len(), 1);
}

#[test]
fn the_first_body_is_limited() {
    let mut r = reader(Mode::Client, Config::default());
    let body = vec![0; DEFAULT_CREDIT as usize + 1];
    assert_eq!(terminated(r.on_data(data(2, SYN, &body)).0), Frame::protocol_error());
    assert!(matches!(r.on_data(data(2, SYN, &body[1..])).0, Action::New(_)));
}

#[test]
fn frames_for_unknown_streams_are_reset() {
    let mut r = reader(Mode::Client, Config::default());
    match r.on_data(data(6, 0, b"a")).0 {
        Action::Reset(f) => assert_eq!(f, reset(6)),
        other => panic!("not reset: {:?}", other),
    }
    match r.on_window_update_frame(update(6, ACK)).0 {
        Action::Reset(f) => assert_eq!(f, reset(6)),
        other => panic!("not reset: {:?}", other),
    }
    assert!(matches!(r.on_data(data(6, FIN, b"a")).0, Action::Nothing));
    assert!(matches!(r.on_data(data(6, RST, b"a")).0, Action::Nothing));
    assert!(matches!(r.on_window_update_frame(update(6, FIN)).0, Action::Nothing));
    assert!(matches!(r.on_window_update_frame(update(6, RST)).0, Action::Nothing));
    assert!(r.streams.is_empty());
}

#[test]
fn pings_are_answered() {
    let mut r = reader(Mode::Client, Config::default());
    match r.on_ping_frame(Frame::new(Header::ping(77))) {
        Action::Ping(f) => assert_eq!(f, Frame::new(flagged(Header::ping(77), ACK))),
        other => panic!("not answered: {:?}", other),
    }
    assert!(matches!(
        r.on_ping_frame(Frame::new(flagged(Header::ping(77), ACK))),
        Action::Nothing
    ));
    let mut strange = Header::ping(1);
    strange.stream_id = StreamId(2);
    match r.on_ping_frame(Frame::new(strange.clone())) {
        Action::Reset(f) => assert_eq!(f, reset(2)),
        other => panic!("not reset: {:?}", other),
    }
    r.on_window_update_frame(update(2, SYN));
    assert!(matches!(r.on_ping_frame(Frame::new(strange)), Action::Ping(_)));
}

#[test]
fn data_is_cached_then_delivered() {
    let mut r = reader(Mode::Client, Config::default());
    r.on_window_update_frame(update(2, SYN));
    let (action, deliveries) = r.on_data(data(2, 0, b"ab"));
    assert!(matches!(action, Action::Nothing));
    assert!(deliveries.is_empty());
    r.on_data(data(2, ACK, b"c"));
    assert_eq!(r.streams[&2].cache, vec![0, 0, 0, 2, b'a', b'b', 0, 0, 0, 1, b'c']);
    let s = r.get_stream(2).unwrap();
    assert_eq!(s.cache, vec![0, 0, 0, 2, b'a', b'b', 0, 0, 0, 1, b'c']);
    assert!(r.streams[&2].cache.is_empty());
    let (_, deliveries) = r.on_data(data(2, FIN, b"de"));
    assert_eq!(deliveries, vec![vec![0, 0, 0, 2], b"de".to_vec()]);
    assert!(r.streams[&2].cache.is_empty());
    r.streams.get_mut(&2).unwrap().cache = vec![1];
    let (_, deliveries) = r.on_data(data(2, 0, b""));
    assert_eq!(deliveries, vec![vec![1], vec![0, 0, 0, 0], Vec::new()]);
    assert!(r.streams[&2].cache.is_empty());
}

#[test]
fn streams_of_the_remote_are_given() {
    let mut r = reader(Mode::Client, Config::default());
    assert_eq!(r.get_stream(1).unwrap_err(), "not remote stream id");
    assert_eq!(r.get_stream(2).unwrap_err(), "not exist stream");
    r.on_window_update_frame(update(2, SYN));
    let mut first = r.get_stream(2).unwrap();
    let mut second = r.get_stream(2).unwrap();
    assert_eq!(second.flag, Flag::Ack);
    let kept = r.streams.get_mut(&2).unwrap();
    kept.data_sender.as_mut().unwrap().try_send(vec![3]).unwrap();
    assert_eq!(second.data_receiver.as_mut().unwrap().try_recv().unwrap(), vec![3]);
    assert!(first.data_receiver.as_mut().unwrap().try_recv().is_err());
}

#[test]
fn subscribers_get_the_streams_of_the_remote() {
    let mut r = reader(Mode::Client, Config::default());
    r.open_secio_stream().unwrap();
    r.on_window_update_frame(update(2, SYN));
    r.on_data(data(2, 0, b"x"));
    r.on_window_update_frame(update(4, SYN));
    let (mut receiver, streams) = r.subscribe_stream();
    let mut ids: Vec<u32> = streams.iter().map(|s| s.id.val()).collect();
    ids.sort();
    assert_eq!(ids, vec![2, 4]);
    for mut s in streams {
        assert_eq!(s.cache.len(), if s.id == StreamId(2) { 5 } else { 0 });
        let kept = r.streams.get_mut(&s.id.val()).unwrap();
        assert!(kept.cache.is_empty());
        kept.data_sender.as_mut().unwrap().try_send(vec![1]).unwrap();
        assert_eq!(s.data_receiver.as_mut().unwrap().try_recv().unwrap(), vec![1]);
    }
    let (action, announced) = r.on_window_update_frame(update(6, SYN));
    let mut announced = announced.unwrap();
    assert_eq!(announced.id(), StreamId(6));
    assert!(announced.data_sender.is_none());
    match action {
        Action::New(mut s) => {
            s.data_sender.as_mut().unwrap().try_send(vec![2]).unwrap();
            assert_eq!(announced.data_receiver.as_mut().unwrap().try_recv().unwrap(), vec![2]);
        }
        other => panic!("not new: {:?}", other),
    }
    r.remote_stream_sender.as_mut().unwrap().try_send(announced).unwrap();
    assert_eq!(receiver.try_recv().unwrap().id(), StreamId(6));
    assert!(matches!(r.on_data(data(8, SYN, b"")).0, Action::New(_)));
}

#[test]
fn frames_are_dispatched_by_tag() {
    let mut r = reader(Mode::Client, Config::default());
    let fx = r.on_frame(Frame::new(Header::ping(4)));
    assert_eq!(frame_of(fx.command), Frame::new(flagged(Header::ping(4), ACK)));
    assert!(fx.inbound.is_none() && fx.announced.is_none() && fx.deliveries.is_empty());
    let fx = r.on_frame(Frame::term());
    assert!(fx.command.is_none() && fx.inbound.is_none() && fx.deliveries.is_empty());
    let FrameEffects { inbound, command, .. } = r.on_frame(update(2, SYN));
    assert_eq!(inbound.unwrap().id(), StreamId(2));
    assert!(command.is_none());
    r.get_stream(2).unwrap();
    let fx = r.on_frame(data(2, 0, b"z"));
    assert_eq!(fx.deliveries, vec![vec![0, 0, 0, 1], b"z".to_vec()]);
    let fx = r.on_frame(data(10, 0, b"z"));
    assert!(fx.inbound.is_none() && fx.announced.is_none() && fx.deliveries.is_empty());
    assert_eq!(frame_of(fx.command), reset(10));
    assert_eq!(r.streams.len(), 1);
}

#[test]
fn events_are_handled() {
    let mut r = reader(Mode::Client, Config::default());
    let (tx, mut rx) = oneshot::channel();
    match r.on_event(SessionEvent::Control(Some(ControlCommand::OpenStream(tx)))) {
        SessionEffects::Opened { reply_to, reply, command } => {
            assert_eq!(frame_of(command).header.stream_id, StreamId(1));
            assert!(reply_to.send(reply).is_ok());
        }
        _ => panic!("not opened"),
    }
    assert_eq!(rx.try_recv().unwrap().unwrap().unwrap().id(), StreamId(1));
    let (tx, _rx) = oneshot::channel();
    match r.on_event(SessionEvent::Control(Some(ControlCommand::GetStream((2, tx))))) {
        SessionEffects::Found { reply, .. } => assert_eq!(reply.unwrap_err(), "not exist stream"),
        _ => panic!("not found"),
    }
    let (tx, _rx) = oneshot::channel();
    match r.on_event(SessionEvent::Control(Some(ControlCommand::SubscribeStream(tx)))) {
        SessionEffects::Subscribed { reply, streams, .. } => {
            assert!(reply.is_ok());
            assert!(streams.is_empty());
        }
        _ => panic!("not subscribed"),
    }
    match r.on_event(SessionEvent::Received(Ok(update(2, SYN)))) {
        SessionEffects::Handled(fx) => assert!(fx.announced.is_some()),
        _ => panic!("not handled"),
    }
    let idle = [
        SessionEvent::Received(Err("decode header fail".to_string())),
        SessionEvent::Control(None),
    ];
    for event in idle {
        assert!(matches!(r.on_event(event), SessionEffects::Idle));
    }
    assert!(matches!(r.shutdown, Shutdown::NotStarted));
    assert_eq!(r.streams.len(), 2);
}

#[test]
fn a_command_to_close_starts_the_shutdown() {
    let mut r = reader(Mode::Client, Config::default());
    for _ in 0..2 {
        let close = SessionEvent::Control(Some(ControlCommand::CloseConnection(())));
        assert!(matches!(r.on_event(close), SessionEffects::Idle));
        assert!(matches!(r.shutdown, Shutdown::InProgress));
    }
    r.on_event(SessionEvent::Received(Ok(update(2, SYN))));
    assert!(matches!(r.shutdown, Shutdown::InProgress));
    r.shutdown = Shutdown::Complete;
    r.on_event(SessionEvent::Control(Some(ControlCommand::CloseConnection(()))));
    assert!(matches!(r.shutdown, Shutdown::Complete));
    assert!(!r.is_closed);
}

#[test]
fn refused_frames_are_answered() {
    let config = Config { max_num_streams: 1, ..Config::default() };
    let mut r = reader(Mode::Client, config);
    let mut strange = Header::ping(1);
    strange.stream_id = StreamId(6);
    assert_eq!(frame_of(r.on_frame(data(6, 0, b"a")).command), reset(6));
    assert_eq!(frame_of(r.on_frame(update(6, 0)).command), reset(6));
    assert_eq!(frame_of(r.on_frame(Frame::new(strange)).command), reset(6));
    assert_eq!(frame_of(r.on_frame(data(3, SYN, b"")).command), Frame::protocol_error());
    assert_eq!(frame_of(r.on_frame(update(3, SYN)).command), Frame::protocol_error());
    assert!(r.on_frame(update(2, SYN)).command.is_none());
    assert_eq!(frame_of(r.on_frame(update(2, SYN)).command), Frame::protocol_error());
    assert_eq!(frame_of(r.on_frame(update(4, SYN)).command), Frame::protocol_error());
    assert_eq!(frame_of(r.on_frame(data(4, SYN, b"")).command), Frame::internal_error());
    assert!(r.on_frame(data(6, FIN, b"a")).command.is_none());
    assert!(r.on_frame(data(6, RST, b"a")).command.is_none());
}

#[test]
fn streams_can_be_opened_while_there_are_ids() {
    let mut r = reader(Mode::Client, Config::default());
    assert!(r.can_open_stream());
    r.next_id = u32::MAX - 2;
    assert!(r.can_open_stream());
    assert_eq!(r.open_secio_stream().unwrap().0.id(), StreamId(u32::MAX - 2));
    assert!(!r.can_open_stream());
    r.next_id = 2;
    assert!(!r.can_open_stream());
}

#[test]
fn users_take_over_streams() {
    assert_eq!(request_outcome(Some(Ok(3))), Ok(3));
    assert_eq!(request_outcome::<u8>(Some(Err("no".to_string()))), Err("no".to_string()));
    assert_eq!(request_outcome::<u8>(None), Err("fail".to_string()));
    let mut r = reader(Mode::Client, Config::default());
    assert!(matches!(remote_stream_deal(r.get_stream(2)), Deal::Retry(e) if e == "not exist stream"));
    r.on_window_update_frame(update(2, SYN));
    assert!(serve(r.get_stream(2).unwrap()).cached.is_none());
    r.streams.get_mut(&2).unwrap().cache = vec![4, 5];
    match remote_stream_deal(r.get_stream(2)) {
        Deal::Serve(mut served) => {
            assert_eq!(served.cached, Some(vec![4, 5]));
            let kept = r.streams.get_mut(&2).unwrap();
            kept.data_sender.as_mut().unwrap().try_send(vec![6]).unwrap();
            assert_eq!(served.data_receiver.try_recv().unwrap(), vec![6]);
        }
        Deal::Retry(e) => panic!("not there: {}", e),
    }
    let (stream, _) = r.open_secio_stream().unwrap();
    let (copy, mut receiver) = sending_copy(stream);
    assert_eq!(copy.id(), StreamId(1));
    assert!(copy.data_receiver.is_none());
    let kept = r.streams.get_mut(&1).unwrap();
    kept.data_sender.as_mut().unwrap().try_send(vec![7]).unwrap();
    assert_eq!(receiver.try_recv().unwrap(), vec![7]);
}
