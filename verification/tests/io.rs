use yamux::frame::Frame;
use yamux::header::{encode, Header, StreamId, HEADER_SIZE};
use yamux::io::{ReadState, ReadStep};

fn data_bytes(body: &[u8]) -> Vec<u8> {
    let mut bytes = encode(&Header::data(StreamId(1), body.len() as u32)).to_vec();
    bytes.extend_from_slice(body);
    bytes
}

fn receive(chunks: &[&[u8]]) -> ReadStep {
    let mut state = ReadState::Init;
    for chunk in chunks {
        match state.advance(chunk.to_vec()) {
            ReadStep::Pending(next) => state = next,
            done => return done,
        }
    }
    ReadStep::Pending(state)
}

fn complete(step: ReadStep) -> Frame {
    match step {
        ReadStep::Complete(frame) => frame,
        other => panic!("not complete: {:?}", other),
    }
}

#[test]
fn a_data_frame_in_one_chunk() {
    let f = complete(receive(&[&data_bytes(b"hello")]));
    assert_eq!(f, Frame::data(StreamId(1), b"hello".to_vec()).unwrap());
}

#[test]
fn a_data_frame_in_any_chunks() {
    let bytes = data_bytes(b"hello yamux");
    for a in 0..bytes.len() {
        for b in a..bytes.len() {
            let f = complete(receive(&[&bytes[..a], &bytes[a..b], &bytes[b..]]));
            assert_eq!(f.body, b"hello yamux".to_vec());
            assert_eq!(f.header, Header::data(StreamId(1), 11));
        }
    }
}

#[test]
fn a_header_in_two_chunks() {
    for header in [Header::ping(0x0102_0304), Header::window_update(StreamId(7), 8), Header::term()] {
        let bytes = encode(&header);
        for k in 0..HEADER_SIZE {
            let f = complete(receive(&[&bytes[..k], &bytes[k..]]));
            assert_eq!(f, Frame::new(header.clone()));
        }
    }
}

#[test]
fn a_header_byte_by_byte() {
    let bytes = data_bytes(b"ab");
    let chunks: Vec<&[u8]> = bytes.chunks(1).collect();
    assert_eq!(complete(receive(&chunks)).body, b"ab".to_vec());
    match receive(&chunks[..3]) {
        ReadStep::Pending(state) => {
            let mut buffer = [0; HEADER_SIZE];
            buffer[..3].copy_from_slice(&bytes[..3]);
            assert_eq!(state, ReadState::Header { offset: 3, buffer });
        }
        other => panic!("not pending: {:?}", other),
    }
}

#[test]
fn reading_goes_on_while_the_offset_fits() {
    let buffer = [0; HEADER_SIZE];
    assert!(ReadState::Init.can_advance());
    assert!(ReadState::Header { offset: 12, buffer }.can_advance());
    assert!(!ReadState::Header { offset: 13, buffer }.can_advance());
    let header = Header::data(StreamId(1), 4);
    assert!(ReadState::Body { header: header.clone(), offset: 4, buffer: vec![] }.can_advance());
    assert!(!ReadState::Body { header, offset: 5, buffer: vec![] }.can_advance());
}

#[test]
fn an_empty_data_frame_needs_its_header_only() {
    assert_eq!(complete(receive(&[&data_bytes(b"")])), Frame::new(Header::data(StreamId(1), 0)));
}

#[test]
fn other_frames_end_with_their_header() {
    let mut bytes = encode(&Header::ping(3)).to_vec();
    assert_eq!(complete(receive(&[&bytes])), Frame::new(Header::ping(3)));
    bytes.extend_from_slice(b"more");
    assert_eq!(complete(receive(&[&bytes])), Frame::new(Header::ping(3)));
}

#[test]
fn a_bad_header_fails() {
    let mut bytes = data_bytes(b"x");
    bytes[0] = 1;
    match receive(&[&bytes]) {
        ReadStep::Failed(e) => assert_eq!(e, "decode header fail"),
        other => panic!("not failed: {:?}", other),
    }
}

#[test]
fn a_frame_with_too_much_data_is_dropped() {
    let mut bytes = data_bytes(b"abc");
    bytes.push(0);
    let header: [u8; HEADER_SIZE] = encode(&Header::data(StreamId(1), 3));
    match receive(&[&bytes]) {
        ReadStep::Pending(state) => {
            assert_eq!(state, ReadState::Header { offset: 0, buffer: header });
            assert_eq!(complete(state.advance(data_bytes(b"next"))).body, b"next".to_vec());
        }
        other => panic!("not pending: {:?}", other),
    }
}

#[test]
fn reading_resumes_after_a_dropped_frame() {
    let mut bytes = data_bytes(b"abc");
    bytes.push(0);
    let ping = encode(&Header::ping(3));
    for k in 0..HEADER_SIZE {
        let f = complete(receive(&[&bytes[..k], &bytes[k..], &ping]));
        assert_eq!(f, Frame::new(Header::ping(3)));
        let f = complete(receive(&[&bytes[..k], &bytes[k..], &ping[..5], &ping[5..]]));
        assert_eq!(f, Frame::new(Header::ping(3)));
    }
}

#[test]
fn a_chunk_beyond_the_body_is_dropped() {
    let bytes = data_bytes(b"abcd");
    let f = complete(receive(&[&bytes[..13], b"toolong", b"bcd"]));
    assert_eq!(f.body, b"abcd".to_vec());
}

#[test]
fn reading_goes_on_from_any_stage() {
    let header = Header::data(StreamId(9), 4);
    let buffer = encode(&header);
    let state = ReadState::Header { offset: 10, buffer };
    assert_eq!(complete(state.advance(vec![0, 4, 1, 2, 3, 4])).body, vec![1, 2, 3, 4]);
    let state = ReadState::Body { header: header.clone(), offset: 2, buffer: vec![1, 2] };
    match state.advance(vec![3]) {
        ReadStep::Pending(next) => {
            assert_eq!(next, ReadState::Body { header, offset: 3, buffer: vec![1, 2, 3] });
        }
        other => panic!("not pending: {:?}", other),
    }
}
