use yamux::header::{
    decode, encode, Flags, Header, HeaderDecodeError, StreamId, Tag, ACK, CONNECTION_ID, FIN,
    HEADER_SIZE, MAX_FLAG_VAL, RST, SYN,
};

#[test]
fn encodes_in_network_byte_order() {
    let mut h = Header::data(StreamId::new(0x0102_0304), 0x0a0b_0c0d);
    h.syn();
    assert_eq!(encode(&h), [0, 0, 0, 1, 1, 2, 3, 4, 10, 11, 12, 13]);
    let mut h = Header::window_update(StreamId::new(7), 256 * 1024);
    h.ack();
    assert_eq!(encode(&h), [0, 1, 0, 2, 0, 0, 0, 7, 0, 4, 0, 0]);
    let h = Header { version: 9, tag: Tag::GoAway, flags: Flags(0x1234), stream_id: StreamId(1), length: 2 };
    assert_eq!(encode(&h), [9, 3, 0x12, 0x34, 0, 0, 0, 1, 0, 0, 0, 2]);
}

#[test]
fn decode_gives_back_what_was_encoded() {
    for flags in 0..=MAX_FLAG_VAL {
        for tag in [Tag::Data, Tag::WindowUpdate, Tag::Ping, Tag::GoAway] {
            let h = Header {
                version: 0,
                tag,
                flags: Flags(flags),
                stream_id: StreamId(0xdead_beef),
                length: u32::MAX,
            };
            assert_eq!(decode(&encode(&h)).unwrap(), h);
        }
    }
}

#[test]
fn encode_gives_back_what_was_decoded() {
    let b: [u8; HEADER_SIZE] = [0, 2, 0, 5, 1, 2, 3, 4, 5, 6, 7, 8];
    let h = decode(&b).unwrap();
    assert_eq!(h.tag, Tag::Ping);
    assert_eq!(h.flags, Flags(5));
    assert_eq!(h.stream_id.val(), 0x0102_0304);
    assert_eq!(h.length, 0x0506_0708);
    assert_eq!(encode(&h), b);
}

#[test]
fn decode_rejects_versions_types_and_flags() {
    let mut b = encode(&Header::ping(1));
    b[2] = 1;
    assert!(matches!(decode(&b), Err(HeaderDecodeError::Flags(0x100))));
    b[1] = 4;
    assert!(matches!(decode(&b), Err(HeaderDecodeError::Type(4))));
    b[0] = 1;
    assert!(matches!(decode(&b), Err(HeaderDecodeError::Version(1))));
    let mut b = encode(&Header::ping(1));
    b[3] = 8;
    assert!(decode(&b).is_ok());
    b[3] = 9;
    assert!(matches!(decode(&b), Err(HeaderDecodeError::Flags(9))));
}

#[test]
fn flags_contain_their_bits() {
    let f = Flags(SYN | FIN);
    assert!(f.contains(Flags(SYN)));
    assert!(f.contains(Flags(FIN)));
    assert!(f.contains(Flags(0)));
    assert!(!f.contains(Flags(ACK)));
    assert!(!f.contains(Flags(SYN | RST)));
    assert_eq!(f.val(), 5);
}

#[test]
fn stream_ids_belong_to_one_end() {
    assert!(StreamId::new(1).is_client() && !StreamId::new(1).is_server());
    assert!(StreamId::new(2).is_server() && !StreamId::new(2).is_client());
    assert!(StreamId::new(CONNECTION_ID).is_session());
    assert!(StreamId::new(CONNECTION_ID).is_server());
    assert!(!StreamId::new(3).is_session());
    assert_eq!(StreamId::new(77).val(), 77);
    assert!(StreamId::new(1) < StreamId::new(2));
}

#[test]
fn header_constructors() {
    let plain = |tag, id, length| Header {
        version: 0,
        tag,
        flags: Flags(0),
        stream_id: StreamId(id),
        length,
    };
    assert_eq!(Header::data(StreamId(3), 4), plain(Tag::Data, 3, 4));
    assert_eq!(Header::window_update(StreamId(3), 4), plain(Tag::WindowUpdate, 3, 4));
    assert_eq!(Header::window_update(StreamId(3), 4).credit(), 4);
    assert_eq!(Header::ping(5), plain(Tag::Ping, 0, 5));
    assert_eq!(Header::ping(5).nonce(), 5);
    assert_eq!(Header::term(), plain(Tag::GoAway, 0, 0));
    assert_eq!(Header::protocol_error(), plain(Tag::GoAway, 0, 1));
    assert_eq!(Header::internal_error(), plain(Tag::GoAway, 0, 2));
}

#[test]
fn setting_a_flag_keeps_the_others() {
    let mut h = Header::data(StreamId(1), 0);
    h.syn();
    assert_eq!(h.flags, Flags(1));
    h.ack();
    assert_eq!(h.flags, Flags(3));
    h.rst();
    assert_eq!(h.flags, Flags(11));
    h.syn();
    assert_eq!(h.flags, Flags(11));
}

#[test]
fn decode_errors_as_text() {
    assert_eq!(HeaderDecodeError::Version(7).to_text(), "unknown version: 7");
    assert_eq!(HeaderDecodeError::Type(200).to_text(), "unknown frame type: 200");
    assert_eq!(HeaderDecodeError::Flags(65535).to_text(), "unknown flags type: 65535");
    assert_eq!(StreamId::new(0).to_text(), "0");
    assert_eq!(StreamId::new(u32::MAX).to_text(), "4294967295");
}
