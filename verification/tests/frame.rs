use yamux::bytes::{join_u16, join_u32, low_u32, split_u16, split_u32};
use yamux::client::{next_greeting, period_frame};
use yamux::frame::Frame;
use yamux::header::{Header, StreamId, Tag};
use yamux::text::decimal;

#[test]
fn data_frame_announces_its_body() {
    let f = Frame::data(StreamId(5), vec![1, 2, 3]).unwrap();
    assert_eq!(f.header(), &Header::data(StreamId(5), 3));
    assert_eq!(f.body(), &[1, 2, 3]);
    assert_eq!(f.body_len(), 3);
    assert_eq!(f.into_body(), vec![1, 2, 3]);
    assert_eq!(Frame::data(StreamId(5), Vec::new()).unwrap().header.length, 0);
}

#[test]
fn bare_frames_have_no_body() {
    assert!(Frame::new(Header::ping(1)).body().is_empty());
    assert_eq!(Frame::window_update(StreamId(1), 9).header, Header::window_update(StreamId(1), 9));
    assert_eq!(Frame::term().header, Header::term());
    assert_eq!(Frame::protocol_error().header, Header::protocol_error());
    assert_eq!(Frame::internal_error().header, Header::internal_error());
    assert_eq!(Frame::internal_error().body_len(), 0);
}

#[test]
fn header_mut_changes_the_frame() {
    let mut f = Frame::data(StreamId(1), vec![4]).unwrap();
    f.header_mut().ack();
    assert_eq!(f.header.flags.val(), 2);
    assert_eq!(f.body, vec![4]);
}

#[test]
fn bytes_split_and_join() {
    assert_eq!(split_u16(0x1234), (0x12, 0x34));
    assert_eq!(split_u32(0x1234_5678), (0x12, 0x34, 0x56, 0x78));
    assert_eq!(join_u16(0xab, 0xcd), 0xabcd);
    assert_eq!(join_u32(0xff, 0xfe, 0xfd, 0xfc), 0xfffe_fdfc);
    assert_eq!(low_u32(5), 5);
    assert_eq!(low_u32(0x1_0000_0007usize), 7);
}

#[test]
fn decimal_numbers() {
    for n in [0u32, 9, 10, 99, 100, 12345, u32::MAX] {
        assert_eq!(decimal(n), n.to_string());
    }
}

#[test]
fn period_messages_are_numbered() {
    let f = period_frame(StreamId(1), 12);
    assert_eq!(f.body, b"love and peace:12".to_vec());
    assert_eq!(f.header.tag, Tag::Data);
    assert_eq!(f.header.length, 17);
    assert_eq!(f.header.stream_id, StreamId(1));
    assert_eq!(period_frame(StreamId(1), u32::MAX).body.len(), 25);
}

#[test]
fn greetings_are_counted() {
    assert_eq!(next_greeting(0), Some(1));
    assert_eq!(next_greeting(41), Some(42));
    assert_eq!(next_greeting(0x7fff_fffe), Some(0x7fff_ffff));
    assert_eq!(next_greeting(0x7fff_ffff), None);
    assert_eq!(next_greeting(u32::MAX), None);
}

#[test]
fn slice_copy_test() {
    let mut src = vec![1, 2, 3, 4];
    let rest = src.split_off(2);
    let mut dst = [0, 0, 0, 0];
    dst[2..4].copy_from_slice(&rest[0..2]);
    println!("dst:{:?}", dst);
    assert_eq!(dst, [0, 0, 3, 4]);
}
