use aw_watcher_sway::codec::{
    decode_next, encode_frame, encode_subscribe, sway_ipc_subscribe, FrameError, FrameReader,
};

fn frame_of(msg_type: u32, payload: &[u8]) -> Vec<u8> {
    let mut v = b"i3-ipc".to_vec();
    v.extend_from_slice(&(payload.len() as u32).to_le_bytes());
    v.extend_from_slice(&msg_type.to_le_bytes());
    v.extend_from_slice(payload);
    v
}

#[test]
fn subscribe_command_bytes() {
    let mut expected = b"i3-ipc".to_vec();
    expected.extend_from_slice(&[10, 0, 0, 0, 2, 0, 0, 0]);
    expected.extend_from_slice(b"['window']");
    assert_eq!(sway_ipc_subscribe(), expected);
}

#[test]
fn subscribe_to_named_topic() {
    assert_eq!(encode_subscribe("window"), sway_ipc_subscribe());
    assert_eq!(encode_subscribe("mode"), frame_of(2, b"['mode']"));
}

#[test]
fn encode_frame_layout() {
    assert_eq!(encode_frame(7, b"abc"), frame_of(7, b"abc"));
    let big = vec![0xabu8; 300];
    let f = encode_frame(0x0102_0304, &big);
    assert_eq!(&f[6..10], &[0x2c, 0x01, 0, 0]);
    assert_eq!(&f[10..14], &[4, 3, 2, 1]);
    assert_eq!(f.len(), 314);
}

#[test]
fn round_trip_empty_payload() {
    let f = decode_next(&encode_frame(2, &[])).unwrap();
    assert_eq!(f.msg_type, 2);
    assert!(f.payload.is_empty());
}

#[test]
fn round_trip_one_byte_payload() {
    let f = decode_next(&encode_frame(0x8000_0003, &[42])).unwrap();
    assert_eq!(f.msg_type, 0x8000_0003);
    assert_eq!(f.payload, vec![42]);
}

#[test]
fn round_trip_large_payload() {
    let payload: Vec<u8> = (0..4096u32).map(|i| (i % 251) as u8).collect();
    let f = decode_next(&encode_frame(u32::MAX, &payload)).unwrap();
    assert_eq!(f.msg_type, u32::MAX);
    assert_eq!(f.payload, payload);
}

#[test]
fn decode_stops_at_frame_end() {
    let mut stream = encode_frame(1, b"first");
    stream.extend_from_slice(&encode_frame(1, b"second"));
    let f = decode_next(&stream).unwrap();
    assert_eq!(f.payload, b"first".to_vec());
}

#[test]
fn decode_short_header_is_closed() {
    let f = encode_frame(1, b"xy");
    assert_eq!(decode_next(&f[..13]).err(), Some(FrameError::ConnectionClosed));
    assert_eq!(decode_next(&[]).err(), Some(FrameError::ConnectionClosed));
}

#[test]
fn decode_short_payload_is_closed() {
    let f = encode_frame(1, b"xyz");
    assert_eq!(decode_next(&f[..16]).err(), Some(FrameError::ConnectionClosed));
}

#[test]
fn decode_ignores_magic() {
    let mut f = encode_frame(5, b"ok");
    f[..6].copy_from_slice(b"XXXXXX");
    let d = decode_next(&f).unwrap();
    assert_eq!(d.payload, b"ok".to_vec());
    assert_eq!(d.msg_type, 5);
}

#[test]
fn reader_one_byte_at_a_time() {
    let payload = br#"{"change":"focus"}"#;
    let f = encode_frame(0x8000_0003, payload);
    let mut r = FrameReader::new();
    assert_eq!(r.wanted(), 14);
    for b in f.iter() {
        assert!(!r.is_complete());
        assert_eq!(r.push(&[*b]), 1);
    }
    assert!(r.is_complete());
    assert_eq!(r.wanted(), 0);
    let d = r.frame().unwrap();
    assert_eq!(d.payload, payload.to_vec());
    assert_eq!(d.msg_type, 0x8000_0003);
}

#[test]
fn reader_uneven_pieces_and_leftover() {
    let f = encode_frame(2, b"hello world");
    let mut stream = f.clone();
    stream.extend_from_slice(&encode_frame(2, b"next"));
    let mut r = FrameReader::new();
    assert_eq!(r.push(&stream[..3]), 3);
    assert_eq!(r.wanted(), 11);
    assert_eq!(r.push(&stream[3..10]), 7);
    assert_eq!(r.wanted(), 4);
    assert_eq!(r.push(&stream[10..]), f.len() - 10);
    assert!(r.is_complete());
    assert_eq!(r.push(&stream[f.len()..]), 0);
    assert_eq!(r.frame().unwrap().payload, b"hello world".to_vec());
}

#[test]
fn reader_incomplete_frame_is_closed() {
    let f = encode_frame(2, b"abc");
    let mut r = FrameReader::new();
    r.push(&f[..15]);
    assert_eq!(r.wanted(), 2);
    assert_eq!(r.frame().err(), Some(FrameError::ConnectionClosed));
}
