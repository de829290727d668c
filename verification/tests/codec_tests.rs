use rust_rooms::codec::{decode_frame, encode_frame, header_len, Decoded, FrameError, MAX_PAYLOAD_LEN};

#[test]
fn round_trip_small_payload() {
    let payload: Vec<u8> = vec![1, 2, 3, 4, 5, 6, 7, 8, 9, 10];
    let frame = encode_frame(&payload).unwrap();
    assert_eq!(frame[0], 0);
    assert_eq!(frame[1], 10);
    assert_eq!(frame.len(), 12);
    match decode_frame(&frame, MAX_PAYLOAD_LEN) {
        Decoded::Frame { payload: p, consumed } => {
            assert_eq!(p, payload);
            assert_eq!(consumed, 12);
        }
        _ => panic!("whole frame must decode"),
    }
}

#[test]
fn round_trip_empty_payload() {
    let payload: Vec<u8> = Vec::new();
    let frame = encode_frame(&payload).unwrap();
    assert_eq!(frame, vec![0, 0]);
    match decode_frame(&frame, MAX_PAYLOAD_LEN) {
        Decoded::Frame { payload: p, consumed } => {
            assert!(p.is_empty());
            assert_eq!(consumed, 2);
        }
        _ => panic!("empty frame must decode"),
    }
}

#[test]
fn round_trip_largest_payload() {
    let payload: Vec<u8> = vec![0xAB; MAX_PAYLOAD_LEN];
    let frame = encode_frame(&payload).unwrap();
    assert_eq!(frame[0], 255);
    assert_eq!(frame[1], 255);
    assert_eq!(frame.len(), 2 + MAX_PAYLOAD_LEN);
    match decode_frame(&frame, MAX_PAYLOAD_LEN) {
        Decoded::Frame { payload: p, consumed } => {
            assert_eq!(p, payload);
            assert_eq!(consumed, 2 + MAX_PAYLOAD_LEN);
        }
        _ => panic!("largest frame must decode"),
    }
}

#[test]
fn oversized_payload_is_rejected() {
    let payload: Vec<u8> = vec![0; MAX_PAYLOAD_LEN + 1];
    assert_eq!(encode_frame(&payload), Err(FrameError::PayloadTooLong));
}

#[test]
fn length_prefix_is_big_endian() {
    let payload: Vec<u8> = vec![7; 258];
    let frame = encode_frame(&payload).unwrap();
    assert_eq!(frame[0], 1);
    assert_eq!(frame[1], 2);
    assert_eq!(header_len(frame[0], frame[1]), 258);
    assert_eq!(header_len(0xFF, 0xFF), 65535);
    assert_eq!(header_len(0, 0), 0);
}

#[test]
fn decode_needs_whole_frame() {
    assert!(matches!(decode_frame(&Vec::new(), MAX_PAYLOAD_LEN), Decoded::Incomplete));
    assert!(matches!(decode_frame(&vec![0], MAX_PAYLOAD_LEN), Decoded::Incomplete));
    assert!(matches!(decode_frame(&vec![0, 3, 1, 2], MAX_PAYLOAD_LEN), Decoded::Incomplete));
    match decode_frame(&vec![0, 3, 1, 2, 3], MAX_PAYLOAD_LEN) {
        Decoded::Frame { payload, consumed } => {
            assert_eq!(payload, vec![1, 2, 3]);
            assert_eq!(consumed, 5);
        }
        _ => panic!("complete frame must decode"),
    }
}

#[test]
fn decode_leaves_trailing_bytes() {
    let payload: Vec<u8> = vec![9, 8, 7];
    let mut buf = encode_frame(&payload).unwrap();
    buf.extend_from_slice(&[0, 1, 42]);
    match decode_frame(&buf, MAX_PAYLOAD_LEN) {
        Decoded::Frame { payload: p, consumed } => {
            assert_eq!(p, payload);
            assert_eq!(consumed, 5);
            assert_eq!(&buf[consumed..], &[0, 1, 42]);
        }
        _ => panic!("frame with trailing bytes must decode"),
    }
}

#[test]
fn frame_longer_than_the_working_buffer_is_refused() {
    let payload: Vec<u8> = vec![5; 10];
    let wire = encode_frame(&payload).unwrap();
    assert!(matches!(decode_frame(&wire, 9), Decoded::TooLarge));
    assert!(matches!(decode_frame(&wire, 10), Decoded::Frame { .. }));
    // the refusal looks at the announced length alone
    assert!(matches!(decode_frame(&vec![0xFF, 0xFF], 1024), Decoded::TooLarge));
}
