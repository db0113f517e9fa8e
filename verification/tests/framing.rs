use cloud_p2p::frame::{decode_frame, encode_frame, frame_length, length_prefix, FrameError, MAX_MESSAGE_SIZE};

#[test]
fn prefix_is_big_endian() {
    assert_eq!(length_prefix(0), Ok([0, 0, 0, 0]));
    assert_eq!(length_prefix(1), Ok([0, 0, 0, 1]));
    assert_eq!(length_prefix(258), Ok([0, 0, 1, 2]));
    assert_eq!(length_prefix(0x0102_0304), Ok([1, 2, 3, 4]));
    assert_eq!(length_prefix(MAX_MESSAGE_SIZE), Ok([0x06, 0x40, 0x00, 0x00]));
    assert_eq!(frame_length(&[1, 2, 3, 4]), Ok(0x0102_0304));
    assert_eq!(frame_length(&[0, 0, 0, 0]), Ok(0));
}

#[test]
fn limit_is_one_hundred_mebibytes() {
    assert_eq!(MAX_MESSAGE_SIZE, 100 * 1024 * 1024);
    assert_eq!(frame_length(&[0x06, 0x40, 0x00, 0x00]), Ok(MAX_MESSAGE_SIZE));
}

#[test]
fn oversize_frame_is_refused_on_the_prefix_alone() {
    let oversize = (100u32 * 1024 * 1024 + 1).to_be_bytes();
    assert_eq!(frame_length(&oversize), Err(FrameError::TooLarge));
    assert_eq!(frame_length(&[0xFF, 0xFF, 0xFF, 0xFF]), Err(FrameError::TooLarge));
    // No byte of the body is needed, and none is looked at.
    assert_eq!(decode_frame(&oversize), Err(FrameError::TooLarge));
    let mut with_body = oversize.to_vec();
    with_body.extend_from_slice(&[7; 16]);
    assert_eq!(decode_frame(&with_body), Err(FrameError::TooLarge));
    assert_eq!(length_prefix(MAX_MESSAGE_SIZE + 1), Err(FrameError::TooLarge));
}

#[test]
fn frame_is_prefix_then_payload() {
    assert_eq!(encode_frame(b"abc"), Ok(vec![0, 0, 0, 3, b'a', b'b', b'c']));
    assert_eq!(encode_frame(b""), Ok(vec![0, 0, 0, 0]));
    let payload = vec![9u8; 300];
    let frame = encode_frame(&payload).unwrap();
    assert_eq!(&frame[..4], &[0, 0, 1, 44]);
    assert_eq!(&frame[4..], &payload[..]);
}

#[test]
fn frame_round_trip() {
    let payload: Vec<u8> = (0..=255u8).cycle().take(1_000).collect();
    let mut stream = encode_frame(&payload).unwrap();
    stream.extend_from_slice(b"next frame");
    let (body, used) = decode_frame(&stream).unwrap();
    assert_eq!(body, payload);
    assert_eq!(used, 1_004);
    assert_eq!(&stream[used..], b"next frame");
}

#[test]
fn partial_prefix_or_body_is_an_error() {
    assert_eq!(decode_frame(&[]), Err(FrameError::Truncated));
    assert_eq!(decode_frame(&[0, 0, 0]), Err(FrameError::Truncated));
    assert_eq!(decode_frame(&[0, 0, 0, 2, 1]), Err(FrameError::Truncated));
    assert_eq!(decode_frame(&[0, 0, 0, 2, 1, 2]), Ok((vec![1, 2], 6)));
    assert_eq!(decode_frame(&[0, 0, 0, 0]), Ok((vec![], 4)));
}
