use funnel::protocol::frame::{decode_frame, decode_frame_header, encode_frame, FrameError, MAX_META_SIZE};

#[test]
fn frame_roundtrip() {
    let data = b"hello world";
    let buf = encode_frame(data);
    let (result, used) = decode_frame(&buf, 1024).unwrap();
    assert_eq!(result, data);
    assert_eq!(used, buf.len());
}

#[test]
fn frame_too_large() {
    let data = vec![0u8; 100];
    let buf = encode_frame(&data);
    let result = decode_frame(&buf, 50);
    assert!(matches!(result, Err(FrameError::TooLarge { size: 100, max: 50 })));
}

#[test]
fn frame_header_is_big_endian_length() {
    let buf = encode_frame(&[7u8; 258]);
    assert_eq!(&buf[..4], &[0, 0, 1, 2]);
    assert_eq!(decode_frame_header(0, 0, 1, 2, MAX_META_SIZE), Ok(258));
}

#[test]
fn truncated_frame_is_reported() {
    let buf = encode_frame(b"abcdef");
    assert_eq!(decode_frame(&buf[..5], 1024), Err(FrameError::UnexpectedEof));
    assert_eq!(decode_frame(&buf[..2], 1024), Err(FrameError::UnexpectedEof));
}

#[test]
fn frame_followed_by_more_data() {
    let mut buf = encode_frame(b"one");
    buf.extend_from_slice(&encode_frame(b"two"));
    let (first, used) = decode_frame(&buf, 10).unwrap();
    assert_eq!(first, b"one");
    let (second, _) = decode_frame(&buf[used..], 10).unwrap();
    assert_eq!(second, b"two");
}
