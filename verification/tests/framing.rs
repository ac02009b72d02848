use idmnoads::framing::{
    decode_frame, forward_to_app, frame_length, read_message, write_message, MAX_MESSAGE,
    MAX_PIPE_FRAME, PIPE_NAME,
};

#[test]
fn write_message_prefixes_little_endian_length() {
    let out = write_message(b"{\"ok\":true}");
    assert_eq!(&out[..4], &[11, 0, 0, 0]);
    assert_eq!(&out[4..], b"{\"ok\":true}");
}

#[test]
fn write_message_long_payload_header() {
    let payload = vec![7u8; 0x0102_03];
    let out = write_message(&payload);
    assert_eq!(&out[..4], &[0x03, 0x02, 0x01, 0x00]);
    assert_eq!(out.len(), payload.len() + 4);
}

#[test]
fn forward_to_app_frames_like_write_message() {
    let payload = b"{\"url\":\"http://x/a.zip\"}";
    assert_eq!(forward_to_app(payload), write_message(payload));
}

#[test]
fn read_message_roundtrip_law() {
    let payload = b"hello".to_vec();
    let mut stream = write_message(&payload);
    stream.extend_from_slice(b"trailing bytes");
    assert_eq!(read_message(&stream), Some(payload));
}

#[test]
fn read_message_rejects_empty_payload() {
    assert_eq!(read_message(&[0, 0, 0, 0, 1, 2]), None);
}

#[test]
fn read_message_rejects_short_header() {
    assert_eq!(read_message(&[5, 0, 0]), None);
    assert_eq!(read_message(&[]), None);
}

#[test]
fn read_message_rejects_truncated_payload() {
    assert_eq!(read_message(&[5, 0, 0, 0, b'a', b'b']), None);
}

#[test]
fn read_message_rejects_oversized_length() {
    let len = (MAX_MESSAGE as u32 + 1).to_le_bytes();
    let mut stream = len.to_vec();
    stream.push(1);
    assert_eq!(read_message(&stream), None);
}

#[test]
fn frame_length_limits() {
    assert_eq!(frame_length([0, 0, 0, 0], MAX_PIPE_FRAME), None);
    assert_eq!(frame_length([1, 0, 0, 0], MAX_PIPE_FRAME), Some(1));
    assert_eq!(frame_length([0, 0, 0, 1], MAX_PIPE_FRAME), Some(16 * 1024 * 1024));
    assert_eq!(frame_length([1, 0, 0, 1], MAX_PIPE_FRAME), None);
    assert_eq!(frame_length([0, 0, 0, 4], MAX_MESSAGE), Some(64 * 1024 * 1024));
    assert_eq!(frame_length([0x34, 0x12, 0, 0], MAX_MESSAGE), Some(0x1234));
}

#[test]
fn decode_frame_with_pipe_limit() {
    let payload = vec![1u8, 2, 3];
    let stream = write_message(&payload);
    assert_eq!(decode_frame(&stream, 3), Some(payload.clone()));
    assert_eq!(decode_frame(&stream, 2), None);
}

#[test]
fn pipe_name_is_the_windows_pipe() {
    assert_eq!(PIPE_NAME, r"\\.\pipe\idmnoads");
}
