use sanzu::proto::{FrameError, Tunnel, MAX_PACKET_LEN};

#[test]
fn frame_then_split_gives_the_message_back() {
    let tunnel = Tunnel::new();
    let payload = b"hello sanzu".to_vec();
    let frame = tunnel.frame_message(&payload);
    assert_eq!(frame.len(), 8 + payload.len());
    assert_eq!(&frame[0..8], &[11, 0, 0, 0, 0, 0, 0, 0]);
    assert_eq!(tunnel.split_frame(&frame), Ok(payload));
}

#[test]
fn empty_message_round_trip() {
    let tunnel = Tunnel::new();
    let frame = tunnel.frame_message(&[]);
    assert_eq!(frame, vec![0u8; 8]);
    assert_eq!(tunnel.split_frame(&frame), Ok(vec![]));
}

#[test]
fn header_is_little_endian() {
    let tunnel = Tunnel::new();
    assert_eq!(tunnel.parse_header(&[0x34, 0x12, 0, 0, 0, 0, 0, 0]), Ok(0x1234));
}

#[test]
fn header_above_the_limit_is_refused() {
    let tunnel = Tunnel::new();
    let len = (MAX_PACKET_LEN as u64 + 1).to_le_bytes();
    assert_eq!(tunnel.parse_header(&len), Err(FrameError::PacketTooBig));
    let len = (MAX_PACKET_LEN as u64).to_le_bytes();
    assert_eq!(tunnel.parse_header(&len), Ok(MAX_PACKET_LEN));
}

#[test]
fn short_buffers_are_truncated() {
    let tunnel = Tunnel::new();
    assert_eq!(tunnel.split_frame(&[1, 0, 0]), Err(FrameError::Truncated));
    assert_eq!(tunnel.split_frame(&[3, 0, 0, 0, 0, 0, 0, 0, 1, 2]), Err(FrameError::Truncated));
}

#[test]
fn split_ignores_bytes_after_the_frame() {
    let tunnel = Tunnel::new();
    assert_eq!(tunnel.split_frame(&[2, 0, 0, 0, 0, 0, 0, 0, 7, 8, 9]), Ok(vec![7, 8]));
}

#[test]
fn oversized_frame_is_refused_before_reading_it() {
    let tunnel = Tunnel::new();
    let mut buf = (u64::MAX).to_le_bytes().to_vec();
    buf.push(1);
    assert_eq!(tunnel.split_frame(&buf), Err(FrameError::PacketTooBig));
}
