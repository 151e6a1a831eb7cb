use esp_deck::frame::{deframe_message, frame_message, FrameError, UsbMessageError, MAX_PAYLOAD_LENGTH};

#[test]
fn frame_layout_is_magic_length_payload() {
    let frame = frame_message(&[1u8, 2, 3]).unwrap();
    assert_eq!(
        frame,
        vec![0xC0u8, 0xEC, 0x9D, 0xE5, 0x03, 0x00, 0x00, 0x00, 1, 2, 3]
    );
}

#[test]
fn frame_empty_payload() {
    let frame = frame_message(&[]).unwrap();
    assert_eq!(frame, vec![0xC0u8, 0xEC, 0x9D, 0xE5, 0, 0, 0, 0]);
}

#[test]
fn frame_rejects_oversized_payload() {
    let payload = vec![0u8; MAX_PAYLOAD_LENGTH + 1];
    assert_eq!(frame_message(&payload), Err(UsbMessageError::FailedToFrame));
}

#[test]
fn frame_accepts_maximum_payload() {
    let payload = vec![7u8; MAX_PAYLOAD_LENGTH];
    let frame = frame_message(&payload).unwrap();
    assert_eq!(frame.len(), 8 + MAX_PAYLOAD_LENGTH);
}

#[test]
fn roundtrip_returns_payload() {
    let payload: Vec<u8> = (0..200).map(|i| (i * 3 % 256) as u8).collect();
    let frame = frame_message(&payload).unwrap();
    let message = deframe_message(&frame).unwrap();
    assert_eq!(message.payload, payload);
    assert_eq!(message.payload_length, payload.len() as u32);
}

#[test]
fn roundtrip_largest_payload() {
    let payload = vec![0xABu8; MAX_PAYLOAD_LENGTH];
    let frame = frame_message(&payload).unwrap();
    let message = deframe_message(&frame).unwrap();
    assert_eq!(message.payload, payload);
}

#[test]
fn deframe_too_short_header() {
    let bytes = [0xC0u8, 0xEC, 0x9D];
    assert!(matches!(deframe_message(&bytes), Err(FrameError::FrameTooShort)));
}

#[test]
fn deframe_bad_magic() {
    let bytes = [0u8, 1, 2, 3, 1, 0, 0, 0, 9];
    assert!(matches!(deframe_message(&bytes), Err(FrameError::BadMagic)));
}

#[test]
fn deframe_truncated_payload() {
    let mut frame = frame_message(&[1u8, 2, 3, 4]).unwrap();
    frame.pop();
    assert!(matches!(deframe_message(&frame), Err(FrameError::FrameTooShort)));
}

#[test]
fn deframe_ignores_trailing_bytes() {
    let mut frame = frame_message(&[5u8, 6]).unwrap();
    frame.extend_from_slice(&[0xFF, 0xFF]);
    let message = deframe_message(&frame).unwrap();
    assert_eq!(message.payload, vec![5u8, 6]);
}
