use esp_deck::frame::frame_message;
use esp_deck::rx::RxReassembler;

#[test]
fn whole_frame_in_one_chunk() {
    let payload = vec![1u8, 2, 3, 4, 5];
    let frame = frame_message(&payload).unwrap();
    let mut rx = RxReassembler::new();
    let messages = rx.extend(&frame);
    assert_eq!(messages, vec![payload]);
}

#[test]
fn chunk_invariance_byte_at_a_time() {
    let payload: Vec<u8> = (0..64).map(|i| (i * 7 % 251) as u8).collect();
    let frame = frame_message(&payload).unwrap();
    let mut rx = RxReassembler::new();
    let mut messages = Vec::new();
    for b in &frame {
        messages.extend(rx.extend(&[*b]));
    }
    assert_eq!(messages, vec![payload]);
}

#[test]
fn chunk_invariance_uneven_chunks() {
    let payload = vec![9u8; 50];
    let frame = frame_message(&payload).unwrap();
    let mut rx = RxReassembler::new();
    let mut messages = Vec::new();
    // Split the magic word, the length field and the payload at odd places.
    for chunk in [&frame[..3], &frame[3..6], &frame[6..11], &frame[11..]] {
        messages.extend(rx.extend(chunk));
    }
    assert_eq!(messages, vec![payload]);
}

#[test]
fn resync_discards_junk_before_frame() {
    let payload = vec![42u8, 43];
    let frame = frame_message(&payload).unwrap();
    let mut bytes = vec![0x11u8, 0x22, 0x33, 0x44, 0x55];
    bytes.extend_from_slice(&frame);
    let mut rx = RxReassembler::new();
    let messages = rx.extend(&bytes);
    assert_eq!(messages, vec![payload]);
}

#[test]
fn zero_length_field_emits_nothing_and_rescans() {
    // A magic word followed by a zero length field: the parser rejects the
    // length and scans on from the length field itself.
    let mut bytes = vec![0xC0u8, 0xEC, 0x9D, 0xE5, 0, 0, 0, 0];
    let mut rx = RxReassembler::new();
    assert_eq!(rx.extend(&bytes), Vec::<Vec<u8>>::new());
    // A valid frame arriving afterwards is still reassembled.
    bytes = frame_message(&[1u8]).unwrap();
    assert_eq!(rx.extend(&bytes), vec![vec![1u8]]);
}

#[test]
fn oversized_length_field_emits_nothing() {
    // Length 5000 is over the bound; no message may come out, however much
    // payload follows.
    let mut bytes = vec![0xC0u8, 0xEC, 0x9D, 0xE5, 0x88, 0x13, 0, 0];
    bytes.extend(vec![0u8; 600]);
    let mut rx = RxReassembler::new();
    assert_eq!(rx.extend(&bytes), Vec::<Vec<u8>>::new());
}

#[test]
fn two_frames_back_to_back() {
    let first = vec![1u8, 2];
    let second = vec![3u8, 4, 5];
    let mut bytes = frame_message(&first).unwrap();
    bytes.extend(frame_message(&second).unwrap());
    let mut rx = RxReassembler::new();
    let messages = rx.extend(&bytes);
    assert_eq!(messages, vec![first, second]);
}

#[test]
fn partial_frame_waits_for_rest() {
    let payload = vec![8u8; 20];
    let frame = frame_message(&payload).unwrap();
    let mut rx = RxReassembler::new();
    assert_eq!(rx.extend(&frame[..10]), Vec::<Vec<u8>>::new());
    assert_eq!(rx.extend(&frame[10..]), vec![payload]);
}

#[test]
fn resync_with_partial_magic_in_junk() {
    // The junk ends with a prefix of the magic word; the scanner must not
    // be fooled and must still find the real frame.
    let payload = vec![7u8, 8, 9];
    let frame = frame_message(&payload).unwrap();
    let mut bytes = vec![0xC0u8, 0xEC, 0x9D];
    bytes.extend_from_slice(&frame);
    let mut rx = RxReassembler::new();
    let messages = rx.extend(&bytes);
    assert_eq!(messages, vec![payload]);
}
