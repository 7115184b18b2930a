use relay::codec::{make_frame, payload_len, DecodeError};
use relay::message::MessageType;

#[test]
fn round_trip_text() {
    let m = MessageType::Text(String::from("hello"));
    let bytes = m.serialize_message();
    assert_eq!(MessageType::deserialize_message(&bytes), Ok(m));
}

#[test]
fn round_trip_text_unicode() {
    let m = MessageType::Text(String::from("přílišžluťoučký kůň — ňů"));
    let bytes = m.serialize_message();
    assert_eq!(MessageType::deserialize_message(&bytes), Ok(m));
}

#[test]
fn round_trip_image() {
    let m = MessageType::Image(vec![1, 2, 3, 255, 0]);
    let bytes = m.serialize_message();
    assert_eq!(MessageType::deserialize_message(&bytes), Ok(m));
}

#[test]
fn round_trip_file() {
    let m = MessageType::File(String::from("notes.txt"), vec![9, 8, 7]);
    let bytes = m.serialize_message();
    assert_eq!(MessageType::deserialize_message(&bytes), Ok(m));
}

#[test]
fn round_trip_empty_payloads() {
    for m in [
        MessageType::Text(String::new()),
        MessageType::Image(Vec::new()),
        MessageType::File(String::new(), Vec::new()),
    ] {
        let bytes = m.serialize_message();
        assert_eq!(MessageType::deserialize_message(&bytes), Ok(m));
    }
}

#[test]
fn text_wire_bytes_are_tag_length_payload() {
    let m = MessageType::Text(String::from("A"));
    assert_eq!(m.serialize_message(), vec![0u8, 0, 0, 0, 1, 65]);
}

#[test]
fn decode_rejects_truncated_payload() {
    let m = MessageType::Text(String::from("hi"));
    let mut bytes = m.serialize_message();
    bytes.pop();
    assert_eq!(MessageType::deserialize_message(&bytes), Err(DecodeError));
}

#[test]
fn decode_rejects_trailing_bytes() {
    let m = MessageType::Text(String::from("hi"));
    let mut bytes = m.serialize_message();
    bytes.push(0);
    assert_eq!(MessageType::deserialize_message(&bytes), Err(DecodeError));
}

#[test]
fn decode_rejects_short_input() {
    assert_eq!(MessageType::deserialize_message(&[]), Err(DecodeError));
    assert_eq!(MessageType::deserialize_message(&[0, 0, 0, 0]), Err(DecodeError));
}

#[test]
fn decode_rejects_unknown_tag() {
    assert_eq!(MessageType::deserialize_message(&[9, 0, 0, 0, 0]), Err(DecodeError));
}

#[test]
fn decode_rejects_length_mismatch() {
    // declares five text bytes, carries one
    assert_eq!(MessageType::deserialize_message(&[0, 0, 0, 0, 5, b'a']), Err(DecodeError));
}

#[test]
fn decode_rejects_bad_utf8() {
    assert_eq!(MessageType::deserialize_message(&[0, 0, 0, 0, 2, 0xFF, 0xFE]), Err(DecodeError));
}

#[test]
fn decode_rejects_file_name_length_past_end() {
    // file tag, name length far beyond the payload
    assert_eq!(
        MessageType::deserialize_message(&[2, 0, 0, 0, 99, 0, 0, 0, 0, b'x']),
        Err(DecodeError)
    );
}

#[test]
fn frame_carries_length_then_payload() {
    let m = MessageType::File(String::from("a"), vec![1, 2, 3]);
    let payload = m.serialize_message();
    let frame = make_frame(&m);
    assert_eq!(frame.len(), payload.len() + 4);
    assert_eq!(&frame[4..], &payload[..]);
    assert_eq!(payload_len(&frame[0..4]) as usize, payload.len());
}

#[test]
fn is_wf_accepts_small_messages() {
    assert!(MessageType::Text(String::from("x")).is_wf());
    assert!(MessageType::Image(vec![0; 1024]).is_wf());
    assert!(MessageType::File(String::from("n"), vec![1]).is_wf());
}
