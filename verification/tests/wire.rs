use kops::codec::encode_response;
use kops::protocol::Response;
use kops::wire::{build_frame, frame_payload_len, WireError};

#[test]
fn frame_prefixes_the_payload_length_big_endian() {
    let payload = vec![1u8, 2, 3, 4, 5];
    let frame = build_frame(&payload).unwrap();
    assert_eq!(frame, vec![0, 0, 0, 5, 1, 2, 3, 4, 5]);
}

#[test]
fn frame_header_round_trips_the_length() {
    let payload = encode_response(&Response::Error { message: "x".repeat(300) }).unwrap();
    let frame = build_frame(&payload).unwrap();
    assert_eq!(frame_payload_len(&frame[..4]), payload.len());
    assert_eq!(&frame[4..], &payload[..]);
}

#[test]
fn empty_payload_frames_cleanly() {
    let frame = build_frame(&vec![]).unwrap();
    assert_eq!(frame, vec![0, 0, 0, 0]);
    assert_eq!(frame_payload_len(&frame), 0);
}

#[test]
fn wire_error_descriptions_name_the_kind() {
    assert_eq!(
        WireError::io("broken pipe".to_string()).describe(),
        "I/O error: broken pipe"
    );
    assert_eq!(WireError::decode_truncated().describe(), "decode error: truncated message");
    assert_eq!(WireError::decode_malformed().describe(), "decode error: malformed message");
    assert_eq!(
        WireError::encode_too_long().describe(),
        "encode error: value too long to encode"
    );
}
