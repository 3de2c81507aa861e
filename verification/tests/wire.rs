use argos::{
    decode_camera_frame, encode_camera_frame, frame_from_capture, CameraFrame, CommsError,
    RG24_FOURCC,
};

fn sample_frame() -> CameraFrame {
    CameraFrame { width: 300, height: 2, fourcc: RG24_FOURCC, sequence: 0, data: vec![1, 2, 3] }
}

#[test]
fn camera_frame_wire_bytes() {
    let bytes = encode_camera_frame(&sample_frame()).unwrap();
    assert_eq!(
        bytes,
        vec![172, 2, 2, 0xd2, 0x8e, 0xc9, 0xa1, 0x03, 0, 3, 1, 2, 3]
    );
}

#[test]
fn camera_frame_round_trip() {
    let frame = CameraFrame {
        width: u32::MAX,
        height: 128,
        fourcc: 7,
        sequence: 16384,
        data: (0..=255u8).collect(),
    };
    let bytes = encode_camera_frame(&frame).unwrap();
    let back = decode_camera_frame(&bytes).unwrap();
    assert_eq!(back.width, frame.width);
    assert_eq!(back.height, frame.height);
    assert_eq!(back.fourcc, frame.fourcc);
    assert_eq!(back.sequence, frame.sequence);
    assert_eq!(back.data, frame.data);
}

#[test]
fn camera_frame_decode_ignores_trailing_bytes() {
    let mut bytes = encode_camera_frame(&sample_frame()).unwrap();
    bytes.extend([9, 9, 9]);
    let back = decode_camera_frame(&bytes).unwrap();
    assert_eq!(back.width, 300);
    assert_eq!(back.data, vec![1, 2, 3]);
}

#[test]
fn camera_frame_truncated_payload_is_a_serialization_error() {
    let bytes = encode_camera_frame(&sample_frame()).unwrap();
    let err = decode_camera_frame(&bytes[..bytes.len() - 1]).unwrap_err();
    assert!(matches!(err, CommsError::Serialization(postcard::Error::DeserializeUnexpectedEnd)));
    assert!(!err.is_invalid_payload());
    assert!(matches!(decode_camera_frame(&[]), Err(CommsError::Serialization(_))));
}

#[test]
fn capture_keeps_only_used_bytes() {
    let plane = [5u8, 6, 7, 8, 9];
    let frame = frame_from_capture(640, 480, 41, &plane, 3);
    assert_eq!(frame.width, 640);
    assert_eq!(frame.height, 480);
    assert_eq!(frame.fourcc, RG24_FOURCC);
    assert_eq!(frame.sequence, 41);
    assert_eq!(frame.data, vec![5, 6, 7]);
    assert!(frame_from_capture(1, 1, 0, &plane, 0).data.is_empty());
}

#[test]
fn invalid_payload_is_skippable() {
    let e = CommsError::InvalidPayload { topic: "robot/motors", reason: "bad" };
    assert!(e.is_invalid_payload());
    assert!(!CommsError::Transport("down".to_string()).is_invalid_payload());
}

#[test]
fn camera_frame_decode_accepts_redundant_varint_bytes() {
    // width 1 written in two bytes, the rest canonical: 1 x 1, fourcc 0, seq 0, data [7].
    let payload = [0x81, 0x00, 1, 0, 0, 1, 7];
    let frame = decode_camera_frame(&payload).unwrap();
    assert_eq!(frame.width, 1);
    assert_eq!(frame.height, 1);
    assert_eq!(frame.data, vec![7]);
}

#[test]
fn camera_frame_decode_rejects_overlong_and_malformed_payloads() {
    // A u32 varint of six bytes is more than postcard reads.
    let overlong = [0x80, 0x80, 0x80, 0x80, 0x80, 0x00, 1, 0, 0, 0];
    assert!(matches!(decode_camera_frame(&overlong), Err(CommsError::Serialization(_))));
    // Data shorter than its length.
    let short = [1, 1, 0, 0, 3, 9, 9];
    assert!(matches!(decode_camera_frame(&short), Err(CommsError::Serialization(_))));
}
