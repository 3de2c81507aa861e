use argos::{fourcc_to_string, image_from_frame, CameraFrame, FrameError, RG24_FOURCC};

#[test]
fn rg24_is_the_little_endian_code() {
    assert_eq!(RG24_FOURCC, u32::from_le_bytes([b'R', b'G', b'2', b'4']));
}

#[test]
fn fourcc_text_of_rg24() {
    assert_eq!(fourcc_to_string(RG24_FOURCC), "'RG24'");
    assert_eq!(fourcc_to_string(u32::from_le_bytes(*b"MJPG")), "'MJPG'");
}

#[test]
fn fourcc_text_hides_unprintable_bytes() {
    assert_eq!(fourcc_to_string(0), "'????'");
    assert_eq!(fourcc_to_string(u32::from_le_bytes([b' ', b'~', 0x7f, b'!'])), "'?~?!'");
}

#[test]
fn image_needs_rg24() {
    let frame = CameraFrame { width: 1, height: 1, fourcc: 42, sequence: 0, data: vec![0; 3] };
    assert!(matches!(image_from_frame(&frame), Err(FrameError::UnsupportedFourcc(42))));
}

#[test]
fn image_needs_three_bytes_per_pixel() {
    let frame =
        CameraFrame { width: 2, height: 2, fourcc: RG24_FOURCC, sequence: 0, data: vec![0; 11] };
    assert!(matches!(image_from_frame(&frame), Err(FrameError::InvalidLength)));
}

#[test]
fn image_keeps_size_and_pixels() {
    let data: Vec<u8> = (0..12).collect();
    let frame =
        CameraFrame { width: 2, height: 2, fourcc: RG24_FOURCC, sequence: 3, data: data.clone() };
    let img = image_from_frame(&frame).ok().unwrap();
    assert_eq!(img.image.width(), 2);
    assert_eq!(img.image.height(), 2);
    assert_eq!(img.image.into_raw(), data);
}

#[test]
fn image_accepts_extra_bytes() {
    let frame =
        CameraFrame { width: 1, height: 1, fourcc: RG24_FOURCC, sequence: 0, data: vec![1; 5] };
    assert!(image_from_frame(&frame).is_ok());
}
