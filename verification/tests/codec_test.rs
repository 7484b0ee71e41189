use sigil::crypto::codec::{Codec, UnencryptedRange};
use sigil::SigilError;

fn ranges(codec: Codec, frame: &[u8]) -> Vec<(usize, usize)> {
    codec
        .unencrypted_ranges(frame)
        .unwrap()
        .iter()
        .map(|range| (range.offset, range.length))
        .collect()
}

#[test]
fn opus_and_vp9_are_fully_encrypted() {
    assert!(ranges(Codec::Opus, &[1, 2, 3]).is_empty());
    assert!(ranges(Codec::Vp9, &[1, 2, 3]).is_empty());
    assert!(ranges(Codec::Opus, &[]).is_empty());
}

#[test]
fn vp8_keyframe_keeps_ten_bytes() {
    assert_eq!(ranges(Codec::Vp8, &[0u8; 20]), vec![(0, 10)]);
    assert_eq!(ranges(Codec::Vp8, &[0u8; 4]), vec![(0, 4)]);
}

#[test]
fn vp8_delta_frame_keeps_one_byte() {
    assert_eq!(ranges(Codec::Vp8, &[0x01, 0, 0, 0]), vec![(0, 1)]);
}

#[test]
fn vp8_empty_frame_is_refused() {
    match Codec::Vp8.unencrypted_ranges(&[]) {
        Err(SigilError::UnsupportedCodec(text)) => assert_eq!(text, "VP8 frame is empty"),
        _ => panic!("an empty VP8 frame has no header"),
    }
}

#[test]
fn h264_units_by_type() {
    // SPS (7) behind a four-byte code, slice (5) behind a three-byte code.
    let frame = [0, 0, 0, 1, 0x67, 0xAA, 0xBB, 0, 0, 1, 0x65, 1, 2, 3];
    assert_eq!(ranges(Codec::H264, &frame), vec![(0, 7), (7, 4)]);
}

#[test]
fn h264_frame_without_start_code() {
    assert_eq!(ranges(Codec::H264, &[0x65, 1, 2, 3]), vec![(0, 1)]);
    assert_eq!(ranges(Codec::H264, &[0x67, 1, 2, 3]), vec![(0, 4)]);
    assert!(ranges(Codec::H264, &[]).is_empty());
}

#[test]
fn h264_empty_units_are_passed_over() {
    // Two start codes in a row, then one at the very end.
    let frame = [0, 0, 1, 0, 0, 1, 0x41, 9, 0, 0, 1];
    assert_eq!(ranges(Codec::H264, &frame), vec![(3, 4)]);
}

#[test]
fn h264_extra_zero_belongs_to_the_unit_before() {
    let frame = [0, 0, 1, 0x41, 7, 0, 0, 0, 0, 1, 0x06, 8];
    assert_eq!(ranges(Codec::H264, &frame), vec![(0, 4), (6, 6)]);
}

#[test]
fn h265_units_by_type() {
    // VPS (32) behind a four-byte code, slice (1) behind a three-byte code.
    let frame = [0, 0, 0, 1, 0x40, 0x01, 0xCC, 0, 0, 1, 0x02, 0x01, 5, 6];
    assert_eq!(ranges(Codec::H265, &frame), vec![(0, 7), (7, 5)]);
}

#[test]
fn h265_short_units_stay_clear() {
    let frame = [0, 0, 1, 0x02, 0, 0, 1, 0x02, 0x01, 5];
    assert_eq!(ranges(Codec::H265, &frame), vec![(0, 4), (4, 5)]);
    assert_eq!(ranges(Codec::H265, &[0x02]), vec![(0, 1)]);
    assert_eq!(ranges(Codec::H265, &[]), vec![(0, 0)]);
}

#[test]
fn h265_frame_without_start_code() {
    assert_eq!(ranges(Codec::H265, &[0x02, 0x01, 9, 9]), vec![(0, 2)]);
    assert_eq!(ranges(Codec::H265, &[0x40, 0x01, 9, 9]), vec![(0, 4)]);
}

#[test]
fn av1_headers_with_sizes() {
    // OBU with size 2; OBU with extension and size 1; OBU without size.
    let frame = [0x0A, 2, 0xAA, 0xBB, 0x0E, 0x11, 1, 0xCC, 0x08, 1, 2, 3];
    assert_eq!(ranges(Codec::Av1, &frame), vec![(0, 2), (4, 3), (8, 1)]);
}

#[test]
fn av1_multibyte_size() {
    let mut frame = vec![0x0A, 0x81, 0x01];
    frame.extend_from_slice(&[7u8; 129]);
    frame.push(0x08);
    assert_eq!(ranges(Codec::Av1, &frame), vec![(0, 3), (132, 1)]);
}

#[test]
fn av1_size_beyond_the_frame_ends_it() {
    let frame = [0x0A, 0xFF, 0xFF, 0xFF, 0xFF, 0xFF, 0xFF, 0xFF, 0xFF, 0xFF, 0x01, 5];
    assert_eq!(ranges(Codec::Av1, &frame), vec![(0, 11)]);
    assert_eq!(ranges(Codec::Av1, &[0x0A, 0x80]), vec![(0, 2)]);
    assert_eq!(ranges(Codec::Av1, &[0x0E]), vec![(0, 1)]);
}

#[test]
fn av1_overlong_size_is_refused() {
    let mut frame = vec![0x0A];
    frame.extend_from_slice(&[0x80; 10]);
    frame.push(0);
    assert!(av1_is_refused(&frame));
    let unended = [0x02, 0x80, 0x80, 0x80, 0x80, 0x80, 0x80, 0x80, 0x80, 0x80, 0x80];
    assert!(av1_is_refused(&unended));
    // One byte less, and the frame's end cuts the field off.
    assert_eq!(ranges(Codec::Av1, &unended[..10]), vec![(0, 10)]);
}

#[test]
fn av1_size_beyond_64_bits_is_refused() {
    let mut frame = vec![0x0A, 0x80, 0x80, 0x80, 0x80, 0x80, 0x80, 0x80, 0x80, 0x80, 0x02, 5];
    assert!(av1_is_refused(&frame));
    frame[10] = 0x01;
    assert_eq!(ranges(Codec::Av1, &frame), vec![(0, 11)]);
}

fn av1_is_refused(frame: &[u8]) -> bool {
    match Codec::Av1.unencrypted_ranges(frame) {
        Err(SigilError::UnsupportedCodec(text)) => text == "AV1 size field is too large",
        _ => false,
    }
}

#[test]
fn h264_has_one_range_per_unit() {
    // A parameter set of two bytes, then a slice of four behind a long start code.
    let frame = [0, 0, 1, 0x67, 9, 0, 0, 0, 1, 0x65, 1, 2, 3];
    assert_eq!(ranges(Codec::H264, &frame), vec![(0, 5), (5, 5)]);
}

#[test]
fn ranges_are_ordered_and_disjoint() {
    let mut frame = Vec::new();
    for i in 0..40u8 {
        frame.extend_from_slice(&[0, 0, 1, 0x41 + i % 3, i, i, 0]);
    }
    for codec in [Codec::H264, Codec::H265, Codec::Av1] {
        let found: Vec<UnencryptedRange> = codec.unencrypted_ranges(&frame).unwrap();
        let mut end = 0;
        for range in &found {
            assert!(range.offset >= end);
            end = range.offset + range.length;
        }
        assert!(end <= frame.len());
    }
}
