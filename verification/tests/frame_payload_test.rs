use sigil::crypto::codec::UnencryptedRange;
use sigil::frame::payload::{build_footer, parse_footer};
use sigil::{SigilError, TRUNCATED_TAG_LENGTH};

#[test]
fn footer_roundtrip_no_ranges() {
    let tag = [0xAA; TRUNCATED_TAG_LENGTH];
    let nonce = 42u32;
    let ranges: Vec<UnencryptedRange> = vec![];

    let footer = build_footer(&tag, nonce, &ranges);

    let mut frame = vec![0u8; 64]; // fake frame data
    frame.extend_from_slice(&footer);

    let (parsed_tag, parsed_nonce, parsed_ranges, data_end) = parse_footer(&frame).unwrap();
    assert_eq!(parsed_tag, tag);
    assert_eq!(parsed_nonce, nonce);
    assert!(parsed_ranges.is_empty());
    assert_eq!(data_end, 64);
}

#[test]
fn footer_roundtrip_with_ranges() {
    let tag = [0xBB; TRUNCATED_TAG_LENGTH];
    let nonce = 1024u32;
    let ranges = vec![
        UnencryptedRange {
            offset: 0,
            length: 10,
        },
        UnencryptedRange {
            offset: 50,
            length: 2,
        },
    ];

    let footer = build_footer(&tag, nonce, &ranges);
    let mut frame = vec![0u8; 128];
    frame.extend_from_slice(&footer);

    let (parsed_tag, parsed_nonce, parsed_ranges, _) = parse_footer(&frame).unwrap();
    assert_eq!(parsed_tag, tag);
    assert_eq!(parsed_nonce, nonce);
    assert_eq!(parsed_ranges.len(), 2);
    assert_eq!(parsed_ranges[0].offset, 0);
    assert_eq!(parsed_ranges[0].length, 10);
    assert_eq!(parsed_ranges[1].offset, 50);
    assert_eq!(parsed_ranges[1].length, 2);
}

#[test]
fn invalid_magic_detected() {
    let frame = vec![0x00, 0x00, 0x00]; // no magic
    assert!(parse_footer(&frame).is_err());
}

#[test]
fn footer_bytes_are_laid_out_in_order() {
    let tag = [1, 2, 3, 4, 5, 6, 7, 8];
    let ranges = vec![UnencryptedRange { offset: 300, length: 5 }];
    let footer = build_footer(&tag, 200, &ranges);
    assert_eq!(
        footer,
        vec![1, 2, 3, 4, 5, 6, 7, 8, 0xC8, 0x01, 0xAC, 0x02, 0x05, 16, 0xFA, 0xFA]
    );
}

#[test]
fn size_byte_holds_the_low_eight_bits() {
    let tag = [0; TRUNCATED_TAG_LENGTH];
    let ranges = vec![UnencryptedRange { offset: 1, length: 1 }; 130];
    let footer = build_footer(&tag, 0, &ranges);
    assert_eq!(footer.len(), 8 + 1 + 260 + 3);
    assert_eq!(footer[footer.len() - 3], (272 % 256) as u8);
}

#[test]
fn short_frame_is_refused() {
    assert!(matches!(
        parse_footer(&[0xFA; 11]),
        Err(SigilError::FrameTooShort { need: 12, got: 11 })
    ));
}

#[test]
fn missing_magic_is_refused() {
    assert!(matches!(parse_footer(&[0u8; 12]), Err(SigilError::InvalidMagic)));
    let mut frame = vec![0u8; 11];
    frame.push(0xFA);
    assert!(matches!(parse_footer(&frame), Err(SigilError::InvalidMagic)));
}

fn frame_with_size(size: u8, len: usize) -> Vec<u8> {
    let mut frame = vec![0u8; len];
    frame[len - 3] = size;
    frame[len - 2] = 0xFA;
    frame[len - 1] = 0xFA;
    frame
}

#[test]
fn size_beyond_the_frame_is_refused() {
    assert!(matches!(
        parse_footer(&frame_with_size(21, 20)),
        Err(SigilError::FrameTooShort { need: 21, got: 20 })
    ));
}

#[test]
fn size_below_a_footer_is_refused() {
    assert!(matches!(
        parse_footer(&frame_with_size(7, 20)),
        Err(SigilError::FrameTooShort { need: 8, got: 7 })
    ));
    assert!(matches!(
        parse_footer(&frame_with_size(10, 20)),
        Err(SigilError::FrameTooShort { need: 11, got: 10 })
    ));
    assert!(matches!(
        parse_footer(&frame_with_size(11, 20)),
        Err(SigilError::Uleb128Overflow)
    ));
}

#[test]
fn dangling_offset_is_dropped() {
    let mut frame = vec![9u8; 8];
    frame.extend_from_slice(&[5, 1, 2, 3]);
    frame.push(15);
    frame.extend_from_slice(&[0xFA, 0xFA]);
    let (tag, nonce, ranges, end) = parse_footer(&frame).unwrap();
    assert_eq!(tag, [9u8; 8]);
    assert_eq!(nonce, 5);
    assert_eq!(ranges, vec![UnencryptedRange { offset: 1, length: 2 }]);
    assert_eq!(end, 0);
}

#[test]
fn nonce_keeps_its_low_32_bits() {
    let mut frame = vec![0u8; 8];
    // 2^32 + 7
    frame.extend_from_slice(&[0x87, 0x80, 0x80, 0x80, 0x10]);
    frame.push(16);
    frame.extend_from_slice(&[0xFA, 0xFA]);
    let (_, nonce, _, _) = parse_footer(&frame).unwrap();
    assert_eq!(nonce, 7);
}
