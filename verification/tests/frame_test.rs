use aes_gcm::aead::{Aead, KeyInit, Payload};
use aes_gcm::{Aes128Gcm, Key, Nonce};
use sigil::crypto::codec::{Codec, UnencryptedRange};
use sigil::crypto::frame_crypto::{
    decrypt_frame, encrypt_frame, expand_nonce, generation_from_nonce,
};
use sigil::frame::payload::{build_footer, parse_footer};
use sigil::frame::{FrameDecryptor, FrameEncryptor};
use sigil::SigilError;

const KEY: [u8; 16] = [
    0x10, 0x21, 0x32, 0x43, 0x54, 0x65, 0x76, 0x87, 0x98, 0xA9, 0xBA, 0xCB, 0xDC, 0xED, 0xFE, 0x0F,
];

#[test]
fn nonce_is_padded_in_front() {
    assert_eq!(expand_nonce(0x0102_0304), [0, 0, 0, 0, 0, 0, 0, 0, 4, 3, 2, 1]);
    assert_eq!(expand_nonce(u32::MAX)[8..], [0xFF; 4]);
}

#[test]
fn generation_is_the_top_byte() {
    assert_eq!(generation_from_nonce(0x00FF_FFFF), 0);
    assert_eq!(generation_from_nonce(0x0100_0000), 1);
    assert_eq!(generation_from_nonce(0xFF12_3456), 255);
}

#[test]
fn encryption_is_aes_128_gcm_with_a_short_tag() {
    let (ciphertext, tag) = encrypt_frame(&KEY, 77, b"attack at dawn", b"header").unwrap();
    let cipher = Aes128Gcm::new(Key::<Aes128Gcm>::from_slice(&KEY));
    let nonce = expand_nonce(77);
    let sealed = cipher
        .encrypt(Nonce::from_slice(&nonce), Payload { msg: b"attack at dawn", aad: b"header" })
        .unwrap();
    assert_eq!(ciphertext[..], sealed[..14]);
    assert_eq!(tag[..], sealed[14..22]);
    assert_ne!(ciphertext[..], b"attack at dawn"[..]);
}

#[test]
fn decryption_gives_the_plaintext_back() {
    let (ciphertext, tag) = encrypt_frame(&KEY, 9, b"some audio", b"aad").unwrap();
    assert_eq!(decrypt_frame(&KEY, 9, &ciphertext, &tag, b"aad").unwrap(), b"some audio");
}

#[test]
fn decryption_needs_the_right_inputs() {
    let (ciphertext, tag) = encrypt_frame(&KEY, 9, b"some audio", b"aad").unwrap();
    let mut wrong_tag = tag;
    wrong_tag[7] ^= 1;
    let mut wrong_text = ciphertext.clone();
    wrong_text[0] ^= 1;
    let mut wrong_key = KEY;
    wrong_key[3] ^= 1;
    for result in [
        decrypt_frame(&KEY, 9, &ciphertext, &wrong_tag, b"aad"),
        decrypt_frame(&KEY, 9, &wrong_text, &tag, b"aad"),
        decrypt_frame(&wrong_key, 9, &ciphertext, &tag, b"aad"),
        decrypt_frame(&KEY, 10, &ciphertext, &tag, b"aad"),
        decrypt_frame(&KEY, 9, &ciphertext, &tag, b"aae"),
    ] {
        assert!(matches!(result, Err(SigilError::DecryptionFailed)));
    }
}

fn sample_frames() -> Vec<(Codec, Vec<u8>)> {
    vec![
        (Codec::Opus, vec![0xF8, 0xFF, 0xFE]),
        (Codec::Opus, vec![]),
        (Codec::Vp8, (0..40).collect()),
        (Codec::Vp8, vec![1, 2, 3, 4, 5]),
        (Codec::Vp9, (0..100).collect()),
        (Codec::H264, vec![0, 0, 0, 1, 0x67, 0xAA, 0xBB, 0, 0, 1, 0x65, 1, 2, 3]),
        (Codec::H265, vec![0, 0, 0, 1, 0x40, 0x01, 0xCC, 0, 0, 1, 0x02, 0x01, 5, 6]),
        (Codec::H265, vec![]),
        (Codec::Av1, vec![0x0A, 2, 0xAA, 0xBB, 0x0E, 0x11, 1, 0xCC, 0x08, 1, 2, 3]),
    ]
}

#[test]
fn every_codec_round_trips() {
    for (codec, raw) in sample_frames() {
        let sealed = FrameEncryptor::new(codec).encrypt(&KEY, 0x0102_0304, &raw).unwrap();
        assert_eq!(FrameDecryptor::decrypt(&KEY, &sealed).unwrap(), raw);
    }
}

#[test]
fn clear_ranges_survive_and_the_rest_does_not() {
    let raw: Vec<u8> = (0..40).map(|i| i * 2).collect();
    let sealed = FrameEncryptor::new(Codec::Vp8).encrypt(&KEY, 5, &raw).unwrap();
    assert_eq!(sealed[..10], raw[..10]);
    assert_ne!(sealed[10..40], raw[10..40]);
    let (_, nonce, ranges, end) = parse_footer(&sealed).unwrap();
    assert_eq!(nonce, 5);
    assert_eq!(ranges, vec![UnencryptedRange { offset: 0, length: 10 }]);
    assert_eq!(end, 40);
    // The clear bytes are authenticated: changing one breaks the frame.
    let mut changed = sealed.clone();
    changed[3] ^= 1;
    assert!(matches!(
        FrameDecryptor::decrypt(&KEY, &changed),
        Err(SigilError::DecryptionFailed)
    ));
}

#[test]
fn unparsable_frames_are_not_encrypted() {
    match FrameEncryptor::new(Codec::Vp8).encrypt(&KEY, 5, &[]) {
        Err(SigilError::UnsupportedCodec(text)) => assert_eq!(text, "VP8 frame is empty"),
        _ => panic!("an empty VP8 frame has no header"),
    }
    let mut frame = vec![0x0A];
    frame.extend_from_slice(&[0x80; 11]);
    assert!(matches!(
        FrameEncryptor::new(Codec::Av1).encrypt(&KEY, 5, &frame),
        Err(SigilError::UnsupportedCodec(_))
    ));
}

#[test]
fn footer_errors_come_through() {
    assert!(matches!(
        FrameDecryptor::decrypt(&KEY, &[1, 2, 3]),
        Err(SigilError::FrameTooShort { need: 12, got: 3 })
    ));
    assert!(matches!(
        FrameDecryptor::decrypt(&KEY, &[0u8; 30]),
        Err(SigilError::InvalidMagic)
    ));
}

#[test]
fn range_beyond_the_data_is_refused() {
    let footer = build_footer(&[0; 8], 1, &[UnencryptedRange { offset: 6, length: 1 }]);
    let mut frame = vec![1, 2, 3, 4, 5];
    frame.extend_from_slice(&footer);
    assert!(matches!(
        FrameDecryptor::decrypt(&KEY, &frame),
        Err(SigilError::FrameTooShort { need: 6, got: 5 })
    ));
}

#[test]
fn overlapping_ranges_count_once() {
    let data = [10u8, 11, 12, 13, 14, 15];
    let ranges = [
        UnencryptedRange { offset: 0, length: 3 },
        UnencryptedRange { offset: 2, length: usize::MAX },
    ];
    let (ciphertext, tag) = encrypt_frame(&KEY, 3, &[], &data).unwrap();
    assert!(ciphertext.is_empty());
    let mut frame = data.to_vec();
    frame.extend_from_slice(&build_footer(&tag, 3, &ranges));
    assert_eq!(FrameDecryptor::decrypt(&KEY, &frame).unwrap(), data);
}

#[test]
fn long_footer_does_not_round_trip() {
    // 130 units make a footer of more than 255 bytes, which its size byte cannot hold.
    let mut raw = Vec::new();
    for _ in 0..130 {
        raw.extend_from_slice(&[0, 0, 1, 0x41, 9]);
    }
    let sealed = FrameEncryptor::new(Codec::H264).encrypt(&KEY, 1, &raw).unwrap();
    assert!(sealed.len() - raw.len() > 255);
    match FrameDecryptor::decrypt(&KEY, &sealed) {
        Ok(found) => assert_ne!(found, raw),
        Err(_) => {}
    }
}
