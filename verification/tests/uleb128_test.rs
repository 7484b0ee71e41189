use sigil::crypto::uleb128;
use sigil::SigilError;

#[test]
fn roundtrip_small() {
    let encoded = uleb128::encode(42);
    let (decoded, consumed) = uleb128::decode_forward(&encoded).unwrap();
    assert_eq!(decoded, 42);
    assert_eq!(consumed, 1);
}

#[test]
fn roundtrip_multibyte() {
    let encoded = uleb128::encode(300);
    let (decoded, _) = uleb128::decode_forward(&encoded).unwrap();
    assert_eq!(decoded, 300);
}

#[test]
fn roundtrip_large() {
    let val = 0xDEAD_BEEF_u64;
    let encoded = uleb128::encode(val);
    let (decoded, _) = uleb128::decode_forward(&encoded).unwrap();
    assert_eq!(decoded, val);
}

#[test]
fn roundtrip_u64_max() {
    let val = u64::MAX;
    let encoded = uleb128::encode(val);
    let (decoded, _) = uleb128::decode_forward(&encoded).expect("decode should succeed");
    assert_eq!(decoded, val);
}

#[test]
fn decode_reverse_works() {
    let encoded = uleb128::encode(624485);
    let mut pos = encoded.len();
    let decoded = uleb128::decode_reverse(&encoded, &mut pos).unwrap();
    assert_eq!(decoded, 624485);
    assert_eq!(pos, 0);
}

#[test]
fn encode_zero() {
    let encoded = uleb128::encode(0);
    assert_eq!(encoded, vec![0]);
}

#[test]
fn encodings_of_known_values() {
    assert_eq!(uleb128::encode(42), vec![42]);
    assert_eq!(uleb128::encode(127), vec![0x7F]);
    assert_eq!(uleb128::encode(128), vec![0x80, 0x01]);
    assert_eq!(uleb128::encode(300), vec![0xAC, 0x02]);
    assert_eq!(uleb128::encode(624485), vec![0xE5, 0x8E, 0x26]);
    assert_eq!(
        uleb128::encode(u64::MAX),
        vec![0xFF, 0xFF, 0xFF, 0xFF, 0xFF, 0xFF, 0xFF, 0xFF, 0xFF, 0x01]
    );
}

#[test]
fn decoding_stops_at_the_end_of_the_number() {
    let (decoded, consumed) = uleb128::decode_forward(&[0xAC, 0x02, 0x55, 0xFF]).unwrap();
    assert_eq!(decoded, 300);
    assert_eq!(consumed, 2);
}

#[test]
fn overlong_zero_groups_are_read() {
    let (decoded, consumed) = uleb128::decode_forward(&[0x81, 0x80, 0x00]).unwrap();
    assert_eq!(decoded, 1);
    assert_eq!(consumed, 3);
}

#[test]
fn value_beyond_64_bits_overflows() {
    let mut bytes = vec![0xFF; 9];
    bytes.push(0x02);
    assert!(matches!(uleb128::decode_forward(&bytes), Err(SigilError::Uleb128Overflow)));
    bytes[9] = 0x01;
    assert_eq!(uleb128::decode_forward(&bytes).unwrap(), (u64::MAX, 10));
}

#[test]
fn more_than_ten_bytes_overflow() {
    let mut bytes = vec![0x80; 10];
    bytes.push(0x00);
    assert!(matches!(uleb128::decode_forward(&bytes), Err(SigilError::Uleb128Overflow)));
}

#[test]
fn unterminated_number_overflows() {
    assert!(matches!(uleb128::decode_forward(&[]), Err(SigilError::Uleb128Overflow)));
    assert!(matches!(uleb128::decode_forward(&[0x80, 0x80]), Err(SigilError::Uleb128Overflow)));
}

#[test]
fn reverse_decoding_walks_through_a_list() {
    let mut buf = uleb128::encode(1);
    buf.extend_from_slice(&uleb128::encode(300));
    buf.extend_from_slice(&uleb128::encode(70_000));
    let mut pos = buf.len();
    assert_eq!(uleb128::decode_reverse(&buf, &mut pos).unwrap(), 70_000);
    assert_eq!(pos, 3);
    assert_eq!(uleb128::decode_reverse(&buf, &mut pos).unwrap(), 300);
    assert_eq!(pos, 1);
    assert_eq!(uleb128::decode_reverse(&buf, &mut pos).unwrap(), 1);
    assert_eq!(pos, 0);
    assert!(matches!(
        uleb128::decode_reverse(&buf, &mut pos),
        Err(SigilError::Uleb128Overflow)
    ));
    assert_eq!(pos, 0);
}

#[test]
fn reverse_decoding_needs_a_last_byte() {
    let buf = [0x05, 0x80];
    let mut pos = 2;
    assert!(matches!(
        uleb128::decode_reverse(&buf, &mut pos),
        Err(SigilError::Uleb128Overflow)
    ));
    assert_eq!(pos, 2);
}
