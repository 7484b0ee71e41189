use hkdf::Hkdf;
use sha2::Sha256;
use sigil::crypto::key_ratchet::KeyRatchet;
use sigil::SigilError;

#[test]
fn generation_zero_returns_base() {
    let secret = [0x42u8; 16];
    let mut ratchet = KeyRatchet::new(secret);
    let key = ratchet.get(0).unwrap();
    assert_eq!(key, secret);
}

#[test]
fn forward_ratchet_produces_different_keys() {
    let secret = [0x42u8; 16];
    let mut ratchet = KeyRatchet::new(secret);
    let k0 = ratchet.get(0).unwrap();
    let k1 = ratchet.get(1).unwrap();
    let k2 = ratchet.get(2).unwrap();
    assert_ne!(k0, k1);
    assert_ne!(k1, k2);
    assert_ne!(k0, k2);
}

#[test]
fn cached_generation_returns_same_key() {
    let secret = [0xABu8; 16];
    let mut ratchet = KeyRatchet::new(secret);
    let k5_first = ratchet.get(5).unwrap();
    let k5_second = ratchet.get(5).unwrap();
    assert_eq!(k5_first, k5_second);
}

#[test]
fn erased_generation_fails() {
    let secret = [0xCDu8; 16];
    let mut ratchet = KeyRatchet::new(secret);
    let _ = ratchet.get(5).unwrap();
    ratchet.erase_before(3);
    assert!(ratchet.get(1).is_err());
}

fn derived(previous: &[u8; 16], info: &str) -> [u8; 16] {
    let mut okm = [0u8; 16];
    Hkdf::<Sha256>::new(None, previous).expand(info.as_bytes(), &mut okm).unwrap();
    okm
}

#[test]
fn each_key_is_derived_from_the_one_before() {
    let secret = [7u8; 16];
    let mut ratchet = KeyRatchet::new(secret);
    let k1 = derived(&secret, "sigil-ratchet-1");
    let k2 = derived(&k1, "sigil-ratchet-2");
    assert_eq!(ratchet.get(2).unwrap(), k2);
    assert_eq!(ratchet.get(1).unwrap(), k1);
    let mut key = k2;
    for generation in 3..=12 {
        key = derived(&key, &format!("sigil-ratchet-{}", generation));
    }
    assert_eq!(ratchet.get(12).unwrap(), key);
    assert_eq!(ratchet.current_generation(), 12);
    assert_eq!(ratchet.base_secret(), &secret);
}

#[test]
fn erasing_names_the_generation_and_the_current_one() {
    let mut ratchet = KeyRatchet::new([1u8; 16]);
    ratchet.get(5).unwrap();
    ratchet.erase_before(3);
    assert!(matches!(
        ratchet.get(2),
        Err(SigilError::GenerationErased { generation: 2, current: 5 })
    ));
    assert!(ratchet.get(3).is_ok());
    assert!(ratchet.get(7).is_ok());
    assert!(matches!(
        ratchet.get(2),
        Err(SigilError::GenerationErased { generation: 2, current: 7 })
    ));
}

#[test]
fn nothing_follows_when_all_is_erased() {
    let mut ratchet = KeyRatchet::new([1u8; 16]);
    ratchet.get(5).unwrap();
    ratchet.erase_before(10);
    assert!(matches!(
        ratchet.get(7),
        Err(SigilError::GenerationErased { generation: 5, current: 5 })
    ));
    assert!(matches!(
        ratchet.get(2),
        Err(SigilError::GenerationErased { generation: 2, current: 5 })
    ));
    // The highest derived generation does not go down on a failed request.
    assert_eq!(ratchet.current_generation(), 5);
}

#[test]
fn reset_brings_the_base_back() {
    let mut ratchet = KeyRatchet::new([3u8; 16]);
    let k4 = ratchet.get(4).unwrap();
    ratchet.erase_before(100);
    ratchet.reset();
    assert_eq!(ratchet.current_generation(), 0);
    assert_eq!(ratchet.get(0).unwrap(), [3u8; 16]);
    assert_eq!(ratchet.get(4).unwrap(), k4);
}
