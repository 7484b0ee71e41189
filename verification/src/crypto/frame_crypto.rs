//! AES-128-GCM frame encryption and decryption with DAVE nonce expansion.
//!
//! The DAVE protocol uses AES-128-GCM with 32-bit truncated nonces (expanded
//! to 96-bit by prepending 8 zero bytes) and 8-byte truncated authentication
//! tags (from the full 16-byte GCM tag).

use vstd::prelude::*;
use aes_gcm::aead::{Aead, AeadInPlace, KeyInit, Payload};
use aes_gcm::{Aes128Gcm, Key, Nonce};
use std::hint::black_box;
use crate::error::SigilError;
use crate::types::{FULL_TAG_LENGTH, KEY_LENGTH, NONCE_LENGTH, TRUNCATED_TAG_LENGTH};

verus! {

/// The error of the AEAD traits. It carries nothing.
#[verifier::external_type_specification]
#[verifier::external_body]
pub struct ExAeadError(aes_gcm::Error);

/// The longest message, and the longest associated data, that AES-GCM takes.
pub const GCM_MAX_LENGTH: u64 = 68_719_476_736;

/// The byte at `index` of the counter-mode keystream by which
/// `Aes128Gcm::encrypt_in_place_detached` changes its buffer.
pub uninterp spec fn aes128_gcm_keystream(key: Seq<u8>, nonce: Seq<u8>, index: nat) -> u8;

/// The tag that `Aes128Gcm::encrypt_in_place_detached` returns, in terms of the
/// ciphertext that it leaves in its buffer.
pub uninterp spec fn aes128_gcm_tag(
    key: Seq<u8>,
    nonce: Seq<u8>,
    aad: Seq<u8>,
    ciphertext: Seq<u8>,
) -> [u8; 16];

/// `data` with the keystream of `key` and `nonce` laid over it.
pub open spec fn keystream_over(key: Seq<u8>, nonce: Seq<u8>, data: Seq<u8>) -> Seq<u8> {
    Seq::new(data.len(), |i: int| data[i] ^ aes128_gcm_keystream(key, nonce, i as nat))
}

/// Both lengths are within what AES-GCM takes.
pub open spec fn gcm_accepts(message: nat, aad: nat) -> bool {
    message <= GCM_MAX_LENGTH && aad <= GCM_MAX_LENGTH
}

/// Calls `Aes128Gcm::encrypt`. Claimed of it: it fails exactly if the message
/// or the associated data is longer than 2^36 bytes; otherwise it returns the
/// message with the keystream over it, followed by the 16-byte tag of that.
#[verifier::external_body]
fn aes128_gcm_encrypt(
    key: &[u8; KEY_LENGTH],
    nonce: &[u8; NONCE_LENGTH],
    msg: &[u8],
    aad: &[u8],
) -> (r: Result<Vec<u8>, aes_gcm::Error>)
    ensures
        r is Ok <==> gcm_accepts(msg@.len(), aad@.len()),
        r matches Ok(sealed) ==> sealed@ == keystream_over(key@, nonce@, msg@) + aes128_gcm_tag(
            key@,
            nonce@,
            aad@,
            keystream_over(key@, nonce@, msg@),
        )@,
{
    let cipher = Aes128Gcm::new(Key::<Aes128Gcm>::from_slice(key));
    cipher.encrypt(Nonce::from_slice(nonce), Payload { msg, aad })
}

/// Calls `Aes128Gcm::encrypt_in_place_detached`. Claimed of it: it fails
/// exactly if the buffer or the associated data is longer than 2^36 bytes, and
/// leaves the buffer alone then; otherwise it lays the keystream over the
/// buffer and returns the tag of the outcome.
#[verifier::external_body]
fn aes128_gcm_encrypt_in_place(
    key: &[u8; KEY_LENGTH],
    nonce: &[u8; NONCE_LENGTH],
    aad: &[u8],
    buffer: &mut Vec<u8>,
) -> (r: Result<[u8; FULL_TAG_LENGTH], aes_gcm::Error>)
    ensures
        r is Ok <==> gcm_accepts(old(buffer)@.len(), aad@.len()),
        r is Err ==> final(buffer)@ == old(buffer)@,
        r is Ok ==> final(buffer)@.len() == old(buffer)@.len() && forall|i: int|
            0 <= i < old(buffer)@.len() ==> #[trigger] final(buffer)@[i] == old(buffer)@[i]
                ^ aes128_gcm_keystream(key@, nonce@, i as nat),
        r matches Ok(tag) ==> tag == aes128_gcm_tag(key@, nonce@, aad@, final(buffer)@),
{
    let cipher = Aes128Gcm::new(Key::<Aes128Gcm>::from_slice(key));
    cipher.encrypt_in_place_detached(Nonce::from_slice(nonce), aad, buffer).map(|tag| tag.into())
}

/// `std::hint::black_box` hands its argument back.
pub assume_specification<T>[ std::hint::black_box::<T> ](dummy: T) -> (r: T)
    ensures
        r == dummy,
;

/// The 96-bit nonce that a truncated nonce stands for: eight zero bytes, then
/// the truncated nonce in little-endian order.
pub open spec fn expanded_nonce(truncated: u32) -> Seq<u8> {
    seq![
        0u8,
        0u8,
        0u8,
        0u8,
        0u8,
        0u8,
        0u8,
        0u8,
        (truncated % 0x100) as u8,
        (truncated / 0x100 % 0x100) as u8,
        (truncated / 0x1_0000 % 0x100) as u8,
        (truncated / 0x100_0000) as u8,
    ]
}

/// The truncated tag of `ciphertext`.
pub open spec fn frame_tag(key: Seq<u8>, nonce: u32, aad: Seq<u8>, ciphertext: Seq<u8>) -> Seq<u8> {
    aes128_gcm_tag(key, expanded_nonce(nonce), aad, ciphertext)@.take(TRUNCATED_TAG_LENGTH as int)
}

/// `data` encrypted or, which is the same, decrypted.
pub open spec fn frame_cipher(key: Seq<u8>, nonce: u32, data: Seq<u8>) -> Seq<u8> {
    keystream_over(key, expanded_nonce(nonce), data)
}

/// What decrypting a ciphertext yields: nothing if the tag is not its own or
/// the lengths are beyond what AES-GCM takes.
pub open spec fn decrypted_frame(
    key: Seq<u8>,
    nonce: u32,
    ciphertext: Seq<u8>,
    tag: Seq<u8>,
    aad: Seq<u8>,
) -> Option<Seq<u8>> {
    if gcm_accepts(ciphertext.len(), aad.len()) && frame_tag(key, nonce, aad, ciphertext) == tag {
        Some(frame_cipher(key, nonce, ciphertext))
    } else {
        None
    }
}

/// Laying the keystream over data twice gives the data back.
pub proof fn cipher_is_its_own_inverse(key: Seq<u8>, nonce: u32, data: Seq<u8>)
    ensures
        frame_cipher(key, nonce, frame_cipher(key, nonce, data)) == data,
{
    let twice = frame_cipher(key, nonce, frame_cipher(key, nonce, data));
    assert forall|i: int| 0 <= i < data.len() implies twice[i] == data[i] by {
        let d = data[i];
        let k = aes128_gcm_keystream(key, expanded_nonce(nonce), i as nat);
        assert(d ^ k ^ k == d) by (bit_vector);
    }
    assert(twice =~= data);
}

/// What `encrypt_frame` returns for a message that AES-GCM takes,
/// `decrypt_frame` with the same key, nonce and associated data turns back into
/// the message.
pub proof fn encrypt_then_decrypt_frame(
    key: Seq<u8>,
    nonce: u32,
    plaintext: Seq<u8>,
    aad: Seq<u8>,
)
    requires
        gcm_accepts(plaintext.len(), aad.len()),
    ensures
        ({
            let ciphertext = frame_cipher(key, nonce, plaintext);
            decrypted_frame(
                key,
                nonce,
                ciphertext,
                frame_tag(key, nonce, aad, ciphertext),
                aad,
            ) == Some(plaintext)
        }),
{
    cipher_is_its_own_inverse(key, nonce, plaintext);
}

/// Expand a 32-bit truncated nonce to a full 96-bit (12-byte) AES-GCM nonce.
///
/// Layout: `[0x00; 8] || truncated_nonce_le[4]`
pub fn expand_nonce(truncated: u32) -> (nonce: [u8; NONCE_LENGTH])
    ensures
        nonce@ == expanded_nonce(truncated),
{
    let nonce = [
        0,
        0,
        0,
        0,
        0,
        0,
        0,
        0,
        (truncated % 0x100) as u8,
        (truncated / 0x100 % 0x100) as u8,
        (truncated / 0x1_0000 % 0x100) as u8,
        (truncated / 0x100_0000) as u8,
    ];
    assert(nonce@ =~= expanded_nonce(truncated));
    nonce
}

/// Extract the generation number from a 32-bit truncated nonce: its most
/// significant byte.
pub fn generation_from_nonce(truncated_nonce: u32) -> (generation: u32)
    ensures
        generation == truncated_nonce / 0x100_0000,
{
    assert(truncated_nonce >> 24 == truncated_nonce / 0x100_0000) by (bit_vector);
    truncated_nonce >> 24
}

/// Encrypt a plaintext frame with AES-128-GCM.
///
/// Returns `(ciphertext, truncated_tag)` where the tag is the first 8 bytes
/// of the full 16-byte GCM authentication tag.
///
/// # Errors
///
/// Returns [`SigilError::DecryptionFailed`] if the plaintext or the associated
/// data is longer than AES-GCM takes.
pub fn encrypt_frame(
    key: &[u8; KEY_LENGTH],
    truncated_nonce: u32,
    plaintext: &[u8],
    aad: &[u8],
) -> (r: Result<(Vec<u8>, [u8; TRUNCATED_TAG_LENGTH]), SigilError>)
    ensures
        if gcm_accepts(plaintext@.len(), aad@.len()) {
            r matches Ok((ciphertext, tag)) && ciphertext@ == frame_cipher(
                key@,
                truncated_nonce,
                plaintext@,
            ) && tag@ == frame_tag(key@, truncated_nonce, aad@, ciphertext@)
        } else {
            r == Err::<(Vec<u8>, [u8; TRUNCATED_TAG_LENGTH]), SigilError>(
                SigilError::DecryptionFailed,
            )
        },
{
    let nonce = expand_nonce(truncated_nonce);
    let mut sealed = match aes128_gcm_encrypt(key, &nonce, plaintext, aad) {
        Ok(sealed) => sealed,
        Err(_) => return Err(SigilError::DecryptionFailed),
    };
    let ghost full = sealed@;
    let length: usize = sealed.len() - FULL_TAG_LENGTH;
    let tag = truncated_tag_at(&sealed, length);
    sealed.truncate(length);
    proof {
        let ciphertext = frame_cipher(key@, truncated_nonce, plaintext@);
        assert(sealed@ =~= ciphertext);
        assert(tag@ =~= frame_tag(key@, truncated_nonce, aad@, ciphertext));
    }
    Ok((sealed, tag))
}

/// The first eight bytes of the tag that begins at `at`.
fn truncated_tag_at(sealed: &Vec<u8>, at: usize) -> (tag: [u8; TRUNCATED_TAG_LENGTH])
    requires
        at + FULL_TAG_LENGTH <= sealed@.len(),
    ensures
        tag@ == sealed@.subrange(at as int, at + TRUNCATED_TAG_LENGTH),
{
    assert(at + FULL_TAG_LENGTH <= sealed.len());
    let tag = [
        sealed[at],
        sealed[at + 1],
        sealed[at + 2],
        sealed[at + 3],
        sealed[at + 4],
        sealed[at + 5],
        sealed[at + 6],
        sealed[at + 7],
    ];
    assert(tag@ =~= sealed@.subrange(at as int, at + TRUNCATED_TAG_LENGTH));
    tag
}

/// Compare two truncated tags without an early exit.
fn tags_match(
    a: &[u8; TRUNCATED_TAG_LENGTH],
    b: &[u8; TRUNCATED_TAG_LENGTH],
) -> (same: bool)
    ensures
        same == (a@ == b@),
{
    let mut diff: u8 = 0;
    let mut i: usize = 0;
    while i < TRUNCATED_TAG_LENGTH
        invariant
            i <= TRUNCATED_TAG_LENGTH,
            diff == 0 <==> (forall|j: int| 0 <= j < i ==> a@[j] == b@[j]),
        decreases TRUNCATED_TAG_LENGTH - i,
    {
        let x: u8 = a[i];
        let y: u8 = b[i];
        assert((diff | (x ^ y)) == 0 <==> (diff == 0 && x == y)) by (bit_vector);
        diff = diff | black_box(x ^ y);
        i = i + 1;
    }
    assert(diff == 0 ==> a@ =~= b@);
    diff == 0
}

/// Decrypt a ciphertext frame with AES-128-GCM using a truncated tag.
///
/// Only the first 8 bytes of the tag travel with the frame, so the full tag is
/// computed anew:
/// 1. Lay the AES-CTR keystream over the ciphertext to recover the plaintext.
/// 2. Encrypt the recovered plaintext to get the full GCM tag.
/// 3. Verify that its first 8 bytes are `truncated_tag`.
///
/// # Errors
///
/// Returns [`SigilError::DecryptionFailed`] if the tag does not match, or if a
/// length is beyond what AES-GCM takes.
pub fn decrypt_frame(
    key: &[u8; KEY_LENGTH],
    truncated_nonce: u32,
    ciphertext: &[u8],
    truncated_tag: &[u8; TRUNCATED_TAG_LENGTH],
    aad: &[u8],
) -> (r: Result<Vec<u8>, SigilError>)
    ensures
        match decrypted_frame(key@, truncated_nonce, ciphertext@, truncated_tag@, aad@) {
            Some(plaintext) => r matches Ok(found) && found@ == plaintext,
            None => r == Err::<Vec<u8>, SigilError>(SigilError::DecryptionFailed),
        },
{
    let nonce = expand_nonce(truncated_nonce);
    let mut plaintext: Vec<u8> = Vec::new();
    plaintext.extend_from_slice(ciphertext);
    match aes128_gcm_encrypt_in_place(key, &nonce, aad, &mut plaintext) {
        Ok(_) => {},
        Err(_) => return Err(SigilError::DecryptionFailed),
    }
    assert(plaintext@ =~= frame_cipher(key@, truncated_nonce, ciphertext@));
    let sealed = match aes128_gcm_encrypt(key, &nonce, plaintext.as_slice(), aad) {
        Ok(sealed) => sealed,
        Err(_) => return Err(SigilError::DecryptionFailed),
    };
    proof {
        cipher_is_its_own_inverse(key@, truncated_nonce, ciphertext@);
    }
    let length: usize = sealed.len() - FULL_TAG_LENGTH;
    let tag = truncated_tag_at(&sealed, length);
    assert(tag@ =~= frame_tag(key@, truncated_nonce, aad@, ciphertext@));
    if !tags_match(truncated_tag, &tag) {
        return Err(SigilError::DecryptionFailed);
    }
    Ok(plaintext)
}

/// An expanded nonce has eight zero bytes in front, and behind them the truncated
/// nonce, the least significant byte first.
pub proof fn nonce_stands_behind_zeros(truncated: u32, nonce: [u8; NONCE_LENGTH], i: int)
    requires
        call_ensures(expand_nonce, (truncated,), nonce),
        0 <= i < 8,
    ensures
        nonce@.len() == 12,
        nonce@[i] == 0,
        nonce@[8] + 256 * nonce@[9] + 65536 * nonce@[10] + 16777216 * nonce@[11] == truncated,
{
}

/// The generation of a nonce is what is left of it without its low 24 bits.
pub proof fn generation_is_above_24_bits(
    truncated_nonce: u32,
    generation: u32,
    high: nat,
    low: nat,
)
    requires
        call_ensures(generation_from_nonce, (truncated_nonce,), generation),
        truncated_nonce == 16777216 * high + low,
        low < 16777216,
    ensures
        generation == high,
{
}

/// A frame is encrypted byte by byte under the keystream of the expanded nonce,
/// and its tag is the first eight of the sixteen bytes that AES-GCM gives for
/// ciphertext and associated data. It fails exactly beyond 2^36 bytes.
pub proof fn frame_is_encrypted_in_place(
    key: &[u8; KEY_LENGTH],
    truncated_nonce: u32,
    nonce: [u8; NONCE_LENGTH],
    plaintext: &[u8],
    aad: &[u8],
    r: Result<(Vec<u8>, [u8; TRUNCATED_TAG_LENGTH]), SigilError>,
    i: int,
)
    requires
        call_ensures(expand_nonce, (truncated_nonce,), nonce),
        call_ensures(encrypt_frame, (key, truncated_nonce, plaintext, aad), r),
    ensures
        r is Ok <==> plaintext@.len() <= 68719476736 && aad@.len() <= 68719476736,
        r matches Ok((ciphertext, tag)) ==> {
            &&& ciphertext@.len() == plaintext@.len()
            &&& 0 <= i < plaintext@.len() ==> ciphertext@[i] == plaintext@[i]
                ^ aes128_gcm_keystream(key@, nonce@, i as nat)
            &&& tag@.len() == 8
            &&& 0 <= i < 8 ==> tag@[i] == aes128_gcm_tag(key@, nonce@, aad@, ciphertext@)@[i]
        },
{
}

/// What was encrypted is decrypted, with the same key, nonce, tag and associated
/// data, to what it was.
pub proof fn frame_is_decrypted_to_plaintext(
    key: &[u8; KEY_LENGTH],
    truncated_nonce: u32,
    plaintext: &[u8],
    aad: &[u8],
    ciphertext: Vec<u8>,
    tag: [u8; TRUNCATED_TAG_LENGTH],
    sent: &[u8],
    r: Result<Vec<u8>, SigilError>,
)
    requires
        call_ensures(
            encrypt_frame,
            (key, truncated_nonce, plaintext, aad),
            Ok::<(Vec<u8>, [u8; TRUNCATED_TAG_LENGTH]), SigilError>((ciphertext, tag)),
        ),
        sent@ == ciphertext@,
        call_ensures(decrypt_frame, (key, truncated_nonce, sent, &tag, aad), r),
    ensures
        r matches Ok(found) && found@ == plaintext@,
{
    encrypt_then_decrypt_frame(key@, truncated_nonce, plaintext@, aad@);
}

/// A frame is decrypted only if its tag agrees in all eight bytes with what
/// AES-GCM gives for key, nonce, associated data and ciphertext.
pub proof fn wrong_tags_are_refused(
    key: &[u8; KEY_LENGTH],
    truncated_nonce: u32,
    nonce: [u8; NONCE_LENGTH],
    ciphertext: &[u8],
    tag: &[u8; TRUNCATED_TAG_LENGTH],
    aad: &[u8],
    r: Result<Vec<u8>, SigilError>,
    i: int,
)
    requires
        call_ensures(expand_nonce, (truncated_nonce,), nonce),
        call_ensures(decrypt_frame, (key, truncated_nonce, ciphertext, tag, aad), r),
        0 <= i < 8,
        tag@[i] != aes128_gcm_tag(key@, nonce@, aad@, ciphertext@)@[i],
    ensures
        r == Err::<Vec<u8>, SigilError>(SigilError::DecryptionFailed),
{
    let full = aes128_gcm_tag(key@, nonce@, aad@, ciphertext@)@;
    assert(full.take(8)[i] == full[i]);
}

} // verus!
