//! Codec-unaware DAVE frame decryptor.
//!
//! The decryptor parses the DAVE footer to learn the nonce, tag, and
//! unencrypted ranges, then extracts ciphertext and AAD, decrypts,
//! and reassembles the original raw media frame.

use vstd::prelude::*;
use crate::crypto::codec::{clear_ranges, clear_ranges_are_ordered, Codec, UnencryptedRange};
use crate::crypto::frame_crypto::{
    self, aes128_gcm_tag, decrypted_frame, encrypt_then_decrypt_frame, frame_cipher, frame_tag,
};
use crate::crypto::uleb128::{lemma_bytes_len, pow128};
use crate::error::SigilError;
use crate::frame::encryptor::{sealed_frame, FrameEncryptor};
use crate::frame::parts::{
    clear_part, covered, filled, filled_with_own_bytes, hidden_part, in_range, interleave,
    lemma_part_lengths, parts_of_filled, split_frame,
};
use crate::frame::payload::{self, footer_round_trip, parsed_footer, range_bytes};
use crate::types::{KEY_LENGTH, NONCE_LENGTH, TRUNCATED_TAG_LENGTH};

verus! {

/// The first offset in `ranges` that lies beyond `len`.
pub open spec fn first_beyond(ranges: Seq<UnencryptedRange>, len: nat) -> Option<usize>
    decreases ranges.len(),
{
    if ranges.len() == 0 {
        None
    } else if ranges[0].offset > len {
        Some(ranges[0].offset)
    } else {
        first_beyond(ranges.skip(1), len)
    }
}

/// What decrypting a DAVE frame yields.
pub open spec fn opened_frame(key: Seq<u8>, dave_frame: Seq<u8>) -> Result<Seq<u8>, SigilError> {
    match parsed_footer(dave_frame) {
        Err(e) => Err(e),
        Ok(footer) => {
            let data = dave_frame.take(footer.data_end as int);
            match first_beyond(footer.ranges, data.len()) {
                Some(offset) => Err(
                    SigilError::FrameTooShort { need: offset, got: data.len() as usize },
                ),
                None => match decrypted_frame(
                    key,
                    footer.nonce,
                    hidden_part(data, footer.ranges),
                    footer.tag,
                    clear_part(data, footer.ranges),
                ) {
                    None => Err(SigilError::DecryptionFailed),
                    Some(plaintext) => Ok(filled(data, footer.ranges, plaintext)),
                },
            }
        },
    }
}

proof fn lemma_none_beyond(ranges: Seq<UnencryptedRange>, len: nat)
    requires
        forall|i: int| 0 <= i < ranges.len() ==> (#[trigger] ranges[i]).offset <= len,
    ensures
        first_beyond(ranges, len) is None,
    decreases ranges.len(),
{
    if ranges.len() > 0 {
        assert forall|i: int| 0 <= i < ranges.skip(1).len() implies (#[trigger] ranges.skip(
            1,
        )[i]).offset <= len by {
            assert(ranges.skip(1)[i] == ranges[i + 1]);
        }
        lemma_none_beyond(ranges.skip(1), len);
    }
}

/// A frame that was encrypted is decrypted under the same key to what it was,
/// as long as its footer is at most 255 bytes long.
pub proof fn encrypt_then_decrypt(codec: Codec, key: Seq<u8>, nonce: u32, raw: Seq<u8>)
    requires
        raw.len() <= usize::MAX,
        sealed_frame(codec, key, nonce, raw) is Some,
        sealed_frame(codec, key, nonce, raw)->0.len() - raw.len() <= 255,
    ensures
        opened_frame(key, sealed_frame(codec, key, nonce, raw)->0) == Ok::<Seq<u8>, SigilError>(
            raw,
        ),
{
    let ranges = clear_ranges(codec, raw)->0;
    let aad = clear_part(raw, ranges);
    let plaintext = hidden_part(raw, ranges);
    let ciphertext = frame_cipher(key, nonce, plaintext);
    let tag = frame_tag(key, nonce, aad, ciphertext);
    let data = filled(raw, ranges, ciphertext);
    let sealed = sealed_frame(codec, key, nonce, raw)->0;
    clear_ranges_are_ordered(codec, raw);
    lemma_none_beyond(ranges, raw.len());
    footer_round_trip(data, tag, nonce, ranges);
    assert(sealed.take(data.len() as int) =~= data);
    lemma_part_lengths(raw, ranges);
    parts_of_filled(raw, ranges, ciphertext);
    assert(ciphertext.take(ciphertext.len() as int) =~= ciphertext);
    encrypt_then_decrypt_frame(key, nonce, plaintext, aad);
    filled_with_own_bytes(raw, ranges, ciphertext);
}

/// Audio frames, and VP8 and VP9 frames, have at most one clear range at the
/// front, so their footer is always short enough.
pub proof fn encrypt_then_decrypt_short_footer(
    codec: Codec,
    key: Seq<u8>,
    nonce: u32,
    raw: Seq<u8>,
)
    requires
        codec == Codec::Opus || codec == Codec::Vp8 || codec == Codec::Vp9,
        raw.len() <= usize::MAX,
        sealed_frame(codec, key, nonce, raw) is Some,
    ensures
        opened_frame(key, sealed_frame(codec, key, nonce, raw)->0) == Ok::<Seq<u8>, SigilError>(
            raw,
        ),
{
    let ranges = clear_ranges(codec, raw)->0;
    assert(nonce < pow128(5)) by {
        reveal_with_fuel(pow128, 6);
    }
    lemma_bytes_len(nonce as nat, 5);
    assert(range_bytes(ranges).len() <= 2) by {
        reveal_with_fuel(range_bytes, 2);
        assert(pow128(1) == 128) by {
            reveal_with_fuel(pow128, 2);
        }
        if ranges.len() > 0 {
            lemma_bytes_len(ranges[0].offset as nat, 1);
            lemma_bytes_len(ranges[0].length as nat, 1);
            assert(ranges.skip(1) =~= Seq::empty());
        }
    }
    encrypt_then_decrypt(codec, key, nonce, raw);
}

/// Codec-unaware DAVE frame decryptor.
///
/// Does not need to know the codec — all information needed for decryption
/// is stored in the DAVE frame footer (unencrypted ranges, nonce, tag).
pub struct FrameDecryptor;

impl FrameDecryptor {
    /// Decrypt a DAVE protocol frame back into the original raw media frame.
    ///
    /// # Pipeline
    ///
    /// 1. Parse footer to extract tag, nonce, unencrypted ranges, data boundary
    /// 2. Split interleaved data into ciphertext and AAD using the ranges
    /// 3. Decrypt ciphertext with AES-128-GCM
    /// 4. Reassemble: place unencrypted bytes and plaintext back into original positions
    ///
    /// # Arguments
    ///
    /// * `key` — 16-byte AES-128 key for this sender+generation
    /// * `dave_frame` — the complete DAVE protocol frame (media data + footer)
    ///
    /// # Errors
    ///
    /// Returns [`SigilError`] if footer parsing or decryption fails, and
    /// [`SigilError::FrameTooShort`] if a range begins beyond the media data.
    pub fn decrypt(key: &[u8; KEY_LENGTH], dave_frame: &[u8]) -> (r: Result<Vec<u8>, SigilError>)
        ensures
            match opened_frame(key@, dave_frame@) {
                Ok(raw) => r matches Ok(found) && found@ == raw,
                Err(e) => r == Err::<Vec<u8>, SigilError>(e),
            },
    {
        let (tag, nonce, ranges, data_end) = match payload::parse_footer(dave_frame) {
            Ok(footer) => footer,
            Err(e) => return Err(e),
        };
        let data = &dave_frame[0..data_end];
        assert(data@ =~= dave_frame@.take(data_end as int));
        let mut i: usize = 0;
        assert(ranges@.skip(0) =~= ranges@);
        while i < ranges.len()
            invariant
                i <= ranges@.len(),
                data@.len() == data_end,
                first_beyond(ranges@, data_end as nat) == first_beyond(
                    ranges@.skip(i as int),
                    data_end as nat,
                ),
                data@ == dave_frame@.take(data_end as int),
                parsed_footer(dave_frame@) matches Ok(footer) && footer.ranges == ranges@
                    && footer.data_end == data_end,
            decreases ranges@.len() - i,
        {
            assert(ranges@.skip(i as int).skip(1) =~= ranges@.skip(i + 1));
            if ranges[i].offset > data_end {
                return Err(
                    SigilError::FrameTooShort { need: ranges[i].offset, got: data_end },
                );
            }
            i = i + 1;
        }
        let (ciphertext, aad) = split_frame(data, ranges.as_slice());
        let plaintext = match frame_crypto::decrypt_frame(
            key,
            nonce,
            ciphertext.as_slice(),
            &tag,
            aad.as_slice(),
        ) {
            Ok(plaintext) => plaintext,
            Err(e) => return Err(e),
        };
        Ok(interleave(data, ranges.as_slice(), plaintext.as_slice()))
    }
}

/// What an encryptor made of a frame, the decryptor turns back into the frame
/// under the same key, as long as no more than 255 bytes were added to it.
pub proof fn frames_survive_encryption(
    encryptor: &FrameEncryptor,
    key: &[u8; KEY_LENGTH],
    nonce: u32,
    raw: &[u8],
    sealed: Vec<u8>,
    sent: &[u8],
    r: Result<Vec<u8>, SigilError>,
)
    requires
        call_ensures(
            FrameEncryptor::encrypt,
            (encryptor, key, nonce, raw),
            Ok::<Vec<u8>, SigilError>(sealed),
        ),
        sealed@.len() - raw@.len() <= 255,
        sent@ == sealed@,
        call_ensures(FrameDecryptor::decrypt, (key, sent), r),
    ensures
        r matches Ok(found) && found@ == raw@,
{
    assert(raw@.len() == raw.len());
    encrypt_then_decrypt(encryptor.codec, key@, nonce, raw@);
}

/// A frame is decrypted only if its footer parses, no range begins behind its
/// data, and the tag in the footer agrees with the first eight bytes of the one
/// that AES-GCM gives for the clear and the hidden part of the data under the
/// expanded nonce. The result has the length of the data, and the data's bytes
/// where a range reaches.
pub proof fn only_authentic_frames_are_opened(
    key: &[u8; KEY_LENGTH],
    frame: &[u8],
    raw: Vec<u8>,
    footer: Result<([u8; TRUNCATED_TAG_LENGTH], u32, Vec<UnencryptedRange>, usize), SigilError>,
    data: &[u8],
    ranges: &[UnencryptedRange],
    parts: (Vec<u8>, Vec<u8>),
    expanded: [u8; NONCE_LENGTH],
    i: int,
    k: int,
)
    requires
        call_ensures(FrameDecryptor::decrypt, (key, frame), Ok::<Vec<u8>, SigilError>(raw)),
        call_ensures(payload::parse_footer, (frame,), footer),
        footer matches Ok((tag, nonce, found, data_end)) ==> data@ == frame@.take(data_end as int)
            && ranges@ == found@ && call_ensures(frame_crypto::expand_nonce, (nonce,), expanded),
        call_ensures(split_frame, (data, ranges), parts),
        0 <= i < 8,
    ensures
        footer is Ok,
        raw@.len() == data@.len(),
        footer matches Ok((tag, nonce, found, data_end)) ==> tag@[i] == aes128_gcm_tag(
            key@,
            expanded@,
            parts.1@,
            parts.0@,
        )@[i],
        0 <= k < ranges@.len() ==> ranges@[k].offset <= data@.len(),
        forall|j: int|
            0 <= j < data@.len() && 0 <= k < ranges@.len() && ranges@[k].offset <= j
                < ranges@[k].offset + ranges@[k].length ==> #[trigger] raw@[j] == data@[j],
{
    if let Ok((tag, nonce, found, data_end)) = footer {
        let full = aes128_gcm_tag(key@, expanded@, parts.1@, parts.0@)@;
        assert(full.take(8)[i] == full[i]);
        if 0 <= k < ranges@.len() {
            lemma_not_beyond(ranges@, data@.len(), k);
        }
        assert forall|j: int|
            0 <= j < data@.len() && 0 <= k < ranges@.len() && ranges@[k].offset <= j
                < ranges@[k].offset + ranges@[k].length implies #[trigger] raw@[j] == data@[j] by {
            assert(in_range(ranges@[k], j));
            assert(covered(ranges@, j));
        }
    }
}

proof fn lemma_not_beyond(ranges: Seq<UnencryptedRange>, len: nat, k: int)
    requires
        first_beyond(ranges, len) is None,
        0 <= k < ranges.len(),
    ensures
        ranges[k].offset <= len,
    decreases ranges.len(),
{
    if k > 0 {
        lemma_not_beyond(ranges.skip(1), len, k - 1);
    }
}

/// Where the footer parses but a range begins behind the data, the first that
/// does is told, with the length of the data.
pub proof fn ranges_behind_the_data_are_refused(
    key: &[u8; KEY_LENGTH],
    frame: &[u8],
    r: Result<Vec<u8>, SigilError>,
    tag: [u8; TRUNCATED_TAG_LENGTH],
    nonce: u32,
    ranges: Vec<UnencryptedRange>,
    data_end: usize,
    k: int,
)
    requires
        call_ensures(FrameDecryptor::decrypt, (key, frame), r),
        call_ensures(
            payload::parse_footer,
            (frame,),
            Ok::<([u8; TRUNCATED_TAG_LENGTH], u32, Vec<UnencryptedRange>, usize), SigilError>(
                (tag, nonce, ranges, data_end),
            ),
        ),
        0 <= k < ranges@.len(),
        ranges@[k].offset > data_end,
        forall|j: int| 0 <= j < k ==> (#[trigger] ranges@[j]).offset <= data_end,
    ensures
        r matches Err(SigilError::FrameTooShort { need, got }) && need == ranges@[k].offset && got
            == data_end,
{
    lemma_first_beyond(ranges@, data_end as nat, k);
}

proof fn lemma_first_beyond(ranges: Seq<UnencryptedRange>, len: nat, k: int)
    requires
        0 <= k < ranges.len(),
        ranges[k].offset > len,
        forall|j: int| 0 <= j < k ==> (#[trigger] ranges[j]).offset <= len,
    ensures
        first_beyond(ranges, len) == Some(ranges[k].offset),
    decreases k,
{
    if k > 0 {
        assert(ranges[0].offset <= len);
        let rest = ranges.skip(1);
        assert forall|j: int| 0 <= j < k - 1 implies (#[trigger] rest[j]).offset <= len by {
            assert(rest[j] == ranges[j + 1]);
        }
        lemma_first_beyond(rest, len, k - 1);
    }
}

/// A frame whose footer does not parse is refused for the same reason.
pub proof fn footer_errors_are_handed_on(
    key: &[u8; KEY_LENGTH],
    frame: &[u8],
    r: Result<Vec<u8>, SigilError>,
    e: SigilError,
)
    requires
        call_ensures(FrameDecryptor::decrypt, (key, frame), r),
        call_ensures(
            payload::parse_footer,
            (frame,),
            Err::<([u8; TRUNCATED_TAG_LENGTH], u32, Vec<UnencryptedRange>, usize), SigilError>(e),
        ),
    ensures
        r == Err::<Vec<u8>, SigilError>(e),
{
}

} // verus!
