//! Codec-aware DAVE frame encryptor.
//!
//! The encryptor splits a raw media frame into encrypted and unencrypted
//! ranges based on codec rules, encrypts the encrypted portions via
//! AES-128-GCM, interleaves them back, and appends the DAVE footer.

use vstd::prelude::*;
use crate::crypto::codec::{clear_ranges, unparsable, Codec, UnencryptedRange};
use crate::crypto::frame_crypto::{
    self, aes128_gcm_keystream, aes128_gcm_tag, frame_cipher, frame_tag, gcm_accepts,
};
use crate::crypto::uleb128::{self, lemma_bytes_len, pow128};
use crate::error::SigilError;
use crate::frame::parts::{
    clear_part, covered, filled, hidden_count, hidden_part, in_range, interleave, split_frame,
};
use crate::frame::payload::{self, footer_bytes, range_bytes};
use crate::types::{KEY_LENGTH, MAGIC_MARKER, NONCE_LENGTH};

verus! {

/// The DAVE frame of `raw`; `None` if `raw` cannot be parsed under `codec` or
/// is longer than AES-GCM takes.
pub open spec fn sealed_frame(codec: Codec, key: Seq<u8>, nonce: u32, raw: Seq<u8>) -> Option<
    Seq<u8>,
> {
    match clear_ranges(codec, raw) {
        None => None,
        Some(ranges) => {
            let aad = clear_part(raw, ranges);
            let plaintext = hidden_part(raw, ranges);
            let ciphertext = frame_cipher(key, nonce, plaintext);
            if gcm_accepts(plaintext.len(), aad.len()) {
                Some(
                    filled(raw, ranges, ciphertext) + footer_bytes(
                        frame_tag(key, nonce, aad, ciphertext),
                        nonce,
                        ranges,
                    ),
                )
            } else {
                None
            }
        },
    }
}

/// `r` is what encrypting `raw` yields.
pub open spec fn frame_sealed(
    codec: Codec,
    key: Seq<u8>,
    nonce: u32,
    raw: Seq<u8>,
    r: Result<Vec<u8>, SigilError>,
) -> bool {
    match sealed_frame(codec, key, nonce, raw) {
        Some(sealed) => r matches Ok(frame) && frame@ == sealed,
        None => if clear_ranges(codec, raw) is Some {
            r == Err::<Vec<u8>, SigilError>(SigilError::DecryptionFailed)
        } else {
            r matches Err(e) && unparsable(codec, e)
        },
    }
}

/// Every encrypted frame ends with the magic marker.
pub proof fn sealed_frame_is_marked(codec: Codec, key: Seq<u8>, nonce: u32, raw: Seq<u8>)
    requires
        sealed_frame(codec, key, nonce, raw) is Some,
    ensures
        ({
            let sealed = sealed_frame(codec, key, nonce, raw)->0;
            &&& sealed.len() >= raw.len() + 2
            &&& sealed.skip(sealed.len() - 2) == MAGIC_MARKER@
        }),
{
    let sealed = sealed_frame(codec, key, nonce, raw)->0;
    assert(sealed.skip(sealed.len() - 2) =~= MAGIC_MARKER@);
}

/// The bytes that the codec needs in the clear stand unchanged, where they were,
/// in the encrypted frame.
pub proof fn clear_bytes_stay(codec: Codec, key: Seq<u8>, nonce: u32, raw: Seq<u8>, i: int)
    requires
        sealed_frame(codec, key, nonce, raw) is Some,
        0 <= i < raw.len(),
        covered(clear_ranges(codec, raw)->0, i),
    ensures
        sealed_frame(codec, key, nonce, raw)->0[i] == raw[i],
{
}

/// Codec-aware DAVE frame encryptor.
///
/// Knows which codec the outgoing stream uses in order to determine
/// which byte ranges must be left unencrypted.
pub struct FrameEncryptor {
    /// The codec of the outgoing media stream.
    pub codec: Codec,
}

impl FrameEncryptor {
    /// Create a new encryptor for the given codec.
    pub fn new(codec: Codec) -> (encryptor: Self)
        ensures
            encryptor.codec == codec,
    {
        Self { codec }
    }

    /// Encrypt a raw media frame into a DAVE protocol frame.
    ///
    /// # Pipeline
    ///
    /// 1. Determine unencrypted ranges for this codec/frame
    /// 2. Split frame into unencrypted (AAD) and encrypted (plaintext) parts
    /// 3. Encrypt the plaintext with AES-128-GCM
    /// 4. Interleave unencrypted + ciphertext back into original positions
    /// 5. Append DAVE footer (tag, nonce, ranges, suppl_size, magic)
    ///
    /// # Arguments
    ///
    /// * `key` — 16-byte AES-128 key for this sender+generation
    /// * `nonce` — 32-bit truncated nonce (auto-incremented by caller)
    /// * `raw_frame` — the original encoded media frame
    ///
    /// # Errors
    ///
    /// Returns [`SigilError`] if codec range detection or encryption fails.
    pub fn encrypt(&self, key: &[u8; KEY_LENGTH], nonce: u32, raw_frame: &[u8]) -> (r: Result<
        Vec<u8>,
        SigilError,
    >)
        ensures
            frame_sealed(self.codec, key@, nonce, raw_frame@, r),
    {
        let ranges = match self.codec.unencrypted_ranges(raw_frame) {
            Ok(ranges) => ranges,
            Err(e) => return Err(e),
        };
        let (plaintext, aad) = split_frame(raw_frame, ranges.as_slice());
        let (ciphertext, truncated_tag) = match frame_crypto::encrypt_frame(
            key,
            nonce,
            plaintext.as_slice(),
            aad.as_slice(),
        ) {
            Ok(sealed) => sealed,
            Err(e) => return Err(e),
        };
        let mut dave_frame = interleave(raw_frame, ranges.as_slice(), ciphertext.as_slice());
        let footer = payload::build_footer(&truncated_tag, nonce, ranges.as_slice());
        dave_frame.extend_from_slice(footer.as_slice());
        assert(dave_frame@ =~= sealed_frame(self.codec, key@, nonce, raw_frame@)->0);
        Ok(dave_frame)
    }
}

/// An Opus frame is encrypted whole, byte by byte under the keystream of its
/// nonce; behind it stand the first eight bytes of the tag, the encoded nonce,
/// the number of bytes behind the frame, and two bytes 0xFA.
pub proof fn opus_frame_layout(
    encryptor: &FrameEncryptor,
    key: &[u8; KEY_LENGTH],
    nonce: u32,
    raw: &[u8],
    sealed: Vec<u8>,
    expanded: [u8; NONCE_LENGTH],
    nonce_bytes: Vec<u8>,
    i: int,
)
    requires
        encryptor.codec == Codec::Opus || encryptor.codec == Codec::Vp9,
        call_ensures(
            FrameEncryptor::encrypt,
            (encryptor, key, nonce, raw),
            Ok::<Vec<u8>, SigilError>(sealed),
        ),
        call_ensures(frame_crypto::expand_nonce, (nonce,), expanded),
        call_ensures(uleb128::encode, (nonce as u64,), nonce_bytes),
    ensures
        sealed@.len() == raw@.len() + 8 + nonce_bytes@.len() + 3,
        0 <= i < raw@.len() ==> sealed@[i] == raw@[i] ^ aes128_gcm_keystream(
            key@,
            expanded@,
            i as nat,
        ),
        0 <= i < 8 ==> sealed@[raw@.len() + i] == aes128_gcm_tag(
            key@,
            expanded@,
            Seq::empty(),
            sealed@.take(raw@.len() as int),
        )@[i],
        0 <= i < nonce_bytes@.len() ==> sealed@[raw@.len() + 8 + i] == nonce_bytes@[i],
        sealed@[sealed@.len() - 3] == 11 + nonce_bytes@.len(),
        sealed@[sealed@.len() - 2] == 250,
        sealed@[sealed@.len() - 1] == 250,
{
    let none = Seq::<UnencryptedRange>::empty();
    lemma_nothing_clear(raw@);
    let cipher = frame_cipher(key@, nonce, raw@);
    assert(filled(raw@, none, cipher) =~= cipher) by {
        assert forall|j: int| 0 <= j < raw@.len() implies filled(raw@, none, cipher)[j]
            == cipher[j] by {
            lemma_nothing_counted(j as nat);
        }
    }
    assert(clear_ranges(encryptor.codec, raw@) == Some(none));
    let tag = frame_tag(key@, nonce, Seq::empty(), cipher);
    assert(range_bytes(none) =~= Seq::empty());
    assert(sealed@ == cipher + footer_bytes(tag, nonce, none));
    assert(sealed@.take(raw@.len() as int) =~= cipher);
    assert(nonce < pow128(5)) by {
        reveal_with_fuel(pow128, 6);
    }
    lemma_bytes_len(nonce as nat, 5);
    let full = aes128_gcm_tag(key@, expanded@, Seq::empty(), cipher)@;
    assert(0 <= i < 8 ==> tag[i] == full[i]);
}

proof fn lemma_nothing_clear(raw: Seq<u8>)
    ensures
        hidden_part(raw, Seq::<UnencryptedRange>::empty()) == raw,
        clear_part(raw, Seq::<UnencryptedRange>::empty()) == Seq::<u8>::empty(),
    decreases raw.len(),
{
    if raw.len() > 0 {
        lemma_nothing_clear(raw.drop_last());
        assert(raw.drop_last().push(raw.last()) =~= raw);
    } else {
        assert(raw =~= Seq::empty());
    }
}

proof fn lemma_nothing_counted(n: nat)
    ensures
        hidden_count(Seq::<UnencryptedRange>::empty(), n) == n,
    decreases n,
{
    if n > 0 {
        lemma_nothing_counted((n - 1) as nat);
    }
}

/// Under every codec an encrypted frame begins with as many bytes as the frame
/// had, those in the clear ranges among them unchanged, and ends with the footer
/// that says so.
pub proof fn sealed_frame_layout(
    encryptor: &FrameEncryptor,
    key: &[u8; KEY_LENGTH],
    nonce: u32,
    raw: &[u8],
    ranges: Vec<UnencryptedRange>,
    sealed: Vec<u8>,
    i: int,
    k: int,
)
    requires
        call_ensures(
            FrameEncryptor::encrypt,
            (encryptor, key, nonce, raw),
            Ok::<Vec<u8>, SigilError>(sealed),
        ),
        call_ensures(
            Codec::unencrypted_ranges,
            (&encryptor.codec, raw),
            Ok::<Vec<UnencryptedRange>, SigilError>(ranges),
        ),
    ensures
        sealed@.len() >= raw@.len() + 12,
        sealed@[sealed@.len() - 2] == 250,
        sealed@[sealed@.len() - 1] == 250,
        sealed@[sealed@.len() - 3] == (sealed@.len() - raw@.len()) % 256,
        0 <= i < raw@.len() && 0 <= k < ranges@.len() && ranges@[k].offset <= i
            < ranges@[k].offset + ranges@[k].length ==> sealed@[i] == raw@[i],
{
    assert(nonce < pow128(5)) by {
        reveal_with_fuel(pow128, 6);
    }
    lemma_bytes_len(nonce as nat, 5);
    if 0 <= i < raw@.len() && 0 <= k < ranges@.len() && ranges@[k].offset <= i
        < ranges@[k].offset + ranges@[k].length {
        assert(in_range(ranges@[k], i));
        assert(covered(ranges@, i));
    }
}

/// An encryptor keeps the codec it was made for.
pub proof fn encryptor_keeps_codec(codec: Codec, encryptor: FrameEncryptor)
    requires
        call_ensures(FrameEncryptor::new, (codec,), encryptor),
    ensures
        encryptor.codec == codec,
{
}

} // verus!
