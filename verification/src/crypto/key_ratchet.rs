//! HKDF-based per-sender key ratchet with generation cache.
//!
//! Each sender in a DAVE session has a key ratchet initialized with a
//! base secret exported from the MLS group. The ratchet derives a unique
//! AES-128 key for each generation using HKDF.

use std::collections::HashMap;
use hkdf::Hkdf;
use sha2::Sha256;
use vstd::prelude::*;
use vstd::string::*;
use vstd::utf8::encode_utf8;
use crate::error::SigilError;
use crate::text::{decimal, numbered_text};
use crate::types::KEY_LENGTH;

verus! {

broadcast use vstd::std_specs::hash::group_hash_axioms;

/// The error of an HKDF output that is too long. It carries nothing.
#[verifier::external_type_specification]
#[verifier::external_body]
pub struct ExInvalidLength(hkdf::InvalidLength);

/// The 16 bytes that `Hkdf::<Sha256>::expand` gives for the input key material
/// `ikm`, without salt, and for `info`.
pub uninterp spec fn hkdf_sha256(ikm: Seq<u8>, info: Seq<u8>) -> [u8; 16];

/// Calls `Hkdf::<Sha256>::new` without salt and `Hkdf::expand` on a 16-byte
/// output. Claimed of it: an output this short never fails, and it depends on
/// the key material and the info alone.
#[verifier::external_body]
fn hkdf_expand(
    ikm: &[u8; KEY_LENGTH],
    info: &[u8],
) -> (r: Result<[u8; KEY_LENGTH], hkdf::InvalidLength>)
    ensures
        r is Ok,
        r->Ok_0 == hkdf_sha256(ikm@, info@),
{
    let mut okm = [0u8; KEY_LENGTH];
    Hkdf::<Sha256>::new(None, ikm).expand(info, &mut okm)?;
    Ok(okm)
}

/// The HKDF info of a generation: the text `sigil-ratchet-` and the generation
/// in decimal.
pub open spec fn generation_info(generation: nat) -> Seq<u8> {
    encode_utf8("sigil-ratchet-"@ + decimal(generation))
}

/// The key of a generation: the base secret itself, then each key derived from
/// the one before.
pub open spec fn generation_key(base: [u8; KEY_LENGTH], generation: nat) -> [u8; KEY_LENGTH]
    decreases generation,
{
    if generation == 0 {
        base
    } else {
        hkdf_sha256(
            generation_key(base, (generation - 1) as nat)@,
            generation_info(generation),
        )
    }
}

/// What a ratchet is, apart from how it stores its keys.
pub struct RatchetState {
    pub base: [u8; KEY_LENGTH],
    /// The highest generation that has been derived.
    pub current: u32,
    /// The keys of all generations below this are gone.
    pub erased_below: nat,
}

impl RatchetState {
    /// The key of `generation` is held or can be derived.
    pub open spec fn available(self, generation: u32) -> bool {
        self.erased_below <= generation && self.erased_below <= self.current
    }

    /// The state after asking for `generation`.
    pub open spec fn after_get(self, generation: u32) -> RatchetState {
        if self.available(generation) && self.current < generation {
            RatchetState { current: generation, ..self }
        } else {
            self
        }
    }

    /// The state after erasing all generations below `min_generation`.
    pub open spec fn after_erase(self, min_generation: u32) -> RatchetState {
        let goal: nat = if min_generation <= self.current {
            min_generation as nat
        } else {
            self.current as nat + 1
        };
        RatchetState {
            erased_below: if self.erased_below < goal {
                goal
            } else {
                self.erased_below
            },
            ..self
        }
    }
}

/// Once erased, a generation can no longer be retrieved.
pub proof fn erased_is_unavailable(state: RatchetState, min_generation: u32, generation: u32)
    requires
        generation < min_generation,
    ensures
        !state.after_erase(min_generation).available(generation),
{
}

/// No later request and no later erasure makes an unavailable generation
/// available again.
pub proof fn unavailable_stays_unavailable(state: RatchetState, generation: u32, other: u32)
    requires
        !state.available(generation),
    ensures
        !state.after_get(other).available(generation),
        !state.after_erase(other).available(generation),
{
}

/// Asking for a generation does not take any other away.
pub proof fn get_keeps_available(state: RatchetState, generation: u32, other: u32)
    requires
        state.available(generation),
    ensures
        state.after_get(other).available(generation),
{
}

/// Per-sender key ratchet for DAVE frame encryption.
///
/// Generation 0 uses the base secret directly. Each further generation is
/// derived from the previous key with the info `sigil-ratchet-{generation}`.
///
/// Old generations can be erased once they are no longer needed, and
/// attempting to retrieve an erased generation returns an error.
pub struct KeyRatchet {
    /// The original base secret (generation 0 key).
    base_secret: [u8; KEY_LENGTH],
    /// The highest generation that has been derived so far.
    current_generation: u32,
    /// All generations below this have been erased.
    erased_below: u64,
    /// Cached keys by generation number.
    cache: HashMap<u32, [u8; KEY_LENGTH]>,
}

impl View for KeyRatchet {
    type V = RatchetState;

    closed spec fn view(&self) -> RatchetState {
        RatchetState {
            base: self.base_secret,
            current: self.current_generation,
            erased_below: self.erased_below as nat,
        }
    }
}

impl KeyRatchet {
    /// The cache holds the key of each generation from the first that is not
    /// erased up to the current one, and nothing else.
    pub closed spec fn wf(&self) -> bool {
        &&& self.erased_below <= self.current_generation + 1
        &&& forall|g: u32| #[trigger]
            self.cache@.contains_key(g) <==> self.erased_below <= g <= self.current_generation
        &&& forall|g: u32| #[trigger]
            self.cache@.contains_key(g) ==> self.cache@[g] == generation_key(
                self.base_secret,
                g as nat,
            )
    }

    /// Create a new key ratchet with the given base secret.
    ///
    /// Generation 0 is immediately available and equals the base secret.
    pub fn new(base_secret: [u8; KEY_LENGTH]) -> (ratchet: Self)
        ensures
            ratchet.wf(),
            ratchet@ == (RatchetState { base: base_secret, current: 0, erased_below: 0 }),
    {
        let mut cache: HashMap<u32, [u8; KEY_LENGTH]> = HashMap::new();
        cache.insert(0, base_secret);
        Self { base_secret, current_generation: 0, erased_below: 0, cache }
    }

    /// Retrieve the key for a given generation, ratcheting forward as needed.
    ///
    /// # Errors
    ///
    /// Returns [`SigilError::GenerationErased`] if the requested generation,
    /// or the one that it would be derived from, has been erased via
    /// [`erase_before`](Self::erase_before).
    pub fn get(&mut self, generation: u32) -> (r: Result<[u8; KEY_LENGTH], SigilError>)
        requires
            old(self).wf(),
        ensures
            final(self).wf(),
            final(self)@ == old(self)@.after_get(generation),
            if old(self)@.available(generation) {
                r == Ok::<[u8; KEY_LENGTH], SigilError>(
                    generation_key(old(self)@.base, generation as nat),
                )
            } else {
                r == Err::<[u8; KEY_LENGTH], SigilError>(
                    SigilError::GenerationErased {
                        generation: if generation < old(self)@.current {
                            generation
                        } else {
                            old(self)@.current
                        },
                        current: old(self)@.current,
                    },
                )
            },
    {
        let found: Option<[u8; KEY_LENGTH]> = match self.cache.get(&generation) {
            Some(key) => Some(*key),
            None => None,
        };
        if let Some(key) = found {
            return Ok(key);
        }
        if generation < self.current_generation {
            return Err(
                SigilError::GenerationErased { generation, current: self.current_generation },
            );
        }
        let mut key: [u8; KEY_LENGTH] = match self.cache.get(&self.current_generation) {
            Some(key) => *key,
            None => return Err(
                SigilError::GenerationErased {
                    generation: self.current_generation,
                    current: self.current_generation,
                },
            ),
        };
        while self.current_generation < generation
            invariant
                self.wf(),
                self.current_generation <= generation,
                self.erased_below <= self.current_generation,
                self.base_secret == old(self).base_secret,
                self.erased_below == old(self).erased_below,
                key == generation_key(self.base_secret, self.current_generation as nat),
            decreases generation - self.current_generation,
        {
            let next: u32 = self.current_generation + 1;
            key = match Self::derive_next(&key, next) {
                Ok(key) => key,
                Err(e) => return Err(e),
            };
            self.cache.insert(next, key);
            self.current_generation = next;
        }
        Ok(key)
    }

    /// Erase all cached keys for generations strictly less than `min_generation`.
    ///
    /// Once erased, those generations can no longer be retrieved.
    pub fn erase_before(&mut self, min_generation: u32)
        requires
            old(self).wf(),
        ensures
            final(self).wf(),
            final(self)@ == old(self)@.after_erase(min_generation),
    {
        while self.erased_below < min_generation as u64 && self.erased_below
            <= self.current_generation as u64
            invariant
                self.wf(),
                self.base_secret == old(self).base_secret,
                self.current_generation == old(self).current_generation,
                self.erased_below >= old(self).erased_below,
                self.erased_below <= old(self)@.after_erase(min_generation).erased_below,
            decreases self.current_generation + 1 - self.erased_below,
        {
            self.cache.remove(&(self.erased_below as u32));
            self.erased_below = self.erased_below + 1;
        }
    }

    /// Returns the highest generation that has been derived.
    pub fn current_generation(&self) -> (generation: u32)
        ensures
            generation == self@.current,
    {
        self.current_generation
    }

    /// Returns a reference to the original base secret (generation 0 key).
    pub fn base_secret(&self) -> (secret: &[u8; KEY_LENGTH])
        ensures
            *secret == self@.base,
    {
        &self.base_secret
    }

    /// Reset the ratchet back to generation 0, clearing all cached keys
    /// and restoring the base secret as the only cached key.
    pub fn reset(&mut self)
        ensures
            final(self).wf(),
            final(self)@ == (RatchetState { base: old(self)@.base, current: 0, erased_below: 0 }),
    {
        self.cache.clear();
        self.cache.insert(0, self.base_secret);
        self.current_generation = 0;
        self.erased_below = 0;
    }

    /// Derive the next generation key via HKDF.
    ///
    /// Uses the previous key as the IKM and `"sigil-ratchet-{gen}"` as the info.
    fn derive_next(prev_key: &[u8; KEY_LENGTH], generation: u32) -> (r: Result<
        [u8; KEY_LENGTH],
        SigilError,
    >)
        ensures
            r == Ok::<[u8; KEY_LENGTH], SigilError>(
                hkdf_sha256(prev_key@, generation_info(generation as nat)),
            ),
    {
        let info: String = numbered_text("sigil-ratchet-", generation as u64);
        match hkdf_expand(prev_key, info.as_str().as_bytes()) {
            Ok(okm) => Ok(okm),
            Err(_) => Err(SigilError::Mls("HKDF-Expand error".to_owned())),
        }
    }
}

/// A fresh ratchet hands out the base secret as the key of generation 0.
pub proof fn generation_zero_is_the_base_secret(
    base_secret: [u8; KEY_LENGTH],
    fresh: KeyRatchet,
    ratchet: &mut KeyRatchet,
    r: Result<[u8; KEY_LENGTH], SigilError>,
)
    requires
        call_ensures(KeyRatchet::new, (base_secret,), fresh),
        *old(ratchet) == fresh,
        call_ensures(KeyRatchet::get, (ratchet, 0), r),
    ensures
        r == Ok::<[u8; KEY_LENGTH], SigilError>(base_secret),
        final(ratchet)@ == fresh@,
        fresh@.current == 0,
{
}

/// The key of each generation is derived by HKDF from the key of the one before,
/// with the text `sigil-ratchet-` and the number of the generation in decimal as
/// info.
pub proof fn keys_are_chained(
    first: &mut KeyRatchet,
    second: &mut KeyRatchet,
    generation: u32,
    key: [u8; KEY_LENGTH],
    next: [u8; KEY_LENGTH],
)
    requires
        generation < u32::MAX,
        call_ensures(
            KeyRatchet::get,
            (first, generation),
            Ok::<[u8; KEY_LENGTH], SigilError>(key),
        ),
        *old(second) == *final(first),
        call_ensures(
            KeyRatchet::get,
            (second, (generation + 1) as u32),
            Ok::<[u8; KEY_LENGTH], SigilError>(next),
        ),
    ensures
        next == hkdf_sha256(
            key@,
            encode_utf8("sigil-ratchet-"@ + decimal((generation + 1) as nat)),
        ),
{
}

/// As long as nothing was erased, every generation can be had, in any order, and
/// each comes out the same however often it is asked for.
pub proof fn generations_can_be_had_in_any_order(
    first: &mut KeyRatchet,
    second: &mut KeyRatchet,
    third: &mut KeyRatchet,
    a: u32,
    b: u32,
    r_first: Result<[u8; KEY_LENGTH], SigilError>,
    r_second: Result<[u8; KEY_LENGTH], SigilError>,
    r_third: Result<[u8; KEY_LENGTH], SigilError>,
)
    requires
        old(first)@.erased_below == 0,
        call_ensures(KeyRatchet::get, (first, a), r_first),
        *old(second) == *final(first),
        call_ensures(KeyRatchet::get, (second, b), r_second),
        *old(third) == *final(second),
        call_ensures(KeyRatchet::get, (third, a), r_third),
    ensures
        r_first is Ok,
        r_second is Ok,
        r_third == r_first,
        final(third)@.current >= a,
        final(third)@.current >= b,
        final(third)@.current == a || final(third)@.current == b || final(third)@.current == old(
            first,
        )@.current,
{
}

/// Behind an erasure no generation below it can be had. One at or above it that
/// was derived, and one beyond the highest, can still be had if they could before
/// and the highest is not erased.
pub proof fn erased_generations_are_gone(
    erased: &mut KeyRatchet,
    min_generation: u32,
    asked: &mut KeyRatchet,
    generation: u32,
    r: Result<[u8; KEY_LENGTH], SigilError>,
)
    requires
        call_ensures(KeyRatchet::erase_before, (erased, min_generation), ()),
        *old(asked) == *final(erased),
        call_ensures(KeyRatchet::get, (asked, generation), r),
    ensures
        generation < min_generation ==> r is Err,
        generation < min_generation && generation < old(erased)@.current ==> r == Err::<
            [u8; KEY_LENGTH],
            SigilError,
        >(SigilError::GenerationErased { generation, current: old(erased)@.current }),
        generation >= min_generation && min_generation <= old(erased)@.current && old(
            erased,
        )@.available(generation) ==> r is Ok,
        final(erased)@.current == old(erased)@.current,
        final(erased)@.base == old(erased)@.base,
{
}

/// A ratchet that was reset is as a fresh one with its base secret.
pub proof fn reset_starts_over(ratchet: &mut KeyRatchet, base: [u8; KEY_LENGTH], fresh: KeyRatchet)
    requires
        old(ratchet)@.base == base,
        call_ensures(KeyRatchet::reset, (ratchet,), ()),
        call_ensures(KeyRatchet::new, (base,), fresh),
    ensures
        final(ratchet)@ == fresh@,
{
}

/// Where everything that was derived is erased, nothing beyond it can be had
/// either: the highest generation, which the next would be derived from, is gone.
pub proof fn nothing_is_derived_from_erased_keys(
    erased: &mut KeyRatchet,
    min_generation: u32,
    asked: &mut KeyRatchet,
    generation: u32,
    r: Result<[u8; KEY_LENGTH], SigilError>,
)
    requires
        call_ensures(KeyRatchet::erase_before, (erased, min_generation), ()),
        min_generation > old(erased)@.current,
        *old(asked) == *final(erased),
        call_ensures(KeyRatchet::get, (asked, generation), r),
        generation >= old(erased)@.current,
    ensures
        r == Err::<[u8; KEY_LENGTH], SigilError>(
            SigilError::GenerationErased {
                generation: old(erased)@.current,
                current: old(erased)@.current,
            },
        ),
        final(asked)@ == old(asked)@,
{
}

/// A fresh ratchet that was asked for a generation has derived up to it, and
/// still has the base secret it was made with.
pub proof fn highest_generation_is_told(
    base: [u8; KEY_LENGTH],
    fresh: KeyRatchet,
    ratchet: &mut KeyRatchet,
    generation: u32,
    r: Result<[u8; KEY_LENGTH], SigilError>,
    highest: u32,
    secret: &[u8; KEY_LENGTH],
)
    requires
        call_ensures(KeyRatchet::new, (base,), fresh),
        *old(ratchet) == fresh,
        call_ensures(KeyRatchet::get, (ratchet, generation), r),
        call_ensures(KeyRatchet::current_generation, (&*final(ratchet),), highest),
        call_ensures(KeyRatchet::base_secret, (&*final(ratchet),), secret),
    ensures
        r is Ok,
        highest == generation,
        *secret == base,
{
}

} // verus!
