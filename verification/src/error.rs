//! Unified error type for all Sigil operations.

use vstd::prelude::*;
use vstd::string::*;
use crate::text::{counted_text, decimal, numbered_text};
use crate::types::{Epoch, TransitionId, UserId};

verus! {

/// Everything that can go wrong in the protocol library.
#[allow(inconsistent_fields)]
#[derive(Debug)]
pub enum SigilError {
    /// An MLS operation failed.
    Mls(String),
    /// There is no MLS group.
    GroupNotEstablished,
    /// The external sender is invalid.
    InvalidExternalSender,
    /// A user has two credentials in the group.
    DuplicateCredential(UserId),
    /// The key of a generation has been erased.
    GenerationErased { generation: u32, current: u32 },
    /// The key ratchet has no further generation.
    RatchetExhausted(u32),
    /// The authentication tag is invalid.
    DecryptionFailed,
    /// A nonce has been used before.
    NonceReuse(u32),
    /// The 0xFAFA marker is missing.
    InvalidMagic,
    /// A frame is too short.
    FrameTooShort { need: usize, got: usize },
    /// The opcode is none of DAVE's.
    UnknownOpcode(u8),
    /// A message belongs to another epoch.
    EpochMismatch { expected: Epoch, got: Epoch },
    /// There is no key for a sender.
    NoSenderKey(UserId, Epoch),
    /// A transition took too long.
    TransitionTimeout(TransitionId),
    /// The gateway is in an unexpected state.
    InvalidState(String),
    /// A ULEB128 number cannot be decoded.
    Uleb128Overflow,
    /// A frame cannot be parsed under its codec.
    UnsupportedCodec(String),
}

impl SigilError {
    /// What the error says.
    pub open spec fn text(self) -> Seq<char> {
        match self {
            SigilError::Mls(text) => "MLS operation failed: "@ + text@,
            SigilError::GroupNotEstablished => "MLS group not established"@,
            SigilError::InvalidExternalSender => "Invalid external sender"@,
            SigilError::DuplicateCredential(user) => "Duplicate credential in group for user "@
                + decimal(user as nat),
            SigilError::GenerationErased { generation, current } => "Generation "@ + decimal(
                generation as nat,
            ) + " already erased (current: "@ + decimal(current as nat) + ")"@,
            SigilError::RatchetExhausted(generation) => "Key ratchet exhausted at generation "@
                + decimal(generation as nat),
            SigilError::DecryptionFailed => "Decryption failed: invalid authentication tag"@,
            SigilError::NonceReuse(nonce) => "Nonce reuse detected: nonce "@ + decimal(
                nonce as nat,
            ) + " already consumed"@,
            SigilError::InvalidMagic => "Invalid frame: missing 0xFAFA magic marker"@,
            SigilError::FrameTooShort { need, got } => "Frame too short: need "@ + decimal(
                need as nat,
            ) + " bytes, got "@ + decimal(got as nat),
            SigilError::UnknownOpcode(opcode) => "Unknown DAVE opcode: "@ + decimal(
                opcode as nat,
            ),
            SigilError::EpochMismatch { expected, got } => "Epoch mismatch: expected "@ + decimal(
                expected as nat,
            ) + ", got "@ + decimal(got as nat),
            SigilError::NoSenderKey(user, epoch) => "No sender key for user "@ + decimal(
                user as nat,
            ) + " in epoch "@ + decimal(epoch as nat),
            SigilError::TransitionTimeout(transition) => "Transition "@ + decimal(
                transition as nat,
            ) + " timed out"@,
            SigilError::InvalidState(text) => "Unexpected gateway state: "@ + text@,
            SigilError::Uleb128Overflow => "ULEB128 decode overflow"@,
            SigilError::UnsupportedCodec(text) => "Unsupported codec: "@ + text@,
        }
    }

    /// What the error says.
    pub fn message(&self) -> (text: String)
        ensures
            text@ == self.text(),
    {
        match self {
            SigilError::Mls(text) => joined("MLS operation failed: ", text.as_str()),
            SigilError::GroupNotEstablished => "MLS group not established".to_owned(),
            SigilError::InvalidExternalSender => "Invalid external sender".to_owned(),
            SigilError::DuplicateCredential(user) => numbered_text(
                "Duplicate credential in group for user ",
                *user,
            ),
            SigilError::GenerationErased { generation, current } => {
                let start = counted_text(
                    "Generation ",
                    *generation as u64,
                    " already erased (current: ",
                );
                counted_text(start.as_str(), *current as u64, ")")
            },
            SigilError::RatchetExhausted(generation) => numbered_text(
                "Key ratchet exhausted at generation ",
                *generation as u64,
            ),
            SigilError::DecryptionFailed => {
                "Decryption failed: invalid authentication tag".to_owned()
            },
            SigilError::NonceReuse(nonce) => counted_text(
                "Nonce reuse detected: nonce ",
                *nonce as u64,
                " already consumed",
            ),
            SigilError::InvalidMagic => "Invalid frame: missing 0xFAFA magic marker".to_owned(),
            SigilError::FrameTooShort { need, got } => {
                let start = counted_text("Frame too short: need ", *need as u64, " bytes, got ");
                numbered_text(start.as_str(), *got as u64)
            },
            SigilError::UnknownOpcode(opcode) => numbered_text(
                "Unknown DAVE opcode: ",
                *opcode as u64,
            ),
            SigilError::EpochMismatch { expected, got } => {
                let start = counted_text("Epoch mismatch: expected ", *expected, ", got ");
                numbered_text(start.as_str(), *got)
            },
            SigilError::NoSenderKey(user, epoch) => {
                let start = counted_text("No sender key for user ", *user, " in epoch ");
                numbered_text(start.as_str(), *epoch)
            },
            SigilError::TransitionTimeout(transition) => counted_text(
                "Transition ",
                *transition,
                " timed out",
            ),
            SigilError::InvalidState(text) => joined(
                "Unexpected gateway state: ",
                text.as_str(),
            ),
            SigilError::Uleb128Overflow => "ULEB128 decode overflow".to_owned(),
            SigilError::UnsupportedCodec(text) => joined("Unsupported codec: ", text.as_str()),
        }
    }
}

/// One text behind another.
fn joined(first: &str, second: &str) -> (text: String)
    ensures
        text@ == first@ + second@,
{
    let mut text = first.to_owned();
    text.append(second);
    text
}

/// `e` is an MLS error whose text begins with `step`.
pub open spec fn mls_failure(e: SigilError, step: Seq<char>) -> bool {
    e matches SigilError::Mls(text) && step.is_prefix_of(text@)
}

/// The MLS error with the text `step` followed by `reason`.
pub fn mls_error(step: &str, reason: String) -> (e: SigilError)
    ensures
        e matches SigilError::Mls(text) && text@ == step@ + reason@,
        mls_failure(e, step@),
{
    let text = joined(step, reason.as_str());
    assert(step@.is_prefix_of(text@));
    SigilError::Mls(text)
}

/// What the errors with numbers or a reason in them say.
pub proof fn messages_name_what_happened(e: &SigilError, text: String)
    requires
        call_ensures(SigilError::message, (e,), text),
    ensures
        *e matches SigilError::Mls(reason) ==> text@ == "MLS operation failed: "@ + reason@,
        *e matches SigilError::DuplicateCredential(user) ==> text@
            == "Duplicate credential in group for user "@ + decimal(user as nat),
        *e matches SigilError::GenerationErased { generation, current } ==> text@ == "Generation "@
            + decimal(generation as nat) + " already erased (current: "@ + decimal(current as nat)
            + ")"@,
        *e matches SigilError::RatchetExhausted(generation) ==> text@
            == "Key ratchet exhausted at generation "@ + decimal(generation as nat),
        *e matches SigilError::NonceReuse(nonce) ==> text@ == "Nonce reuse detected: nonce "@
            + decimal(nonce as nat) + " already consumed"@,
        *e matches SigilError::FrameTooShort { need, got } ==> text@ == "Frame too short: need "@
            + decimal(need as nat) + " bytes, got "@ + decimal(got as nat),
        *e matches SigilError::UnknownOpcode(opcode) ==> text@ == "Unknown DAVE opcode: "@
            + decimal(opcode as nat),
        *e matches SigilError::EpochMismatch { expected, got } ==> text@
            == "Epoch mismatch: expected "@ + decimal(expected as nat) + ", got "@ + decimal(
            got as nat,
        ),
        *e matches SigilError::NoSenderKey(user, epoch) ==> text@ == "No sender key for user "@
            + decimal(user as nat) + " in epoch "@ + decimal(epoch as nat),
        *e matches SigilError::TransitionTimeout(transition) ==> text@ == "Transition "@ + decimal(
            transition as nat,
        ) + " timed out"@,
        *e matches SigilError::InvalidState(reason) ==> text@ == "Unexpected gateway state: "@
            + reason@,
        *e matches SigilError::UnsupportedCodec(reason) ==> text@ == "Unsupported codec: "@
            + reason@,
{
}

/// An MLS error says which step failed, and then why.
pub proof fn mls_errors_name_the_step(step: &str, reason: String, e: SigilError, text: String)
    requires
        call_ensures(mls_error, (step, reason), e),
        call_ensures(SigilError::message, (&e,), text),
    ensures
        e is Mls,
        text@ == "MLS operation failed: "@ + (step@ + reason@),
{
}

} // verus!
