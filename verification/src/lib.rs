//! Discord's DAVE end-to-end encryption protocol (MLS group, key ratchets,
//! frame transform, gateway messages) and the voice connection built on it.
//!
//! - [`session`] — high-level session facade (start here)
//! - [`mls`]     — MLS group lifecycle, credentials, key packages
//! - [`crypto`]  — key ratchet, AES-128-GCM frame encryption, ULEB128, codecs
//! - [`gateway`] — DAVE voice gateway opcodes 21–31 and session state machine
//! - [`frame`]   — codec-aware encryptor and codec-unaware decryptor
//! - [`voice`]   — voice gateway loop, transport, mixing, receiving, sources

pub mod crypto;
pub mod error;
pub mod frame;
pub mod gateway;
pub mod mls;
pub mod session;
pub mod text;
pub mod types;
pub mod voice;

pub use error::SigilError;
pub use session::SigilSession;
pub use types::{
    Epoch, TransitionId, UserId, DAVE_PROTOCOL_VERSION, FULL_TAG_LENGTH, KEY_LENGTH,
    KEY_RETENTION_SECS, MAGIC_MARKER, MAX_GENERATION_FRAMES, NONCE_LENGTH, SENDER_KEY_LABEL,
    TRUNCATED_NONCE_LENGTH, TRUNCATED_TAG_LENGTH,
};
