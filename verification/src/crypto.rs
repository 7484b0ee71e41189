//! Frame cryptography: codec-aware ranges, ULEB128, key ratchets and
//! AES-GCM transforms.

pub mod codec;
pub mod frame_crypto;
pub mod key_ratchet;
pub mod uleb128;

pub use frame_crypto::{decrypt_frame, encrypt_frame};
pub use key_ratchet::KeyRatchet;
