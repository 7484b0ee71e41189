//! DAVE frame encryptor, decryptor, and payload footer handling.
//!
//! - [`encryptor::FrameEncryptor`] — codec-aware sender pipeline
//! - [`decryptor::FrameDecryptor`] — codec-unaware receiver pipeline
//! - [`payload`] — footer builder and parser

pub mod decryptor;
pub mod encryptor;
pub mod parts;
pub mod payload;

pub use decryptor::FrameDecryptor;
pub use encryptor::FrameEncryptor;
