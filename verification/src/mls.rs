//! MLS group lifecycle, credentials, and key packages for DAVE.
//!
//! MLS (Messaging Layer Security) with ciphersuite 2
//! (MLS_128_DHKEMP256_AES128GCM_SHA256_P256), by way of OpenMLS.

pub mod backend;
pub mod config;
pub mod credential;
pub mod framing;
pub mod group;
pub mod key_package;

pub use config::{build_group_config, crypto_provider, DAVE_CIPHERSUITE};
pub use credential::DaveIdentity;
pub use group::DaveGroup;
pub use key_package::generate_key_package;
