//! MLS ciphersuite, crypto provider, and group configuration for DAVE.
//!
//! DAVE uses ciphersuite 2: `MLS_128_DHKEMP256_AES128GCM_SHA256_P256`.

use openmls::prelude::MlsGroupCreateConfig;
use openmls_rust_crypto::OpenMlsRustCrypto;
use vstd::prelude::*;
use crate::error::{mls_error, SigilError};
use crate::mls::backend::{self, config_contents, ConfigContents, CredentialWithKeyView};
use crate::mls::credential::MlsCredential;

verus! {

/// DAVE MLS ciphersuite: P-256 + AES-128-GCM + SHA-256, by its number in the
/// MLS registry.
pub const DAVE_CIPHERSUITE: u16 = 2;

/// Create a new OpenMLS crypto provider instance: calls
/// `OpenMlsRustCrypto::default`, the Rust-native crypto backend with an empty
/// key store in memory.
#[verifier::external_body]
pub fn crypto_provider() -> (provider: OpenMlsRustCrypto) {
    OpenMlsRustCrypto::default()
}

/// Build an MLS group creation configuration with the external sender extension.
///
/// The external sender is the Discord voice gateway server, which needs the
/// ability to create Remove proposals for disconnected members. The DAVE
/// protocol requires the gateway's credential and signature public key to be
/// registered as an external sender in the group context extensions.
///
/// # Arguments
///
/// * `external_sender_credential` — the credential of the voice gateway
/// * `external_sender_pubkey` — the P-256 signature public key of the gateway
///
/// # Errors
///
/// Returns [`SigilError::Mls`] if the extension or configuration builder
/// fails; for the DAVE ciphersuite and an external sender it does not.
pub fn build_group_config(
    external_sender_credential: MlsCredential,
    external_sender_pubkey: Vec<u8>,
) -> (r: Result<MlsGroupCreateConfig, SigilError>)
    ensures
        r is Ok,
        config_contents(r->Ok_0) == (ConfigContents {
            ciphersuite: DAVE_CIPHERSUITE,
            external_senders: seq![
                CredentialWithKeyView {
                    credential: external_sender_credential@,
                    signature_key: external_sender_pubkey@,
                },
            ],
        }),
{
    match backend::create_config(
        DAVE_CIPHERSUITE,
        external_sender_credential.credential_type,
        external_sender_credential.content.as_slice(),
        external_sender_pubkey.as_slice(),
    ) {
        Ok(config) => Ok(config),
        Err(reason) => Err(mls_error("group context extensions: ", reason)),
    }
}

/// A group is configured for ciphersuite 2, and for the gateway as its only
/// external sender.
pub proof fn gateway_is_the_external_sender(
    credential: MlsCredential,
    pubkey: Vec<u8>,
    r: Result<MlsGroupCreateConfig, SigilError>,
)
    requires
        call_ensures(build_group_config, (credential, pubkey), r),
    ensures
        r matches Ok(config) && ({
            let contents = config_contents(config);
            &&& contents.ciphersuite == 2
            &&& contents.external_senders.len() == 1
            &&& contents.external_senders[0].credential.credential_type
                == credential.credential_type
            &&& contents.external_senders[0].credential.content == credential.content@
            &&& contents.external_senders[0].signature_key == pubkey@
        }),
{
}

} // verus!
