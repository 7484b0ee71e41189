//! DAVE-compliant MLS key package generation.
//!
//! Generates key packages locked to ciphersuite 2 and Basic credentials
//! only, as required by the DAVE protocol.

use openmls::prelude::KeyPackage;
use openmls_rust_crypto::OpenMlsRustCrypto;
use vstd::prelude::*;
use crate::error::{mls_error, mls_failure, SigilError};
use crate::mls::backend::{
    self, key_package_bytes, key_package_contents, CredentialWithKeyView, KeyPackageContents,
};
use crate::mls::config::DAVE_CIPHERSUITE;
use crate::mls::credential::{DaveIdentity, BASIC_CREDENTIAL};

verus! {

/// What a key package of `owner` holds: it is for ciphersuite 2 and Basic
/// credentials, and no other.
pub open spec fn dave_key_package(owner: CredentialWithKeyView) -> KeyPackageContents {
    KeyPackageContents {
        ciphersuite: DAVE_CIPHERSUITE,
        owner,
        supported: seq![DAVE_CIPHERSUITE],
        credentials: seq![BASIC_CREDENTIAL],
    }
}

/// Generate an MLS key package for the given identity.
///
/// The key package is restricted to:
/// - Ciphersuite 2 (`MLS_128_DHKEMP256_AES128GCM_SHA256_P256`)
/// - Basic credential type only
///
/// Returns the generated [`KeyPackage`] (the public part of the bundle;
/// the private keys are stored in the provider automatically).
///
/// # Errors
///
/// Returns [`SigilError::Mls`] if key package generation fails.
pub fn generate_key_package(
    identity: &DaveIdentity,
    provider: &OpenMlsRustCrypto,
) -> (r: Result<KeyPackage, SigilError>)
    ensures
        match r {
            Ok(package) => key_package_contents(package) == dave_key_package(
                identity.credential_with_key@,
            ),
            Err(e) => mls_failure(e, "key package generation: "@),
        },
{
    let owner = &identity.credential_with_key;
    match backend::build_key_package(
        DAVE_CIPHERSUITE,
        provider,
        &identity.signature_keys,
        owner.credential.credential_type,
        owner.credential.content.as_slice(),
        owner.signature_key.as_slice(),
    ) {
        Ok(package) => Ok(package),
        Err(reason) => Err(mls_error("key package generation: ", reason)),
    }
}

/// Serialize a key package.
///
/// # Errors
///
/// Returns [`SigilError::Mls`] if the key package cannot be serialized.
pub fn serialize_key_package(package: &KeyPackage) -> (r: Result<Vec<u8>, SigilError>)
    ensures
        match key_package_bytes(*package) {
            Some(bytes) => r matches Ok(found) && found@ == bytes,
            None => r matches Err(e) && mls_failure(e, "key package serialize: "@),
        },
{
    match backend::serialize_key_package(package) {
        Ok(bytes) => Ok(bytes),
        Err(reason) => Err(mls_error("key package serialize: ", reason)),
    }
}

/// A key package is for ciphersuite 2 alone and for Basic credentials, type 1,
/// alone; it is that of the identity, and its bytes are those that are sent.
pub proof fn key_package_is_restricted(
    identity: &DaveIdentity,
    provider: &OpenMlsRustCrypto,
    package: KeyPackage,
    r: Result<Vec<u8>, SigilError>,
)
    requires
        call_ensures(
            generate_key_package,
            (identity, provider),
            Ok::<KeyPackage, SigilError>(package),
        ),
        call_ensures(serialize_key_package, (&package,), r),
    ensures
        key_package_contents(package).ciphersuite == 2,
        key_package_contents(package).supported == seq![2u16],
        key_package_contents(package).credentials == seq![1u16],
        key_package_contents(package).owner == identity.credential_with_key@,
        r matches Ok(bytes) ==> key_package_bytes(package) == Some(bytes@),
        r is Ok <==> key_package_bytes(package) is Some,
{
}

} // verus!
