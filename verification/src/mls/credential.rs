//! DAVE identity credential: Basic MLS credential with Discord user ID.
//!
//! The credential identity is the big-endian 64-bit representation of the
//! Discord user snowflake ID, as the DAVE protocol has it.

use openmls_basic_credential::SignatureKeyPair;
use openmls_rust_crypto::OpenMlsRustCrypto;
use vstd::prelude::*;
use vstd::string::*;
use crate::error::{mls_error, mls_failure, SigilError};
use crate::mls::backend::{
    self, public_key_bytes, signature_scheme, CredentialView, CredentialWithKeyView,
};
use crate::mls::config::DAVE_CIPHERSUITE;
use crate::text::{counted_text, decimal};
use crate::types::UserId;

verus! {

/// The number of the signature scheme ECDSA on the curve P-256 with SHA-256.
pub const P256_SCHEME: u16 = 0x0403;

/// The credential type number of a Basic credential.
pub const BASIC_CREDENTIAL: u16 = 1;

/// An MLS credential: a type number and the content of that type.
pub struct MlsCredential {
    pub credential_type: u16,
    pub content: Vec<u8>,
}

impl View for MlsCredential {
    type V = CredentialView;

    open spec fn view(&self) -> CredentialView {
        CredentialView { credential_type: self.credential_type, content: self.content@ }
    }
}

/// An MLS credential with the signature public key that goes with it.
pub struct MlsCredentialWithKey {
    pub credential: MlsCredential,
    pub signature_key: Vec<u8>,
}

impl View for MlsCredentialWithKey {
    type V = CredentialWithKeyView;

    open spec fn view(&self) -> CredentialWithKeyView {
        CredentialWithKeyView {
            credential: self.credential@,
            signature_key: self.signature_key@,
        }
    }
}

/// The number that bytes spell, most significant byte first.
pub open spec fn be_value(bytes: Seq<u8>) -> nat
    decreases bytes.len(),
{
    if bytes.len() == 0 {
        0
    } else {
        256 * be_value(bytes.drop_last()) + bytes.last() as nat
    }
}

/// The `n` least significant bytes of `value`, most significant first.
pub open spec fn be_bytes(value: nat, n: nat) -> Seq<u8>
    decreases n,
{
    if n == 0 {
        Seq::empty()
    } else {
        be_bytes(value / 256, (n - 1) as nat).push((value % 256) as u8)
    }
}

/// `256` raised to the power `n`.
pub open spec fn pow256(n: nat) -> nat
    decreases n,
{
    if n == 0 {
        1
    } else {
        256 * pow256((n - 1) as nat)
    }
}

proof fn lemma_be_round_trip(value: nat, n: nat)
    requires
        value < pow256(n),
    ensures
        be_bytes(value, n).len() == n,
        be_value(be_bytes(value, n)) == value,
    decreases n,
{
    if n > 0 {
        lemma_be_round_trip(value / 256, (n - 1) as nat);
        let before = be_bytes(value / 256, (n - 1) as nat);
        assert(be_bytes(value, n).drop_last() =~= before);
    }
}

proof fn lemma_be_value_bound(bytes: Seq<u8>)
    ensures
        be_value(bytes) < pow256(bytes.len()),
    decreases bytes.len(),
{
    if bytes.len() > 0 {
        lemma_be_value_bound(bytes.drop_last());
    }
}

proof fn lemma_pow256_8()
    ensures
        pow256(8) == 0x1_0000_0000_0000_0000,
{
    reveal_with_fuel(pow256, 9);
}

/// The identity bytes of a user: the user ID in eight big-endian bytes.
pub open spec fn identity_bytes(user_id: UserId) -> Seq<u8> {
    be_bytes(user_id as nat, 8)
}

/// The user that identity bytes stand for: any eight bytes do.
pub open spec fn user_of_identity(identity: Seq<u8>) -> Option<UserId> {
    if identity.len() == 8 {
        Some(be_value(identity) as u64)
    } else {
        None
    }
}

/// The user ID put into a credential is the one read out of it.
pub proof fn identity_round_trip(user_id: UserId)
    ensures
        user_of_identity(identity_bytes(user_id)) == Some(user_id),
{
    lemma_pow256_8();
    lemma_be_round_trip(user_id as nat, 8);
}

/// The identity bytes of a user ID.
pub fn identity_of_user(user_id: UserId) -> (identity: Vec<u8>)
    ensures
        identity@ == identity_bytes(user_id),
{
    let mut identity: Vec<u8> = Vec::new();
    identity.push((user_id / 0x100_0000_0000_0000) as u8);
    identity.push((user_id / 0x1_0000_0000_0000 % 0x100) as u8);
    identity.push((user_id / 0x100_0000_0000 % 0x100) as u8);
    identity.push((user_id / 0x1_0000_0000 % 0x100) as u8);
    identity.push((user_id / 0x100_0000 % 0x100) as u8);
    identity.push((user_id / 0x1_0000 % 0x100) as u8);
    identity.push((user_id / 0x100 % 0x100) as u8);
    identity.push((user_id % 0x100) as u8);
    proof {
        reveal_with_fuel(be_bytes, 9);
        assert(identity@ =~= identity_bytes(user_id));
    }
    identity
}

/// The user ID in identity bytes; `None` if there are not exactly eight.
pub fn user_id_from_identity(identity: &[u8]) -> (user_id: Option<UserId>)
    ensures
        user_id == user_of_identity(identity@),
{
    if identity.len() != 8 {
        return None;
    }
    let mut value: u64 = 0;
    let mut i: usize = 0;
    proof {
        assert(identity@.take(0) =~= Seq::<u8>::empty());
    }
    while i < 8
        invariant
            i <= 8,
            identity@.len() == 8,
            value == be_value(identity@.take(i as int)),
        decreases 8 - i,
    {
        proof {
            let next = identity@.take(i + 1);
            assert(next.drop_last() =~= identity@.take(i as int));
            lemma_be_value_bound(next);
            lemma_pow256_8();
            lemma_pow256_monotonic((i + 1) as nat, 8);
        }
        value = value * 256 + identity[i] as u64;
        i = i + 1;
    }
    assert(identity@.take(8) =~= identity@);
    Some(value)
}

proof fn lemma_pow256_monotonic(i: nat, j: nat)
    requires
        i <= j,
    ensures
        pow256(i) <= pow256(j),
    decreases j,
{
    if i < j {
        lemma_pow256_monotonic(i, (j - 1) as nat);
    }
}

/// A DAVE participant identity consisting of an MLS Basic credential,
/// the associated signature keypair, and the Discord user ID.
pub struct DaveIdentity {
    /// Discord user snowflake ID.
    pub user_id: UserId,
    /// The MLS credential with the associated public signature key.
    pub credential_with_key: MlsCredentialWithKey,
    /// The P-256 signature keypair for signing MLS messages.
    pub signature_keys: SignatureKeyPair,
}

impl DaveIdentity {
    /// The keys are P-256 keys, and the credential is the Basic credential of
    /// the user ID, with the public key of the pair.
    pub open spec fn wf(&self) -> bool {
        &&& signature_scheme(self.signature_keys) == P256_SCHEME
        &&& self.credential_with_key@ == (CredentialWithKeyView {
            credential: CredentialView {
                credential_type: BASIC_CREDENTIAL,
                content: identity_bytes(self.user_id),
            },
            signature_key: public_key_bytes(self.signature_keys),
        })
    }

    /// Create a new DAVE identity for the given user ID.
    ///
    /// Generates a P-256 signature keypair, creates a Basic credential
    /// with the big-endian u64 user ID as the identity bytes, and stores
    /// the keypair in the provider's key store.
    ///
    /// # Errors
    ///
    /// Returns [`SigilError::Mls`] if key generation or storage fails, which it
    /// does not with a provider that stores in memory.
    pub fn new(user_id: UserId, provider: &OpenMlsRustCrypto) -> (r: Result<Self, SigilError>)
        ensures
            r matches Ok(identity) && identity.wf() && identity.user_id == user_id,
    {
        let signature_keys = match backend::new_signature_keys(DAVE_CIPHERSUITE) {
            Ok(keys) => keys,
            Err(reason) => return Err(mls_error("keypair generation: ", reason)),
        };
        match backend::store_signature_keys(&signature_keys, provider) {
            Ok(_) => {},
            Err(reason) => return Err(mls_error("key store: ", reason)),
        }
        let credential = MlsCredential {
            credential_type: BASIC_CREDENTIAL,
            content: identity_of_user(user_id),
        };
        let signature_key = backend::public_key(&signature_keys);
        Ok(
            Self {
                user_id,
                credential_with_key: MlsCredentialWithKey { credential, signature_key },
                signature_keys,
            },
        )
    }

    /// Extract the Discord user ID from a Basic credential's identity bytes.
    ///
    /// The identity is expected to be an 8-byte big-endian u64.
    ///
    /// # Errors
    ///
    /// Returns [`SigilError::Mls`] if the identity is not exactly 8 bytes.
    pub fn user_id_from_credential(credential: &MlsCredential) -> (r: Result<UserId, SigilError>)
        ensures
            match user_of_identity(credential.content@) {
                Some(user_id) => r == Ok::<UserId, SigilError>(user_id),
                None => r matches Err(SigilError::Mls(text)) && text@
                    == "expected 8-byte identity, got "@ + decimal(credential.content@.len())
                    + " bytes"@,
            },
    {
        match user_id_from_identity(credential.content.as_slice()) {
            Some(user_id) => Ok(user_id),
            None => Err(
                SigilError::Mls(
                    counted_text(
                        "expected 8-byte identity, got ",
                        credential.content.len() as u64,
                        " bytes",
                    ),
                ),
            ),
        }
    }
}

/// The number that eight bytes spell when each counts 256 times the one behind it.
pub proof fn eight_bytes_value(bytes: Seq<u8>)
    requires
        bytes.len() == 8,
    ensures
        be_value(bytes) == 72057594037927936 * bytes[0] + 281474976710656 * bytes[1]
            + 1099511627776 * bytes[2] + 4294967296 * bytes[3] + 16777216 * bytes[4] + 65536
            * bytes[5] + 256 * bytes[6] + bytes[7],
{
    reveal_with_fuel(be_value, 9);
    assert(bytes.drop_last().last() == bytes[6]);
    assert(bytes.drop_last().drop_last().last() == bytes[5]);
    assert(bytes.drop_last().drop_last().drop_last().last() == bytes[4]);
    assert(bytes.drop_last().drop_last().drop_last().drop_last().last() == bytes[3]);
    assert(bytes.drop_last().drop_last().drop_last().drop_last().drop_last().last() == bytes[2]);
    assert(bytes.drop_last().drop_last().drop_last().drop_last().drop_last().drop_last().last()
        == bytes[1]);
    assert(bytes.drop_last().drop_last().drop_last().drop_last().drop_last().drop_last().drop_last(
    ).last() == bytes[0]);
}

/// A user ID becomes eight bytes, the most significant first, and is read back
/// from them. From any other number of bytes no user is read.
pub proof fn identity_is_big_endian(
    user_id: UserId,
    identity: Vec<u8>,
    bytes: &[u8],
    found: Option<UserId>,
)
    requires
        call_ensures(identity_of_user, (user_id,), identity),
        call_ensures(user_id_from_identity, (bytes,), found),
    ensures
        identity@.len() == 8,
        user_id == 72057594037927936 * identity@[0] + 281474976710656 * identity@[1]
            + 1099511627776 * identity@[2] + 4294967296 * identity@[3] + 16777216 * identity@[4]
            + 65536 * identity@[5] + 256 * identity@[6] + identity@[7],
        found is Some <==> bytes@.len() == 8,
        found matches Some(read) ==> read == 72057594037927936 * bytes@[0] + 281474976710656
            * bytes@[1] + 1099511627776 * bytes@[2] + 4294967296 * bytes@[3] + 16777216 * bytes@[4]
            + 65536 * bytes@[5] + 256 * bytes@[6] + bytes@[7],
        bytes@ == identity@ ==> found == Some(user_id),
{
    lemma_pow256_8();
    lemma_be_round_trip(user_id as nat, 8);
    eight_bytes_value(identity@);
    if bytes@.len() == 8 {
        eight_bytes_value(bytes@);
        lemma_be_value_bound(bytes@);
    }
    identity_round_trip(user_id);
}

/// A new identity has a Basic credential, type 1, from which the user ID it was
/// made for is read again, and the public key of its P-256 pair.
pub proof fn identity_names_its_user(
    user_id: UserId,
    provider: &OpenMlsRustCrypto,
    r: Result<DaveIdentity, SigilError>,
    found: Result<UserId, SigilError>,
)
    requires
        call_ensures(DaveIdentity::new, (user_id, provider), r),
        r matches Ok(identity) ==> call_ensures(
            DaveIdentity::user_id_from_credential,
            (&identity.credential_with_key.credential,),
            found,
        ),
    ensures
        r matches Ok(identity) && identity.user_id == user_id
            && identity.credential_with_key.credential.credential_type == 1
            && identity.credential_with_key.signature_key@ == public_key_bytes(
            identity.signature_keys,
        ) && signature_scheme(identity.signature_keys) == 1027,
        found == Ok::<UserId, SigilError>(user_id),
{
    identity_round_trip(user_id);
}

/// Eight bytes spell a number of 64 bits.
pub proof fn identity_fits(identity: Seq<u8>)
    requires
        identity.len() == 8,
    ensures
        be_value(identity) <= u64::MAX,
{
    lemma_pow256_8();
    lemma_be_value_bound(identity);
}

/// Only the identity bytes of a user spell the user's ID.
pub proof fn identity_is_unique(identity: Seq<u8>, user_id: UserId)
    requires
        identity.len() == 8,
        be_value(identity) == user_id,
    ensures
        identity == identity_bytes(user_id),
{
    lemma_be_unique(identity);
}

proof fn lemma_be_unique(bytes: Seq<u8>)
    ensures
        be_bytes(be_value(bytes), bytes.len()) == bytes,
    decreases bytes.len(),
{
    if bytes.len() > 0 {
        lemma_be_unique(bytes.drop_last());
        assert(bytes.drop_last().push(bytes.last()) =~= bytes);
    } else {
        assert(bytes =~= Seq::empty());
    }
}

/// A credential whose content has another length than eight bytes names no user,
/// and its length is told.
pub proof fn other_credentials_name_no_user(
    credential: &MlsCredential,
    r: Result<UserId, SigilError>,
)
    requires
        call_ensures(DaveIdentity::user_id_from_credential, (credential,), r),
    ensures
        r is Ok <==> credential.content@.len() == 8,
        credential.content@.len() != 8 ==> (r matches Err(SigilError::Mls(text)) && text@
            == "expected 8-byte identity, got "@ + decimal(credential.content@.len())
            + " bytes"@),
{
}

} // verus!
