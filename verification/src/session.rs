//! High-level DAVE session facade for Discord bot integration.
//!
//! [`SigilSession`] is the single entry point that bot developers should use.
//! It orchestrates MLS group management, key derivation, frame encryption/decryption,
//! and gateway event handling.

use openmls::prelude::{KeyPackage, MlsGroup};
use openmls_rust_crypto::OpenMlsRustCrypto;
use std::collections::HashMap;
use vstd::prelude::*;
use vstd::slice::slice_to_vec;
use vstd::string::*;
use crate::crypto::codec::Codec;
use crate::crypto::frame_crypto::generation_from_nonce;
use crate::crypto::key_ratchet::{generation_key, KeyRatchet, RatchetState};
use crate::error::{mls_error, mls_failure, SigilError};
use crate::frame::decryptor::{encrypt_then_decrypt, opened_frame, FrameDecryptor};
use crate::frame::encryptor::{frame_sealed, FrameEncryptor};
use crate::gateway::handler::{dispatch, dispatches_to, DaveEvent};
use crate::gateway::session::{
    next_nonce_value, ratchets_wf, DaveSession, DaveSessionView, SessionState,
};
use crate::mls::backend::{
    self, allowed_prefix, embedded_header, is_mls_message, is_welcome_message, key_package_bytes,
    key_package_contents, leading_credential, leading_signature_key, ConfigContents, CredentialView,
    CredentialWithKeyView, GroupContents,
};
use crate::mls::config::{build_group_config, crypto_provider, DAVE_CIPHERSUITE};
use crate::mls::credential::{DaveIdentity, MlsCredential, MlsCredentialWithKey};
use crate::mls::group::{
    bytes_view, commit_messages, commit_processed, empty_commit_needed,
    extract_group_id_from_proposals, first_group_id, foreign_batch_needs_commit, member_users,
    needs_empty_commit, padding_needs_no_commit, possible_outcomes, sender_key, stored_count,
    DaveGroup, DaveGroupView, ProposalOutcome,
};
use crate::mls::key_package::{dave_key_package, generate_key_package, serialize_key_package};
use crate::types::{Epoch, UserId, KEY_LENGTH};

verus! {

broadcast use vstd::std_specs::hash::group_hash_axioms;

/// What a [`SigilSession`] holds.
#[verifier::ext_equal]
pub struct SigilSessionView {
    pub user_id: UserId,
    pub provider: OpenMlsRustCrypto,
    pub identity: DaveIdentity,
    pub group: Option<DaveGroupView>,
    /// The voice gateway's credential and key, while they wait for the group
    /// to be created.
    pub pending_external_sender: Option<CredentialWithKeyView>,
    pub gateway: DaveSessionView,
    pub sender_keys: Map<UserId, [u8; KEY_LENGTH]>,
    pub own_key: Option<[u8; KEY_LENGTH]>,
}

impl SigilSessionView {
    /// The group, if there is one, is not in the last epoch there is.
    pub open spec fn can_commit(self) -> bool {
        self.group matches Some(group) ==> group.contents().epoch < u64::MAX
    }

    /// The key of the next frame to send, given the key of generation 0.
    ///
    /// The generation is the most significant byte of the nonce. From
    /// generation 1 on our own ratchet gives the key, if there is one.
    pub open spec fn frame_key(self, key: [u8; KEY_LENGTH]) -> Result<
        [u8; KEY_LENGTH],
        SigilError,
    > {
        let generation = self.gateway.send_nonce / 0x100_0000;
        if generation == 0 || !self.gateway.ratchets.contains_key(self.user_id) {
            Ok(key)
        } else {
            let ratchet = self.gateway.ratchets[self.user_id]@;
            if ratchet.available(generation) {
                Ok(generation_key(ratchet.base, generation as nat))
            } else {
                Err(
                    SigilError::GenerationErased {
                        generation: if generation < ratchet.current {
                            generation
                        } else {
                            ratchet.current
                        },
                        current: ratchet.current,
                    },
                )
            }
        }
    }

    /// What decrypting a frame of `sender_id` yields.
    pub open spec fn opened_from(self, sender_id: UserId, dave_frame: Seq<u8>) -> Result<
        Seq<u8>,
        SigilError,
    > {
        if self.sender_keys.contains_key(sender_id) {
            opened_frame(self.sender_keys[sender_id]@, dave_frame)
        } else {
            Err(SigilError::NoSenderKey(sender_id, 0))
        }
    }
}

/// A raw P-256 key of 64 bytes gets the marker byte of an uncompressed point in
/// front; any other key stays as it is.
pub open spec fn marked_key(key: Seq<u8>) -> Seq<u8> {
    if key.len() == 64 {
        seq![4u8] + key
    } else {
        key
    }
}

/// The external sender in an OP 25 payload: signature key, then credential; or
/// else credential, then raw key bytes up to the end.
pub open spec fn external_sender_in(payload: Seq<u8>) -> Option<CredentialWithKeyView> {
    match key_then_credential(payload) {
        Some(sender) => Some(sender),
        None => credential_then_key(payload),
    }
}

/// The signature key at the start of the bytes, and how many bytes it takes.
pub open spec fn key_at_start(data: Seq<u8>) -> Option<(Seq<u8>, nat)> {
    if allowed_prefix(data, 0) {
        leading_signature_key(data)
    } else {
        None
    }
}

/// The credential at the start of the bytes, and how many bytes it takes.
pub open spec fn credential_at_start(data: Seq<u8>) -> Option<(CredentialView, nat)> {
    if allowed_prefix(data, 2) {
        leading_credential(data)
    } else {
        None
    }
}

/// The payload read as a signature key followed by a credential.
pub open spec fn key_then_credential(payload: Seq<u8>) -> Option<CredentialWithKeyView> {
    match key_at_start(payload) {
        None => None,
        Some((key, taken)) => match credential_at_start(payload.skip(taken as int)) {
            None => None,
            Some((credential, _)) => Some(
                CredentialWithKeyView { credential, signature_key: key },
            ),
        },
    }
}

/// The payload read as a credential followed by raw key bytes.
pub open spec fn credential_then_key(payload: Seq<u8>) -> Option<CredentialWithKeyView> {
    match credential_at_start(payload) {
        None => None,
        Some((credential, taken)) => Some(
            CredentialWithKeyView {
                credential,
                signature_key: marked_key(payload.skip(taken as int)),
            },
        ),
    }
}

/// Read the signature key at the start of the bytes.
fn read_key(data: &[u8]) -> (r: Result<(Vec<u8>, usize), String>)
    ensures
        match key_at_start(data@) {
            Some((key, taken)) => r matches Ok((found, n)) && found@ == key && n == taken && n
                <= data@.len(),
            None => r is Err,
        },
{
    if data.len() > 0 && data[0] >= 0xC0 {
        return Err("InvalidVectorLength".to_owned());
    }
    backend::read_signature_key(data)
}

/// Read the credential at the start of the bytes.
fn read_credential(data: &[u8]) -> (r: Result<(MlsCredential, usize), String>)
    ensures
        match credential_at_start(data@) {
            Some((credential, taken)) => r matches Ok((found, n)) && found@ == credential && n
                == taken && n <= data@.len(),
            None => r is Err,
        },
{
    if data.len() > 2 && data[2] >= 0xC0 {
        return Err("InvalidVectorLength".to_owned());
    }
    match backend::read_credential(data) {
        Ok((credential_type, content, taken)) => Ok(
            (MlsCredential { credential_type, content }, taken),
        ),
        Err(reason) => Err(reason),
    }
}

/// Put the marker of an uncompressed point in front of a raw 64-byte key.
///
/// OpenMLS expects either 65 bytes (`0x04 || X || Y`) or 33 bytes
/// (`0x02`/`0x03` `|| X`); Discord sends 64 bytes (`X || Y`).
pub fn mark_signature_key(key: Vec<u8>) -> (marked: Vec<u8>)
    ensures
        marked@ == marked_key(key@),
{
    if key.len() == 64 {
        let mut marked: Vec<u8> = Vec::new();
        marked.push(0x04);
        marked.extend_from_slice(key.as_slice());
        assert(marked@ =~= marked_key(key@));
        marked
    } else {
        key
    }
}

/// High-level DAVE session that wraps MLS, crypto, frame, and gateway
/// into a single cohesive API for Discord bot integration.
pub struct SigilSession {
    /// Our Discord user ID.
    pub user_id: UserId,
    /// The openmls crypto provider instance.
    provider: OpenMlsRustCrypto,
    /// Our MLS identity (keypair + credential).
    identity: DaveIdentity,
    /// The MLS group (None until joined/created).
    group: Option<DaveGroup>,
    /// Pending external sender credential and key, stored by set_external_sender()
    /// and consumed by the first process_proposals() call to create the MLS group
    /// with the correct Discord-assigned group ID.
    pending_external_sender: Option<MlsCredentialWithKey>,
    /// The underlying gateway session state machine.
    gateway_session: DaveSession,
    /// Per-sender encryption keys for the current epoch.
    sender_keys: HashMap<UserId, [u8; KEY_LENGTH]>,
    /// Our own encryption key for the current epoch.
    own_key: Option<[u8; KEY_LENGTH]>,
}

/// The view of the group, if there is one.
pub open spec fn group_view(group: Option<DaveGroup>) -> Option<DaveGroupView> {
    match group {
        Some(group) => Some(group@),
        None => None,
    }
}

impl View for SigilSession {
    type V = SigilSessionView;

    closed spec fn view(&self) -> SigilSessionView {
        SigilSessionView {
            user_id: self.user_id,
            provider: self.provider,
            identity: self.identity,
            group: group_view(self.group),
            pending_external_sender: match self.pending_external_sender {
                Some(sender) => Some(sender@),
                None => None,
            },
            gateway: self.gateway_session@,
            sender_keys: self.sender_keys@,
            own_key: self.own_key,
        }
    }
}

impl SigilSession {
    /// The identity is ours, and every key ratchet is well formed.
    pub open spec fn wf(&self) -> bool {
        &&& self@.identity.wf()
        &&& self@.identity.user_id == self@.user_id
        &&& ratchets_wf(self@.gateway.ratchets)
    }

    /// Create a new DAVE session for the given Discord user ID.
    ///
    /// # Errors
    ///
    /// Returns [`SigilError::Mls`] if key generation or storage fails, which it
    /// does not: the keys are stored in memory.
    pub fn new(user_id: UserId) -> (r: Result<Self, SigilError>)
        ensures
            r is Ok,
            r matches Ok(session) ==> {
                &&& session.wf()
                &&& session@.user_id == user_id
                &&& session@.group is None
                &&& session@.pending_external_sender is None
                &&& session@.gateway == (DaveSessionView {
                    user_id,
                    state: SessionState::Disconnected,
                    send_nonce: 0,
                    ratchets: Map::empty(),
                    previous_ratchets: Map::empty(),
                })
                &&& session@.sender_keys == Map::<UserId, [u8; KEY_LENGTH]>::empty()
                &&& session@.own_key is None
            },
    {
        let provider = crypto_provider();
        let identity = match DaveIdentity::new(user_id, &provider) {
            Ok(identity) => identity,
            Err(e) => return Err(e),
        };
        Ok(
            Self {
                user_id,
                provider,
                identity,
                group: None,
                pending_external_sender: None,
                gateway_session: DaveSession::new(user_id),
                sender_keys: HashMap::new(),
                own_key: None,
            },
        )
    }

    /// Create a new MLS group for a voice channel.
    ///
    /// # Errors
    ///
    /// Returns [`SigilError::Mls`] if group creation fails; the session stays
    /// as it was.
    pub fn create_group(
        &mut self,
        gateway_credential: MlsCredential,
        gateway_pubkey: Vec<u8>,
        group_id: &[u8],
    ) -> (r: Result<(), SigilError>)
        ensures
            match r {
                Ok(_) => {
                    &&& final(self)@ == (SigilSessionView {
                        group: final(self)@.group,
                        ..old(self)@
                    })
                    &&& final(self)@.group matches Some(group)
                    &&& group.user_id == old(self)@.identity.user_id
                    &&& group.is_fresh(
                        old(self)@.identity.credential_with_key@,
                        ConfigContents {
                            ciphersuite: DAVE_CIPHERSUITE,
                            external_senders: seq![
                                CredentialWithKeyView {
                                    credential: gateway_credential@,
                                    signature_key: gateway_pubkey@,
                                },
                            ],
                        },
                        group_id@,
                    )
                },
                Err(e) => mls_failure(e, "group creation: "@) && final(self)@ == old(self)@,
            },
    {
        let config = match build_group_config(gateway_credential, gateway_pubkey) {
            Ok(config) => config,
            Err(e) => return Err(e),
        };
        match DaveGroup::create(&self.identity, &self.provider, &config, group_id) {
            Ok(group) => {
                self.group = Some(group);
                Ok(())
            },
            Err(e) => Err(e),
        }
    }

    /// Join an existing MLS group via a Welcome message.
    ///
    /// # Errors
    ///
    /// Returns [`SigilError::Mls`] if the bytes are not a Welcome message, or
    /// if the Welcome cannot be processed; the session stays as it was.
    pub fn join_group(&mut self, welcome_bytes: &[u8]) -> (r: Result<(), SigilError>)
        ensures
            welcome_joined(old(self)@, final(self)@, welcome_bytes@, r),
    {
        match DaveGroup::join_from_welcome(&self.identity, &self.provider, welcome_bytes) {
            Ok(group) => {
                self.group = Some(group);
                Ok(())
            },
            Err(e) => Err(e),
        }
    }

    /// Set the external sender credentials received from the Voice Gateway (OP 25).
    ///
    /// Stores the credential and key for deferred group creation. The group is
    /// created on the first `process_proposals` call, when the Discord-assigned
    /// group ID is available.
    ///
    /// # Errors
    ///
    /// Returns [`SigilError::Mls`] if the payload cannot be read in either
    /// order; the session stays as it was.
    pub fn set_external_sender(&mut self, payload: &[u8]) -> (r: Result<(), SigilError>)
        ensures
            match external_sender_in(payload@) {
                Some(sender) => r is Ok && final(self)@ == (SigilSessionView {
                    pending_external_sender: Some(sender),
                    ..old(self)@
                }),
                None => r matches Err(e) && mls_failure(e, "credential deserialize: "@)
                    && final(self)@ == old(self)@,
            },
    {
        let (signature_key, taken) = match read_key(payload) {
            Ok(found) => found,
            Err(_) => return self.parse_credential_then_key(payload),
        };
        let rest = &payload[taken..payload.len()];
        assert(rest@ =~= payload@.skip(taken as int));
        let (credential, _) = match read_credential(rest) {
            Ok(found) => found,
            Err(_) => return self.parse_credential_then_key(payload),
        };
        self.pending_external_sender = Some(MlsCredentialWithKey { credential, signature_key });
        Ok(())
    }

    /// Read the payload as a credential followed by raw key bytes.
    fn parse_credential_then_key(&mut self, payload: &[u8]) -> (r: Result<(), SigilError>)
        ensures
            match credential_then_key(payload@) {
                Some(sender) => r is Ok && final(self)@ == (SigilSessionView {
                    pending_external_sender: Some(sender),
                    ..old(self)@
                }),
                None => r matches Err(e) && mls_failure(e, "credential deserialize: "@)
                    && final(self)@ == old(self)@,
            },
    {
        let (credential, taken) = match read_credential(payload) {
            Ok(found) => found,
            Err(reason) => return Err(mls_error("credential deserialize: ", reason)),
        };
        let rest = &payload[taken..payload.len()];
        assert(rest@ =~= payload@.skip(taken as int));
        let signature_key = mark_signature_key(slice_to_vec(rest));
        self.pending_external_sender = Some(MlsCredentialWithKey { credential, signature_key });
        Ok(())
    }

    /// Process incoming OP 27 proposals (Append / Revoke) from the Voice server.
    ///
    /// `operations` is a slice of raw MLS proposal byte vectors.
    ///
    /// On the first call when no group exists yet, extracts the group ID from
    /// the proposals and creates the MLS group using the pending external sender
    /// credential stored by `set_external_sender`.
    ///
    /// Returns `Ok(true)` when Discord sent non-empty proposals that could not
    /// be handled (e.g. custom type 16) AND none were stored as pending.
    /// The caller must check `has_pending_proposals()`:
    /// - If true  → call `commit_and_welcome()` to commit the processable ones.
    /// - If false AND return value is true → the driver should still send a
    ///   self-update commit (OP 28) with the correct transition_id so Discord
    ///   advances the epoch and delivers the epoch key.
    ///
    /// # Errors
    ///
    /// Returns [`SigilError::GroupNotEstablished`] if there is no group and
    /// none can be created for want of an external sender or a group ID, and
    /// [`SigilError::Mls`] if creating the group fails.
    pub fn process_proposals(&mut self, operations: &[Vec<u8>]) -> (r: Result<bool, SigilError>)
        requires
            old(self)@.can_commit(),
        ensures
            proposals_processed(old(self)@, final(self)@, operations@, r),
    {
        let ghost mut start: Option<DaveGroupView> = self@.group;
        if self.group.is_none() {
            if let Some(sender) = self.pending_external_sender.take() {
                let group_id = match extract_group_id_from_proposals(operations) {
                    Some(group_id) => group_id,
                    None => return Err(SigilError::GroupNotEstablished),
                };
                let config = match build_group_config(sender.credential, sender.signature_key) {
                    Ok(config) => config,
                    Err(e) => return Err(e),
                };
                let group = match DaveGroup::create(
                    &self.identity,
                    &self.provider,
                    &config,
                    group_id.as_slice(),
                ) {
                    Ok(group) => group,
                    Err(e) => return Err(e),
                };
                proof {
                    start = Some(group@);
                }
                self.group = Some(group);
            }
        }
        let r = match &mut self.group {
            Some(group) => {
                let outcomes = group.process_batch(operations, &self.provider);
                Ok(needs_empty_commit(outcomes.as_slice()))
            },
            None => Err(SigilError::GroupNotEstablished),
        };
        proof {
            if let Some(before) = start {
                assert(batch_processed(before, self@.group, operations@, r->Ok_0));
            }
        }
        r
    }

    /// Check if the MLS group has pending proposals waiting to be committed.
    pub fn has_pending_proposals(&self) -> (b: bool)
        ensures
            b == (self@.group matches Some(group) && group.contents().pending_proposals > 0),
    {
        match &self.group {
            Some(group) => group.has_pending_proposals(),
            None => false,
        }
    }

    /// Resolve pending proposals by committing and issuing a Welcome buffer.
    ///
    /// After creating the commit, it is merged, so that the local group state
    /// advances to the new epoch. Without this, keys would still be exported
    /// from the old epoch, and receivers (who processed our commit) could not
    /// decrypt our frames.
    ///
    /// # Errors
    ///
    /// Returns [`SigilError::GroupNotEstablished`] without a group and
    /// [`SigilError::Mls`] if the commit cannot be made or merged.
    pub fn commit_and_welcome(&mut self) -> (r: Result<(Vec<u8>, Option<Vec<u8>>), SigilError>)
        requires
            old(self)@.can_commit(),
        ensures
            committed(old(self)@, final(self)@, r),
    {
        match &mut self.group {
            Some(group) => {
                let messages = match group.commit_pending(
                    &self.provider,
                    &self.identity.signature_keys,
                ) {
                    Ok(messages) => messages,
                    Err(e) => return Err(e),
                };
                match group.merge_own_pending_commit(&self.provider) {
                    Ok(_) => Ok(messages),
                    Err(e) => Err(e),
                }
            },
            None => Err(SigilError::GroupNotEstablished),
        }
    }

    /// Generate a key package for the Voice Gateway to add us to a group.
    ///
    /// # Errors
    ///
    /// Returns [`SigilError::Mls`] if the key package cannot be generated or
    /// serialized.
    pub fn generate_key_package(&self) -> (r: Result<Vec<u8>, SigilError>)
        ensures
            match r {
                Ok(bytes) => offers_key_package(self@, bytes@),
                Err(e) => mls_failure(e, "key package generation: "@) || mls_failure(
                    e,
                    "key package serialize: "@,
                ),
            },
    {
        let package = match generate_key_package(&self.identity, &self.provider) {
            Ok(package) => package,
            Err(e) => return Err(e),
        };
        let r = serialize_key_package(&package);
        assert(r matches Ok(bytes) ==> key_package_bytes(package) == Some(bytes@));
        r
    }

    /// Export encryption keys for the given senders and install ratchets.
    ///
    /// After exporting, the gateway session is established anew, which:
    /// - Resets `send_nonce` to 0 (critical for epoch transitions)
    /// - Keeps the ratchets that are replaced as the previous ones
    /// - Installs fresh ratchets for the new epoch
    ///
    /// # Errors
    ///
    /// Returns [`SigilError::GroupNotEstablished`] without a group and
    /// [`SigilError::Mls`] if an export fails; the session stays as it was.
    pub fn export_sender_keys(&mut self, sender_ids: &[UserId]) -> (r: Result<
        HashMap<UserId, [u8; KEY_LENGTH]>,
        SigilError,
    >)
        requires
            old(self).wf(),
        ensures
            final(self).wf(),
            match r {
                Ok(keys) => keys_taken(old(self)@, final(self)@, sender_ids@, Some(keys@)),
                Err(e) => {
                    &&& keys_taken(old(self)@, final(self)@, sender_ids@, None)
                    &&& if old(self)@.group is None {
                        e == SigilError::GroupNotEstablished
                    } else {
                        mls_failure(e, "export sender key: "@)
                    }
                },
            },
    {
        let group = match &self.group {
            Some(group) => group,
            None => return Err(SigilError::GroupNotEstablished),
        };
        let epoch: Epoch = group.epoch();
        let mut keys: HashMap<UserId, [u8; KEY_LENGTH]> = HashMap::new();
        let mut stored: HashMap<UserId, [u8; KEY_LENGTH]> = HashMap::new();
        let mut ratchets: HashMap<UserId, KeyRatchet> = HashMap::new();
        let ghost mls = group@.mls;
        let mut i: usize = 0;
        while i < sender_ids.len()
            invariant
                i <= sender_ids@.len(),
                mls == group@.mls,
                self@ == old(self)@,
                self.wf(),
                self@.group matches Some(view) && view.mls == mls,
                keys_exported(mls, sender_ids@.take(i as int), keys@),
                stored@ == keys@,
                i > 0 ==> group@.contents().active,
                fresh_ratchets(keys@, ratchets@),
            decreases sender_ids@.len() - i,
        {
            let sender_id: UserId = sender_ids[i];
            let key = match group.export_sender_key(sender_id, &self.provider) {
                Ok(key) => key,
                Err(e) => return Err(e),
            };
            let ghost before = keys@;
            keys.insert(sender_id, key);
            stored.insert(sender_id, key);
            ratchets.insert(sender_id, KeyRatchet::new(key));
            proof {
                let done = sender_ids@.take(i as int);
                let next = sender_ids@.take(i + 1);
                assert(next =~= done.push(sender_id));
                assert forall|u: UserId| #[trigger] keys@.contains_key(u) <==> next.contains(u) by {
                    assert(next[i as int] == sender_id);
                    if done.contains(u) {
                        let w = choose|w: int| 0 <= w < done.len() && done[w] == u;
                        assert(next[w] == u);
                    }
                    if next.contains(u) && u != sender_id {
                        let w = choose|w: int| 0 <= w < next.len() && next[w] == u;
                        assert(done[w] == u);
                    }
                    assert(keys@.contains_key(u) <==> before.contains_key(u) || u == sender_id);
                }
            }
            i = i + 1;
        }
        assert(sender_ids@.take(sender_ids@.len() as int) =~= sender_ids@);
        if let Some(key) = keys.get(&self.user_id) {
            self.own_key = Some(*key);
        }
        self.sender_keys = stored;
        assert(ratchets@.dom() =~= keys@.dom());
        self.gateway_session.establish(epoch, ratchets);
        Ok(keys)
    }

    /// Install a pre-derived sender key directly.
    pub fn install_sender_key(&mut self, sender_id: UserId, key: [u8; KEY_LENGTH])
        ensures
            final(self)@ == (SigilSessionView {
                sender_keys: old(self)@.sender_keys.insert(sender_id, key),
                own_key: if sender_id == old(self)@.user_id {
                    Some(key)
                } else {
                    old(self)@.own_key
                },
                ..old(self)@
            }),
    {
        if sender_id == self.user_id {
            self.own_key = Some(key);
        }
        self.sender_keys.insert(sender_id, key);
    }

    /// Install a key ratchet for a sender and derive the initial key.
    ///
    /// The ratchet joins the others of the gateway session, for automatic
    /// generation advancement. In an established session the nonce starts again
    /// at 0.
    pub fn install_ratchet(&mut self, sender_id: UserId, base_secret: [u8; KEY_LENGTH]) -> (r:
        Result<(), SigilError>)
        requires
            old(self).wf(),
        ensures
            r is Ok,
            final(self).wf(),
            final(self)@ == (SigilSessionView {
                sender_keys: old(self)@.sender_keys.insert(sender_id, base_secret),
                own_key: if sender_id == old(self)@.user_id {
                    Some(base_secret)
                } else {
                    old(self)@.own_key
                },
                gateway: final(self)@.gateway,
                ..old(self)@
            }),
            ratchets_replaced(
                old(self)@.gateway.ratchets,
                final(self)@.gateway.ratchets,
                Map::empty().insert(sender_id, base_secret),
            ),
            final(self)@.gateway.user_id == old(self)@.gateway.user_id,
            final(self)@.gateway.state == old(self)@.gateway.state,
            if old(self)@.gateway.state is Established {
                &&& final(self)@.gateway.send_nonce == 0
                &&& final(self)@.gateway.previous_ratchets == old(
                    self,
                )@.gateway.ratchets.restrict(set![sender_id])
            } else {
                &&& final(self)@.gateway.send_nonce == old(self)@.gateway.send_nonce
                &&& final(self)@.gateway.previous_ratchets == old(self)@.gateway.previous_ratchets
            },
    {
        let ratchet = KeyRatchet::new(base_secret);
        let key: [u8; KEY_LENGTH] = *ratchet.base_secret();
        self.sender_keys.insert(sender_id, key);
        if sender_id == self.user_id {
            self.own_key = Some(key);
        }
        if let SessionState::Established { epoch } = *self.gateway_session.state() {
            let mut ratchets: HashMap<UserId, KeyRatchet> = HashMap::new();
            ratchets.insert(sender_id, ratchet);
            assert(ratchets@.dom() =~= set![sender_id]);
            self.gateway_session.establish(epoch, ratchets);
        } else {
            self.gateway_session.install_ratchet(sender_id, ratchet);
        }
        Ok(())
    }

    /// Encrypt a raw media frame for sending.
    ///
    /// Uses the key ratchet to derive the correct key for the current
    /// generation (nonce >> 24). For the first ~16M frames per epoch,
    /// generation is 0 and `key` is used directly.
    ///
    /// # Errors
    ///
    /// Returns [`SigilError`] if the generation's key was erased, or if codec
    /// range detection or encryption fails. The nonce is used up all the same.
    pub fn encrypt_frame(
        &mut self,
        key: &[u8; KEY_LENGTH],
        raw_frame: &[u8],
        codec: Codec,
    ) -> (r: Result<Vec<u8>, SigilError>)
        requires
            old(self).wf(),
        ensures
            final(self).wf(),
            frame_sent(old(self)@, final(self)@),
            frame_encrypted(old(self)@, *key, raw_frame@, codec, r),
    {
        let nonce: u32 = self.gateway_session.next_nonce();
        let generation: u32 = generation_from_nonce(nonce);
        let mut actual_key: [u8; KEY_LENGTH] = *key;
        if generation > 0 {
            if let Some(ratchet) = self.gateway_session.ratchet_mut(self.user_id) {
                actual_key = match ratchet.get(generation) {
                    Ok(key) => key,
                    Err(e) => return Err(e),
                };
            }
        }
        let encryptor = FrameEncryptor::new(codec);
        encryptor.encrypt(&actual_key, nonce, raw_frame)
    }

    /// Encrypt a frame using our own cached key.
    ///
    /// # Errors
    ///
    /// Returns [`SigilError::NoSenderKey`] if we have no key yet; otherwise as
    /// [`encrypt_frame`](Self::encrypt_frame).
    pub fn encrypt_own_frame(&mut self, raw_frame: &[u8], codec: Codec) -> (r: Result<
        Vec<u8>,
        SigilError,
    >)
        requires
            old(self).wf(),
        ensures
            final(self).wf(),
            match old(self)@.own_key {
                None => r == Err::<Vec<u8>, SigilError>(
                    SigilError::NoSenderKey(old(self)@.user_id, 0),
                ) && final(self)@ == old(self)@,
                Some(key) => frame_sent(old(self)@, final(self)@) && frame_encrypted(
                    old(self)@,
                    key,
                    raw_frame@,
                    codec,
                    r,
                ),
            },
    {
        match self.own_key {
            Some(key) => self.encrypt_frame(&key, raw_frame, codec),
            None => Err(SigilError::NoSenderKey(self.user_id, 0)),
        }
    }

    /// Decrypt an incoming DAVE frame.
    ///
    /// # Errors
    ///
    /// Returns [`SigilError`] if footer parsing or decryption fails.
    pub fn decrypt_frame(&self, key: &[u8; KEY_LENGTH], dave_frame: &[u8]) -> (r: Result<
        Vec<u8>,
        SigilError,
    >)
        ensures
            match opened_frame(key@, dave_frame@) {
                Ok(raw) => r matches Ok(found) && found@ == raw,
                Err(e) => r == Err::<Vec<u8>, SigilError>(e),
            },
    {
        FrameDecryptor::decrypt(key, dave_frame)
    }

    /// Decrypt an incoming frame using a cached sender key.
    ///
    /// # Errors
    ///
    /// Returns [`SigilError::NoSenderKey`] if there is no key for the sender;
    /// otherwise as [`decrypt_frame`](Self::decrypt_frame).
    pub fn decrypt_from_sender(&self, sender_id: UserId, dave_frame: &[u8]) -> (r: Result<
        Vec<u8>,
        SigilError,
    >)
        ensures
            match self@.opened_from(sender_id, dave_frame@) {
                Ok(raw) => r matches Ok(found) && found@ == raw,
                Err(e) => r == Err::<Vec<u8>, SigilError>(e),
            },
    {
        match self.sender_keys.get(&sender_id) {
            Some(key) => self.decrypt_frame(key, dave_frame),
            None => Err(SigilError::NoSenderKey(sender_id, 0)),
        }
    }

    /// Dispatch a raw gateway event (opcode + payload) into a DaveEvent.
    ///
    /// # Errors
    ///
    /// Returns [`SigilError::UnknownOpcode`] for unrecognized opcodes, or
    /// [`SigilError::Mls`] for malformed payloads.
    pub fn handle_gateway_event(&self, opcode: u8, payload: &[u8]) -> (r: Result<
        DaveEvent,
        SigilError,
    >)
        ensures
            dispatches_to(opcode, payload@, r),
    {
        dispatch(opcode, payload)
    }

    /// Process an incoming commit (OP 29) and advance the epoch.
    ///
    /// # Errors
    ///
    /// Returns [`SigilError::GroupNotEstablished`] without a group and
    /// [`SigilError::Mls`] if the commit is invalid or processing fails.
    pub fn process_commit(&mut self, commit_bytes: &[u8]) -> (r: Result<Epoch, SigilError>)
        requires
            old(self)@.can_commit(),
        ensures
            commit_taken(old(self)@, final(self)@, commit_bytes@, r),
    {
        match &mut self.group {
            Some(group) => match group.process_commit(commit_bytes, &self.provider) {
                Ok(_) => Ok(group.epoch()),
                Err(e) => Err(e),
            },
            None => Err(SigilError::GroupNotEstablished),
        }
    }

    /// Our Discord user ID.
    pub fn own_user_id(&self) -> (user_id: UserId)
        ensures
            user_id == self@.user_id,
    {
        self.user_id
    }

    /// The session has a group.
    pub fn is_established(&self) -> (b: bool)
        ensures
            b == (self@.group is Some),
    {
        self.group.is_some()
    }

    /// Returns the Discord user IDs of all current MLS group members.
    ///
    /// Used to export sender keys for ALL participants so incoming audio
    /// from every user can be decrypted — not just the bot's own frames.
    pub fn group_member_ids(&self) -> (users: Vec<UserId>)
        ensures
            match self@.group {
                Some(group) => users@ == member_users(group.contents().members),
                None => users@.len() == 0,
            },
    {
        match &self.group {
            Some(group) => group.member_user_ids(),
            None => Vec::new(),
        }
    }

    /// We have a key of our own.
    pub fn has_own_key(&self) -> (b: bool)
        ensures
            b == (self@.own_key is Some),
    {
        self.own_key.is_some()
    }

    /// The tracked epoch of the group, if there is one.
    pub fn current_epoch(&self) -> (r: Option<Epoch>)
        ensures
            match self@.group {
                Some(group) => r == Some(group.current_epoch),
                None => r is None,
            },
    {
        match &self.group {
            Some(group) => Some(group.epoch()),
            None => None,
        }
    }

    /// The state of the gateway session.
    pub fn session_state(&self) -> (state: &SessionState)
        ensures
            *state == self@.gateway.state,
    {
        self.gateway_session.state()
    }

    /// Our MLS identity.
    pub fn identity(&self) -> (identity: &DaveIdentity)
        ensures
            *identity == self@.identity,
    {
        &self.identity
    }

    /// The crypto provider.
    pub fn provider(&self) -> (provider: &OpenMlsRustCrypto)
        ensures
            *provider == self@.provider,
    {
        &self.provider
    }

    /// The gateway session.
    pub fn gateway_session(&self) -> (session: &DaveSession)
        ensures
            session@ == self@.gateway,
    {
        &self.gateway_session
    }

    /// The gateway session, to be changed.
    pub fn gateway_session_mut(&mut self) -> (session: &mut DaveSession)
        ensures
            (*session)@ == old(self)@.gateway,
            final(self)@ == (SigilSessionView { gateway: (*final(session))@, ..old(self)@ }),
    {
        &mut self.gateway_session
    }

    /// The MLS group, if there is one.
    pub fn mls_group(&self) -> (r: Option<&DaveGroup>)
        ensures
            match r {
                Some(group) => self@.group == Some(group@),
                None => self@.group is None,
            },
    {
        match &self.group {
            Some(group) => Some(group),
            None => None,
        }
    }

    /// The group is in the last epoch there is, so that no further commit can
    /// be made or taken.
    pub fn is_exhausted(&self) -> (b: bool)
        ensures
            b == !self@.can_commit(),
    {
        match &self.group {
            Some(group) => group.is_exhausted(),
            None => false,
        }
    }

    /// Full reset: disconnect, clear keys, remove group.
    pub fn disconnect(&mut self)
        ensures
            final(self)@ == (SigilSessionView {
                group: None,
                pending_external_sender: None,
                gateway: DaveSessionView {
                    user_id: old(self)@.gateway.user_id,
                    state: SessionState::Disconnected,
                    send_nonce: 0,
                    ratchets: Map::empty(),
                    previous_ratchets: Map::empty(),
                },
                sender_keys: Map::empty(),
                own_key: None,
                ..old(self)@
            }),
    {
        self.gateway_session.reset();
        self.sender_keys.clear();
        self.own_key = None;
        self.group = None;
        self.pending_external_sender = None;
    }
}

/// `keys` holds the key that the group exports for each of the senders, and
/// nothing else.
pub open spec fn keys_exported(
    mls: MlsGroup,
    sender_ids: Seq<UserId>,
    keys: Map<UserId, [u8; KEY_LENGTH]>,
) -> bool {
    &&& forall|u: UserId| #[trigger] keys.contains_key(u) <==> sender_ids.contains(u)
    &&& forall|u: UserId| #[trigger]
        keys.contains_key(u) ==> sender_key(mls, u) == Some(keys[u]@)
}

/// There is a fresh ratchet for each of the keys, and no other.
pub open spec fn fresh_ratchets(
    keys: Map<UserId, [u8; KEY_LENGTH]>,
    ratchets: Map<UserId, KeyRatchet>,
) -> bool {
    &&& forall|u: UserId| #[trigger] ratchets.contains_key(u) <==> keys.contains_key(u)
    &&& forall|u: UserId| #[trigger]
        ratchets.contains_key(u) ==> ratchets[u].wf() && ratchets[u]@ == (RatchetState {
            base: keys[u],
            current: 0,
            erased_below: 0,
        })
}

/// Each sender with a new key has a fresh ratchet for it; the others keep
/// theirs.
pub open spec fn ratchets_replaced(
    before: Map<UserId, KeyRatchet>,
    after: Map<UserId, KeyRatchet>,
    keys: Map<UserId, [u8; KEY_LENGTH]>,
) -> bool {
    &&& forall|u: UserId| #[trigger]
        after.contains_key(u) <==> before.contains_key(u) || keys.contains_key(u)
    &&& forall|u: UserId| #[trigger]
        after.contains_key(u) ==> if keys.contains_key(u) {
            after[u]@ == (RatchetState { base: keys[u], current: 0, erased_below: 0 })
        } else {
            after[u] == before[u]
        }
}

/// The session after the keys of an epoch were exported: they are the sender
/// keys, our own among them is our key, and the gateway session starts the
/// epoch with fresh ratchets and nonce 0, and keeps those that were replaced.
pub open spec fn keys_installed(
    before: SigilSessionView,
    after: SigilSessionView,
    epoch: Epoch,
    keys: Map<UserId, [u8; KEY_LENGTH]>,
) -> bool {
    &&& after == (SigilSessionView {
        sender_keys: keys,
        own_key: if keys.contains_key(before.user_id) {
            Some(keys[before.user_id])
        } else {
            before.own_key
        },
        gateway: after.gateway,
        ..before
    })
    &&& after.gateway.user_id == before.gateway.user_id
    &&& after.gateway.state == (SessionState::Established { epoch })
    &&& after.gateway.send_nonce == 0
    &&& ratchets_replaced(before.gateway.ratchets, after.gateway.ratchets, keys)
    &&& after.gateway.previous_ratchets == before.gateway.ratchets.restrict(keys.dom())
}

/// The session after a frame was sent: one nonce is used up, and our ratchet
/// has been asked for the nonce's generation, unless that is 0.
pub open spec fn frame_sent(before: SigilSessionView, after: SigilSessionView) -> bool {
    let generation = before.gateway.send_nonce / 0x100_0000;
    &&& after == (SigilSessionView { gateway: after.gateway, ..before })
    &&& after.gateway == (DaveSessionView {
        send_nonce: next_nonce_value(before.gateway.send_nonce),
        ratchets: after.gateway.ratchets,
        ..before.gateway
    })
    &&& if generation == 0 || !before.gateway.ratchets.contains_key(before.user_id) {
        after.gateway.ratchets == before.gateway.ratchets
    } else {
        &&& after.gateway.ratchets == before.gateway.ratchets.insert(
            before.user_id,
            after.gateway.ratchets[before.user_id],
        )
        &&& after.gateway.ratchets[before.user_id]@
            == before.gateway.ratchets[before.user_id]@.after_get(generation)
    }
}

/// `r` is what sending a frame yields.
pub open spec fn frame_encrypted(
    before: SigilSessionView,
    key: [u8; KEY_LENGTH],
    raw: Seq<u8>,
    codec: Codec,
    r: Result<Vec<u8>, SigilError>,
) -> bool {
    match before.frame_key(key) {
        Err(e) => r == Err::<Vec<u8>, SigilError>(e),
        Ok(key) => frame_sealed(codec, key@, before.gateway.send_nonce, raw, r),
    }
}

/// A frame that a session encrypts with its own key is decrypted to what it was
/// by every session that holds the same key for the sender, as long as its footer
/// is at most 255 bytes long. The own key is in use for the first 2^24 frames of
/// an epoch, and without a ratchet of our own for all of them.
pub proof fn receiver_reads_own_frame(
    sender: SigilSessionView,
    receiver: SigilSessionView,
    key: [u8; KEY_LENGTH],
    raw: Seq<u8>,
    codec: Codec,
    r: Result<Vec<u8>, SigilError>,
)
    requires
        sender.frame_key(key) == Ok::<[u8; KEY_LENGTH], SigilError>(key),
        receiver.sender_keys.contains_key(sender.user_id),
        receiver.sender_keys[sender.user_id] == key,
        raw.len() <= usize::MAX,
        frame_encrypted(sender, key, raw, codec, r),
        r is Ok,
        r->Ok_0@.len() - raw.len() <= 255,
    ensures
        receiver.opened_from(sender.user_id, r->Ok_0@) == Ok::<Seq<u8>, SigilError>(raw),
{
    encrypt_then_decrypt(codec, key@, sender.gateway.send_nonce, raw);
}

/// Two sessions whose groups export the same key for a sender agree on it after
/// both have exported their keys.
pub proof fn exported_keys_agree(
    mls_a: MlsGroup,
    mls_b: MlsGroup,
    senders_a: Seq<UserId>,
    senders_b: Seq<UserId>,
    keys_a: Map<UserId, [u8; KEY_LENGTH]>,
    keys_b: Map<UserId, [u8; KEY_LENGTH]>,
    sender_id: UserId,
)
    requires
        keys_exported(mls_a, senders_a, keys_a),
        keys_exported(mls_b, senders_b, keys_b),
        senders_a.contains(sender_id),
        senders_b.contains(sender_id),
        sender_key(mls_a, sender_id) == sender_key(mls_b, sender_id),
    ensures
        keys_a[sender_id]@ == keys_b[sender_id]@,
{
    assert(keys_a.contains_key(sender_id));
    assert(keys_b.contains_key(sender_id));
}

/// `bytes` are those of a key package of ours.
pub open spec fn offers_key_package(session: SigilSessionView, bytes: Seq<u8>) -> bool {
    exists|package: KeyPackage| #[trigger]
        key_package_bytes(package) == Some(bytes) && key_package_contents(package) == dave_key_package(
            session.identity.credential_with_key@,
        )
}

/// What processing a proposal batch makes of a session, and `r`, what it
/// yields. Without a group one is created first, for which the pending external
/// sender is used up.
pub open spec fn proposals_processed(
    before: SigilSessionView,
    after: SigilSessionView,
    operations: Seq<Vec<u8>>,
    r: Result<bool, SigilError>,
) -> bool {
    &&& after == (SigilSessionView {
        group: after.group,
        pending_external_sender: after.pending_external_sender,
        ..before
    })
    &&& match (before.group, before.pending_external_sender) {
        (Some(group), sender) => {
            &&& after.pending_external_sender == sender
            &&& r is Ok
            &&& batch_processed(group, after.group, operations, r->Ok_0)
        },
        (None, None) => r == Err::<bool, SigilError>(SigilError::GroupNotEstablished) && after
            == before,
        (None, Some(sender)) => {
            &&& after.pending_external_sender is None
            &&& match (first_group_id(operations), r) {
                (None, r) => r == Err::<bool, SigilError>(SigilError::GroupNotEstablished)
                    && after.group is None,
                (Some(_), Err(e)) => mls_failure(e, "group creation: "@) && after.group is None,
                (Some(group_id), Ok(needed)) => exists|fresh: DaveGroupView|
                    {
                        &&& fresh.user_id == before.identity.user_id
                        &&& fresh.is_fresh(
                            before.identity.credential_with_key@,
                            ConfigContents {
                                ciphersuite: DAVE_CIPHERSUITE,
                                external_senders: seq![sender],
                            },
                            group_id,
                        )
                        &&& #[trigger] batch_processed(fresh, after.group, operations, needed)
                    },
            }
        },
    }
}

/// What committing makes of a session, and `r`, what it yields: on success the
/// group is one epoch on, and nothing is pending in it. Where no proposal was,
/// its members stay.
pub open spec fn committed(
    before: SigilSessionView,
    after: SigilSessionView,
    r: Result<(Vec<u8>, Option<Vec<u8>>), SigilError>,
) -> bool {
    &&& after == (SigilSessionView { group: after.group, ..before })
    &&& match before.group {
        None => r == Err::<(Vec<u8>, Option<Vec<u8>>), SigilError>(
            SigilError::GroupNotEstablished,
        ) && after.group is None,
        Some(old_group) => {
            &&& after.group matches Some(group)
            &&& group.user_id == old_group.user_id
            &&& match r {
                Ok((commit, welcome)) => {
                    &&& group.in_step()
                    &&& group.contents() == (GroupContents {
                        active: true,
                        epoch: (old_group.contents().epoch + 1) as u64,
                        group_id: old_group.contents().group_id,
                        pending_proposals: 0,
                        adds_pending: false,
                        pending_commit: None,
                        ..group.contents()
                    })
                    &&& old_group.contents().epoch < u64::MAX
                    &&& old_group.contents().pending_proposals == 0 ==> group.contents().members
                        == old_group.contents().members && group.contents().config
                        == old_group.contents().config
                    &&& commit_messages(old_group.contents(), commit@, bytes_view(welcome))
                },
                Err(e) => {
                    &&& group.current_epoch == old_group.current_epoch
                    &&& {
                        ||| mls_failure(e, "commit pending: "@)
                        ||| mls_failure(e, "commit serialize: "@)
                        ||| mls_failure(e, "welcome serialize: "@)
                        ||| mls_failure(e, "merge_pending_commit: "@)
                    }
                },
            }
        },
    }
}

/// What joining by a Welcome makes of a session, and `r`, what it yields.
pub open spec fn welcome_joined(
    before: SigilSessionView,
    after: SigilSessionView,
    welcome: Seq<u8>,
    r: Result<(), SigilError>,
) -> bool {
    &&& after == (SigilSessionView { group: after.group, ..before })
    &&& r is Err ==> after.group == before.group
    &&& if !is_mls_message(welcome) {
        r matches Err(e) && mls_failure(e, "welcome deserialize: "@)
    } else if !is_welcome_message(welcome) {
        r matches Err(SigilError::Mls(text)) && text@ == "message is not a Welcome"@
    } else {
        match r {
            Ok(_) => after.group matches Some(group) && group.is_joined() && group.user_id
                == before.identity.user_id,
            Err(e) => mls_failure(e, "staged welcome: "@) || mls_failure(
                e,
                "welcome into group: "@,
            ),
        }
    }
}

/// What an incoming commit makes of a session, and `r`, what it yields. A
/// message that is no commit is taken without effect.
pub open spec fn commit_taken(
    before: SigilSessionView,
    after: SigilSessionView,
    commit: Seq<u8>,
    r: Result<Epoch, SigilError>,
) -> bool {
    &&& after == (SigilSessionView { group: after.group, ..before })
    &&& match before.group {
        None => r == Err::<Epoch, SigilError>(SigilError::GroupNotEstablished)
            && after.group is None,
        Some(old_group) => {
            &&& after.group matches Some(group)
            &&& match r {
                Ok(epoch) => epoch == group.current_epoch && commit_processed(
                    old_group,
                    group,
                    commit,
                    Ok(()),
                ),
                Err(e) => commit_processed(old_group, group, commit, Err(e)),
            }
        },
    }
}

/// What exporting the keys of `sender_ids` makes of a session: `keys`, if it
/// succeeds. It does if we are a member of the group.
pub open spec fn keys_taken(
    before: SigilSessionView,
    after: SigilSessionView,
    sender_ids: Seq<UserId>,
    keys: Option<Map<UserId, [u8; KEY_LENGTH]>>,
) -> bool {
    match (before.group, keys) {
        (None, keys) => keys is None && after == before,
        (Some(group), None) => after == before && !group.contents().active && sender_ids.len() > 0,
        (Some(group), Some(keys)) => (group.contents().active || sender_ids.len() == 0)
            && keys_exported(group.mls, sender_ids, keys)
            && keys_installed(before, after, group.current_epoch, keys),
    }
}

/// Once a commit of ours has gone through, no proposal is pending any more and
/// keys come from the new epoch: the one after that in which the commit was
/// made.
pub proof fn commit_advances_one_epoch(
    before: SigilSessionView,
    after: SigilSessionView,
    r: Result<(Vec<u8>, Option<Vec<u8>>), SigilError>,
    exported: SigilSessionView,
    sender_ids: Seq<UserId>,
    keys: Map<UserId, [u8; KEY_LENGTH]>,
)
    requires
        committed(before, after, r),
        r is Ok,
        keys_taken(after, exported, sender_ids, Some(keys)),
    ensures
        before.group matches Some(group) && exported.gateway.state == (SessionState::Established {
            epoch: (group.contents().epoch + 1) as u64,
        }),
        exported.gateway.send_nonce == 0,
        exported.group matches Some(group) && group.contents().pending_proposals == 0,
{
}

/// What processing a batch makes of a group, and whether it calls for an empty
/// commit: what became of each entry decides.
pub open spec fn batch_processed(
    before: DaveGroupView,
    after: Option<DaveGroupView>,
    proposals: Seq<Vec<u8>>,
    needed: bool,
) -> bool {
    &&& after matches Some(group)
    &&& exists|outcomes: Seq<ProposalOutcome>|
        {
            &&& #[trigger] possible_outcomes(before.contents().group_id, proposals, outcomes)
            &&& needed == empty_commit_needed(outcomes)
            &&& group.only_stored(before, stored_count(outcomes))
        }
}

/// A new session is that of its user, has neither group nor keys, and hands out
/// the nonce 0 first.
pub proof fn new_session_is_empty(
    user_id: UserId,
    r: Result<SigilSession, SigilError>,
    sender: UserId,
)
    requires
        call_ensures(SigilSession::new, (user_id,), r),
    ensures
        r matches Ok(session) && session@.user_id == user_id && session@.identity.user_id
            == user_id && session@.group is None && session@.own_key is None
            && session@.pending_external_sender is None && !session@.sender_keys.contains_key(
            sender,
        ) && !session@.gateway.ratchets.contains_key(sender) && session@.gateway.send_nonce == 0
            && session@.gateway.state == SessionState::Disconnected,
{
}

/// A key that is installed for a sender is theirs, and ours if the sender is us;
/// no other sender's key changes, and nothing else does.
pub proof fn installed_key_belongs_to_sender(
    session: &mut SigilSession,
    sender: UserId,
    key: [u8; KEY_LENGTH],
    other: UserId,
)
    requires
        call_ensures(SigilSession::install_sender_key, (session, sender, key), ()),
    ensures
        final(session)@.sender_keys.contains_key(sender),
        final(session)@.sender_keys[sender] == key,
        other != sender ==> final(session)@.sender_keys.contains_key(other) == old(
            session,
        )@.sender_keys.contains_key(other) && final(session)@.sender_keys[other] == old(
            session,
        )@.sender_keys[other],
        sender == old(session)@.user_id ==> final(session)@.own_key == Some(key),
        sender != old(session)@.user_id ==> final(session)@.own_key == old(session)@.own_key,
        final(session)@ == (SigilSessionView {
            sender_keys: final(session)@.sender_keys,
            own_key: final(session)@.own_key,
            ..old(session)@
        }),
{
}

/// A ratchet that is installed for a sender starts at generation 0 with its base
/// secret, which becomes the sender's key, and ours if the sender is us. In an
/// established session the nonces start again at 0; else they go on.
pub proof fn installed_ratchet_starts_over(
    session: &mut SigilSession,
    sender: UserId,
    base_secret: [u8; KEY_LENGTH],
    r: Result<(), SigilError>,
    other: UserId,
)
    requires
        call_ensures(SigilSession::install_ratchet, (session, sender, base_secret), r),
    ensures
        r is Ok,
        final(session)@.sender_keys.contains_key(sender),
        final(session)@.sender_keys[sender] == base_secret,
        sender == old(session)@.user_id ==> final(session)@.own_key == Some(base_secret),
        sender != old(session)@.user_id ==> final(session)@.own_key == old(session)@.own_key,
        final(session)@.gateway.ratchets.contains_key(sender),
        final(session)@.gateway.ratchets[sender]@.base == base_secret,
        final(session)@.gateway.ratchets[sender]@.current == 0,
        final(session)@.gateway.ratchets[sender]@.erased_below == 0,
        other != sender && old(session)@.gateway.ratchets.contains_key(other)
            ==> final(session)@.gateway.ratchets.contains_key(other)
            && final(session)@.gateway.ratchets[other] == old(session)@.gateway.ratchets[other],
        other != sender ==> final(session)@.sender_keys.contains_key(other) == old(
            session,
        )@.sender_keys.contains_key(other) && final(session)@.sender_keys[other] == old(
            session,
        )@.sender_keys[other],
        old(session)@.gateway.state is Established ==> final(session)@.gateway.send_nonce == 0,
        !(old(session)@.gateway.state is Established) ==> final(session)@.gateway.send_nonce
            == old(session)@.gateway.send_nonce,
        final(session)@.gateway.state == old(session)@.gateway.state,
        final(session)@.group == old(session)@.group,
{
    assert(final(session)@.gateway.ratchets.contains_key(sender));
    assert(other != sender && old(session)@.gateway.ratchets.contains_key(other)
        ==> final(session)@.gateway.ratchets.contains_key(other));
}

/// Each frame takes the next nonce, modulo 2^32, whether or not it could be
/// encrypted. Keys, group and state stay, and so do the ratchets of others.
pub proof fn each_frame_takes_a_nonce(
    session: &mut SigilSession,
    key: &[u8; KEY_LENGTH],
    raw: &[u8],
    codec: Codec,
    r: Result<Vec<u8>, SigilError>,
    other: UserId,
)
    requires
        call_ensures(SigilSession::encrypt_frame, (session, key, raw, codec), r),
    ensures
        final(session)@.gateway.send_nonce == (old(session)@.gateway.send_nonce + 1)
            % 4294967296,
        final(session)@ == (SigilSessionView {
            gateway: DaveSessionView {
                send_nonce: final(session)@.gateway.send_nonce,
                ratchets: final(session)@.gateway.ratchets,
                ..old(session)@.gateway
            },
            ..old(session)@
        }),
        other != old(session)@.user_id ==> final(session)@.gateway.ratchets.contains_key(other)
            == old(session)@.gateway.ratchets.contains_key(other)
            && final(session)@.gateway.ratchets[other] == old(session)@.gateway.ratchets[other],
{
}

/// For the first 2^24 nonces a frame is encrypted with the key that was given.
/// From then on it is encrypted with the key that our own ratchet, if there is
/// one, has for the generation: the nonce divided by 2^24.
pub proof fn generations_change_the_key(
    session: &mut SigilSession,
    key: &[u8; KEY_LENGTH],
    raw: &[u8],
    codec: Codec,
    r: Result<Vec<u8>, SigilError>,
    ratchet: &mut KeyRatchet,
    generation: u32,
    ratcheted: Result<[u8; KEY_LENGTH], SigilError>,
    encryptor: &FrameEncryptor,
    used: &[u8; KEY_LENGTH],
    sealed: Result<Vec<u8>, SigilError>,
)
    requires
        call_ensures(SigilSession::encrypt_frame, (session, key, raw, codec), r),
        16777216 * generation <= old(session)@.gateway.send_nonce,
        old(session)@.gateway.send_nonce < 16777216 * (generation + 1),
        old(session)@.gateway.ratchets.contains_key(old(session)@.user_id) ==> *old(ratchet)
            == old(session)@.gateway.ratchets[old(session)@.user_id] && call_ensures(
            KeyRatchet::get,
            (ratchet, generation),
            ratcheted,
        ),
        encryptor.codec == codec,
        call_ensures(
            FrameEncryptor::encrypt,
            (encryptor, used, old(session)@.gateway.send_nonce, raw),
            sealed,
        ),
    ensures
        generation == 0 && *used == *key ==> (r is Ok <==> sealed is Ok) && (r is Ok
            ==> r->Ok_0@ == sealed->Ok_0@),
        generation > 0 && !old(session)@.gateway.ratchets.contains_key(old(session)@.user_id)
            && *used == *key ==> (r is Ok <==> sealed is Ok) && (r is Ok ==> r->Ok_0@
            == sealed->Ok_0@),
        generation > 0 && old(session)@.gateway.ratchets.contains_key(old(session)@.user_id)
            ==> match ratcheted {
            Err(_) => r is Err,
            Ok(derived) => *used == derived ==> (r is Ok <==> sealed is Ok) && (r is Ok
                ==> r->Ok_0@ == sealed->Ok_0@),
        },
{
    assert(old(session)@.gateway.send_nonce / 0x100_0000 == generation);
}

/// Without a key of our own there is nothing to encrypt our frames with, and no
/// nonce is taken; without a key for a sender there is nothing to decrypt theirs
/// with. Both say whose key is missing.
pub proof fn missing_keys_are_told(
    session: &mut SigilSession,
    raw: &[u8],
    codec: Codec,
    encrypted: Result<Vec<u8>, SigilError>,
    sender: UserId,
    frame: &[u8],
    decrypted: Result<Vec<u8>, SigilError>,
)
    requires
        call_ensures(SigilSession::encrypt_own_frame, (session, raw, codec), encrypted),
        call_ensures(SigilSession::decrypt_from_sender, (&*old(session), sender, frame), decrypted),
    ensures
        old(session)@.own_key is None ==> encrypted == Err::<Vec<u8>, SigilError>(
            SigilError::NoSenderKey(old(session)@.user_id, 0),
        ) && final(session)@ == old(session)@,
        !old(session)@.sender_keys.contains_key(sender) ==> decrypted == Err::<
            Vec<u8>,
            SigilError,
        >(SigilError::NoSenderKey(sender, 0)),
{
}

/// A frame that a session encrypts with its own key, in the first 2^24 of its
/// epoch, is decrypted to what it was by every session that has the same key for
/// that user, as long as no more than 255 bytes were added to it.
pub proof fn own_frames_are_read_by_others(
    sender: &mut SigilSession,
    raw: &[u8],
    codec: Codec,
    sealed: Vec<u8>,
    receiver: &SigilSession,
    frame: &[u8],
    r: Result<Vec<u8>, SigilError>,
)
    requires
        call_ensures(
            SigilSession::encrypt_own_frame,
            (sender, raw, codec),
            Ok::<Vec<u8>, SigilError>(sealed),
        ),
        old(sender)@.gateway.send_nonce < 16777216,
        sealed@.len() - raw@.len() <= 255,
        frame@ == sealed@,
        receiver@.sender_keys.contains_key(old(sender)@.user_id),
        Some(receiver@.sender_keys[old(sender)@.user_id]) == old(sender)@.own_key,
        call_ensures(
            SigilSession::decrypt_from_sender,
            (receiver, old(sender)@.user_id, frame),
            r,
        ),
    ensures
        r matches Ok(found) && found@ == raw@,
{
    assert(raw@.len() == raw.len());
    receiver_reads_own_frame(
        old(sender)@,
        receiver@,
        old(sender)@.own_key->0,
        raw@,
        codec,
        Ok(sealed),
    );
}

/// Exporting gives a key for each of the senders, and for no other: the one that
/// the group exports. They replace all keys there were, ours among them becomes
/// our own, each sender's ratchet starts over with theirs, and the session is
/// established in the group's epoch with nonce 0. Without a group nothing
/// happens.
pub proof fn exported_keys_replace_all(
    session: &mut SigilSession,
    senders: &[UserId],
    r: Result<HashMap<UserId, [u8; KEY_LENGTH]>, SigilError>,
    sender: UserId,
)
    requires
        call_ensures(SigilSession::export_sender_keys, (session, senders), r),
    ensures
        old(session)@.group is None ==> r == Err::<
            HashMap<UserId, [u8; KEY_LENGTH]>,
            SigilError,
        >(SigilError::GroupNotEstablished),
        r is Err ==> final(session)@ == old(session)@,
        old(session)@.group matches Some(group) ==> (group.contents().active ==> r is Ok),
        r matches Ok(keys) ==> {
            &&& keys@.contains_key(sender) <==> senders@.contains(sender)
            &&& final(session)@.sender_keys == keys@
            &&& keys@.contains_key(sender) ==> {
                &&& old(session)@.group matches Some(group) && sender_key(group.mls, sender)
                    == Some(keys@[sender]@)
                &&& final(session)@.gateway.ratchets.contains_key(sender)
                &&& final(session)@.gateway.ratchets[sender]@.base == keys@[sender]
                &&& final(session)@.gateway.ratchets[sender]@.current == 0
            }
            &&& senders@.contains(old(session)@.user_id) ==> final(session)@.own_key == Some(
                keys@[old(session)@.user_id],
            )
            &&& !senders@.contains(old(session)@.user_id) ==> final(session)@.own_key == old(
                session,
            )@.own_key
            &&& old(session)@.group matches Some(group) && final(session)@.gateway.state == (
            SessionState::Established { epoch: group.current_epoch })
            &&& final(session)@.gateway.send_nonce == 0
            &&& final(session)@.group == old(session)@.group
        },
{
    if let Ok(keys) = r {
        assert(keys@.contains_key(sender) <==> senders@.contains(sender));
        assert(keys@.contains_key(old(session)@.user_id) <==> senders@.contains(
            old(session)@.user_id,
        ));
        assert(keys@.contains_key(sender) ==> final(session)@.gateway.ratchets.contains_key(
            sender,
        ));
    }
}

/// A key of 64 bytes gets a byte 4 in front; any other stays as it is.
pub proof fn raw_keys_are_marked(key: Vec<u8>, marked: Vec<u8>)
    requires
        call_ensures(mark_signature_key, (key,), marked),
    ensures
        key@.len() == 64 ==> marked@.len() == 65 && marked@[0] == 4 && marked@.skip(1) == key@,
        key@.len() != 64 ==> marked@ == key@,
{
    if key@.len() == 64 {
        assert(marked@.skip(1) =~= key@);
    }
}

/// A payload that begins with a signature key, with a credential behind that,
/// names the external sender that has both. It waits for the group; all else
/// stays. (A length never begins with a byte of 192 or more.)
pub proof fn external_sender_is_key_and_credential(
    session: &mut SigilSession,
    payload: &[u8],
    r: Result<(), SigilError>,
    key: Seq<u8>,
    taken: nat,
    credential: CredentialView,
    more: nat,
)
    requires
        call_ensures(SigilSession::set_external_sender, (session, payload), r),
        payload@.len() == 0 || payload@[0] < 192,
        leading_signature_key(payload@) == Some((key, taken)),
        payload@.skip(taken as int).len() <= 2 || payload@.skip(taken as int)[2] < 192,
        leading_credential(payload@.skip(taken as int)) == Some((credential, more)),
    ensures
        r is Ok,
        final(session)@.pending_external_sender == Some(
            CredentialWithKeyView { credential, signature_key: key },
        ),
        final(session)@.group == old(session)@.group,
        final(session)@.sender_keys == old(session)@.sender_keys,
        final(session)@.own_key == old(session)@.own_key,
        final(session)@.gateway == old(session)@.gateway,
{
}

/// A payload that cannot be read in that order, but begins with a credential,
/// names the external sender with that credential, and the bytes behind it as
/// key, marked if there are 64 of them. One that does neither is refused, and
/// changes nothing.
pub proof fn external_sender_is_credential_and_key(
    session: &mut SigilSession,
    payload: &[u8],
    r: Result<(), SigilError>,
    key: Seq<u8>,
    key_taken: nat,
    rest: Vec<u8>,
    marked: Vec<u8>,
)
    requires
        call_ensures(SigilSession::set_external_sender, (session, payload), r),
        call_ensures(mark_signature_key, (rest,), marked),
        ({
            let behind = payload@.skip(key_taken as int);
            ||| payload@.len() > 0 && payload@[0] >= 192
            ||| leading_signature_key(payload@) is None
            ||| leading_signature_key(payload@) == Some((key, key_taken)) && ((behind.len() > 2
                && behind[2] >= 192) || leading_credential(behind) is None)
        }),
    ensures
        payload@.len() > 2 && payload@[2] >= 192 ==> r is Err,
        leading_credential(payload@) is None ==> r is Err,
        r is Err ==> final(session)@ == old(session)@,
        leading_credential(payload@) matches Some((credential, taken)) ==> (rest@ == payload@.skip(
            taken as int,
        ) && (payload@.len() <= 2 || payload@[2] < 192) ==> r is Ok
            && final(session)@.pending_external_sender == Some(
            CredentialWithKeyView { credential, signature_key: marked@ },
        )),
        final(session)@.group == old(session)@.group,
        final(session)@.sender_keys == old(session)@.sender_keys,
        final(session)@.own_key == old(session)@.own_key,
        final(session)@.gateway == old(session)@.gateway,
{
}

/// A session that was disconnected has neither group, keys nor ratchets left, nor
/// an external sender in waiting, and is still that of its user and identity.
pub proof fn disconnecting_forgets_keys(session: &mut SigilSession, sender: UserId)
    requires
        call_ensures(SigilSession::disconnect, (session,), ()),
    ensures
        final(session)@.group is None,
        final(session)@.own_key is None,
        final(session)@.pending_external_sender is None,
        !final(session)@.sender_keys.contains_key(sender),
        !final(session)@.gateway.ratchets.contains_key(sender),
        !final(session)@.gateway.previous_ratchets.contains_key(sender),
        final(session)@.gateway.send_nonce == 0,
        final(session)@.gateway.state == SessionState::Disconnected,
        final(session)@.user_id == old(session)@.user_id,
        final(session)@.identity == old(session)@.identity,
        final(session)@.provider == old(session)@.provider,
{
}

/// A commit of ours moves the group on by one epoch, under the same ID, and
/// leaves nothing pending in it; a Welcome goes with it exactly if a pending
/// proposal adds a member. Keys and nonces stay until they are exported anew.
/// Without a group there is nothing to commit.
pub proof fn committing_moves_on_one_epoch(
    session: &mut SigilSession,
    r: Result<(Vec<u8>, Option<Vec<u8>>), SigilError>,
)
    requires
        call_ensures(SigilSession::commit_and_welcome, (session,), r),
    ensures
        old(session)@.group is None ==> r == Err::<(Vec<u8>, Option<Vec<u8>>), SigilError>(
            SigilError::GroupNotEstablished,
        ) && final(session)@.group is None,
        r matches Ok((commit, welcome)) ==> {
            &&& old(session)@.group matches Some(before)
            &&& final(session)@.group matches Some(after)
            &&& after.contents().epoch == before.contents().epoch + 1
            &&& after.current_epoch == before.contents().epoch + 1
            &&& after.contents().group_id == before.contents().group_id
            &&& after.contents().active
            &&& after.contents().pending_proposals == 0
            &&& after.contents().pending_commit is None
            &&& welcome is Some <==> before.contents().adds_pending
            &&& before.contents().pending_proposals == 0 ==> after.contents().members
                == before.contents().members
        },
        final(session)@.sender_keys == old(session)@.sender_keys,
        final(session)@.own_key == old(session)@.own_key,
        final(session)@.gateway == old(session)@.gateway,
        final(session)@.pending_external_sender == old(session)@.pending_external_sender,
{
}

/// A commit of another that is taken moves the group on by one epoch, and the
/// session says which it is now; what is no message of the group changes nothing.
/// Without a group there is none to take.
pub proof fn taken_commit_moves_on_one_epoch(
    session: &mut SigilSession,
    commit: &[u8],
    r: Result<Epoch, SigilError>,
)
    requires
        call_ensures(SigilSession::process_commit, (session, commit), r),
    ensures
        old(session)@.group is None ==> r == Err::<Epoch, SigilError>(
            SigilError::GroupNotEstablished,
        ) && final(session)@ == old(session)@,
        old(session)@.group matches Some(before) ==> {
            &&& final(session)@.group matches Some(after)
            &&& r matches Ok(epoch) ==> {
                &&& epoch == after.current_epoch
                &&& embedded_header(commit@) matches Some(header)
                &&& header.group_id == before.contents().group_id
                &&& header.kind is Commit ==> epoch == before.contents().epoch + 1
                    && after.contents().epoch == before.contents().epoch + 1
                &&& !(header.kind is Commit) ==> epoch == before.current_epoch
                    && after.contents().epoch == before.contents().epoch
            }
            &&& embedded_header(commit@) is None ==> r is Err && after == before
        },
        final(session)@.sender_keys == old(session)@.sender_keys,
        final(session)@.own_key == old(session)@.own_key,
        final(session)@.gateway == old(session)@.gateway,
{
}

/// Proposals that come before there is a group create it: under the ID that the
/// first of them names, for ciphersuite 2, and with the external sender in
/// waiting, which is used up. Without one, or without an ID, there is no group
/// then. Keys and nonces stay.
pub proof fn first_proposals_create_the_group(
    session: &mut SigilSession,
    operations: &[Vec<u8>],
    r: Result<bool, SigilError>,
    group_id: Option<Vec<u8>>,
)
    requires
        call_ensures(SigilSession::process_proposals, (session, operations), r),
        call_ensures(extract_group_id_from_proposals, (operations,), group_id),
    ensures
        old(session)@.group is None && (old(session)@.pending_external_sender is None
            || group_id is None) ==> r == Err::<bool, SigilError>(SigilError::GroupNotEstablished)
            && final(session)@.group is None,
        old(session)@.group is None ==> final(session)@.pending_external_sender is None,
        old(session)@.group is None && r is Ok ==> {
            &&& final(session)@.group matches Some(group)
            &&& group_id matches Some(id) && group.contents().group_id == id@
            &&& group.contents().epoch == 0
            &&& group.current_epoch == 0
            &&& group.contents().members.len() == 1
            &&& group.contents().members[0] == old(session)@.identity.credential_with_key@
            &&& group.contents().config.ciphersuite == 2
            &&& group.contents().config.external_senders.len() == 1
            &&& Some(group.contents().config.external_senders[0])
                == old(session)@.pending_external_sender
        },
        old(session)@.group matches Some(before) ==> r is Ok
            && final(session)@.pending_external_sender == old(session)@.pending_external_sender && (
        final(session)@.group matches Some(after) && after.contents().epoch
            == before.contents().epoch && after.contents().group_id == before.contents().group_id
            && after.contents().members == before.contents().members
            && after.contents().pending_proposals >= before.contents().pending_proposals),
        final(session)@.sender_keys == old(session)@.sender_keys,
        final(session)@.own_key == old(session)@.own_key,
        final(session)@.gateway == old(session)@.gateway,
{
}

/// A Welcome that is taken makes us a member of its group, with nothing pending
/// in it. What is no Welcome is refused, and whatever is refused leaves the
/// session as it was.
pub proof fn welcome_makes_us_a_member(
    session: &mut SigilSession,
    welcome: &[u8],
    r: Result<(), SigilError>,
    established: bool,
    epoch: Option<Epoch>,
)
    requires
        call_ensures(SigilSession::join_group, (session, welcome), r),
        call_ensures(SigilSession::is_established, (&*final(session),), established),
        call_ensures(SigilSession::current_epoch, (&*final(session),), epoch),
    ensures
        !is_welcome_message(welcome@) ==> r is Err,
        r is Err ==> final(session)@ == old(session)@,
        r is Ok ==> {
            &&& established
            &&& final(session)@.group matches Some(group)
            &&& group.contents().active
            &&& group.contents().pending_proposals == 0
            &&& epoch == Some(group.contents().epoch)
            &&& group.user_id == old(session)@.identity.user_id
        },
        final(session)@.sender_keys == old(session)@.sender_keys,
        final(session)@.own_key == old(session)@.own_key,
        final(session)@.gateway == old(session)@.gateway,
{
}

/// A group that is created is fresh: epoch 0, under the ID that was given, for
/// ciphersuite 2, with us as its only member and the gateway as its only external
/// sender. All else stays, and everything does where it fails.
pub proof fn created_group_is_fresh(
    session: &mut SigilSession,
    credential: MlsCredential,
    pubkey: Vec<u8>,
    group_id: &[u8],
    r: Result<(), SigilError>,
)
    requires
        call_ensures(SigilSession::create_group, (session, credential, pubkey, group_id), r),
    ensures
        r is Err ==> final(session)@ == old(session)@,
        r is Ok ==> {
            &&& final(session)@.group matches Some(group)
            &&& group.contents().epoch == 0
            &&& group.current_epoch == 0
            &&& group.contents().group_id == group_id@
            &&& group.contents().members.len() == 1
            &&& group.contents().members[0] == old(session)@.identity.credential_with_key@
            &&& group.contents().config.ciphersuite == 2
            &&& group.contents().config.external_senders.len() == 1
            &&& group.contents().config.external_senders[0].credential == credential@
            &&& group.contents().config.external_senders[0].signature_key == pubkey@
        },
        final(session)@.pending_external_sender == old(session)@.pending_external_sender,
        final(session)@.sender_keys == old(session)@.sender_keys,
        final(session)@.own_key == old(session)@.own_key,
        final(session)@.gateway == old(session)@.gateway,
{
}

/// The bytes of a key package are those of one for ciphersuite 2 and Basic
/// credentials alone, with our credential.
pub proof fn key_package_is_ours(session: &SigilSession, bytes: Vec<u8>)
    requires
        call_ensures(
            SigilSession::generate_key_package,
            (session,),
            Ok::<Vec<u8>, SigilError>(bytes),
        ),
    ensures
        exists|package: KeyPackage| #[trigger]
            key_package_bytes(package) == Some(bytes@) && key_package_contents(package).ciphersuite
                == 2 && key_package_contents(package).supported == seq![2u16]
                && key_package_contents(package).credentials == seq![1u16] && key_package_contents(
                package,
            ).owner == session@.identity.credential_with_key@,
{
    let package = choose|package: KeyPackage| #[trigger]
        key_package_bytes(package) == Some(bytes@) && key_package_contents(package)
            == dave_key_package(session@.identity.credential_with_key@);
    assert(key_package_bytes(package) == Some(bytes@));
}

/// A batch of empty entries calls for no commit, and leaves nothing pending that
/// was not. One with something in it, of which nothing is a message of the group,
/// calls for an empty commit.
pub proof fn foreign_batches_call_for_a_commit(
    session: &mut SigilSession,
    operations: &[Vec<u8>],
    r: Result<bool, SigilError>,
    k: int,
)
    requires
        call_ensures(SigilSession::process_proposals, (session, operations), r),
        old(session)@.group is Some,
    ensures
        (forall|i: int| #![trigger operations@[i]]
            0 <= i < operations@.len() ==> operations@[i]@.len() == 0) ==> r == Ok::<
            bool,
            SigilError,
        >(false),
        0 <= k < operations@.len() && operations@[k]@.len() > 0 && (forall|i: int|
            #![trigger operations@[i]]
            0 <= i < operations@.len() ==> (embedded_header(operations@[i]@) matches Some(header)
                ==> header.group_id != old(session)@.group->0.contents().group_id)) ==> r == Ok::<
            bool,
            SigilError,
        >(true),
{
    let before = old(session)@.group->0;
    let group_id = before.contents().group_id;
    let outcomes = choose|outcomes: Seq<ProposalOutcome>|
        {
            &&& #[trigger] possible_outcomes(group_id, operations@, outcomes)
            &&& r->Ok_0 == empty_commit_needed(outcomes)
            &&& final(session)@.group->0.only_stored(before, stored_count(outcomes))
        };
    if forall|i: int| #![trigger operations@[i]]
        0 <= i < operations@.len() ==> operations@[i]@.len() == 0 {
        padding_needs_no_commit(group_id, operations@, outcomes);
    }
    if 0 <= k < operations@.len() && operations@[k]@.len() > 0 && (forall|i: int|
        #![trigger operations@[i]]
        0 <= i < operations@.len() ==> (embedded_header(operations@[i]@) matches Some(header)
            ==> header.group_id != group_id)) {
        foreign_batch_needs_commit(group_id, operations@, outcomes, k);
    }
}

/// What a session tells of itself: whose it is, whether it has a group and a key
/// of our own, who is in the group, in which epoch it is, whether proposals are
/// pending in it, and whether it is in the last epoch.
pub proof fn session_tells_its_state(
    session: &SigilSession,
    user_id: UserId,
    established: bool,
    own_key: bool,
    users: Vec<UserId>,
    epoch: Option<Epoch>,
    pending: bool,
    exhausted: bool,
    state: &SessionState,
)
    requires
        call_ensures(SigilSession::own_user_id, (session,), user_id),
        call_ensures(SigilSession::is_established, (session,), established),
        call_ensures(SigilSession::has_own_key, (session,), own_key),
        call_ensures(SigilSession::group_member_ids, (session,), users),
        call_ensures(SigilSession::current_epoch, (session,), epoch),
        call_ensures(SigilSession::has_pending_proposals, (session,), pending),
        call_ensures(SigilSession::is_exhausted, (session,), exhausted),
        call_ensures(SigilSession::session_state, (session,), state),
    ensures
        user_id == session@.user_id,
        own_key <==> session@.own_key is Some,
        *state == session@.gateway.state,
        established <==> session@.group is Some,
        established <==> epoch is Some,
        !established ==> users@.len() == 0 && !pending && !exhausted,
        session@.group matches Some(group) ==> epoch == Some(group.current_epoch) && users@
            == member_users(group.contents().members) && (pending
            <==> group.contents().pending_proposals > 0) && (exhausted <==> group.contents().epoch
            == 18446744073709551615),
{
}

/// A gateway event is what the dispatch of the same message gives, in kind and in
/// content.
pub proof fn gateway_events_are_dispatched(
    session: &SigilSession,
    opcode: u8,
    payload: &[u8],
    r: Result<DaveEvent, SigilError>,
)
    requires
        call_ensures(SigilSession::handle_gateway_event, (session, opcode, payload), r),
    ensures
        opcode != 25 && opcode != 27 && opcode != 29 && opcode != 30 ==> r == Err::<
            DaveEvent,
            SigilError,
        >(SigilError::UnknownOpcode(opcode)),
        payload@.len() > 5 && payload@[2] == opcode && opcode == 29 ==> (r matches Ok(
            DaveEvent::MlsAnnounceCommitTransition(found),
        ) && found.transition_id == payload@[3] + 256 * payload@[4] && found.commit_bytes@
            == payload@.skip(5)),
        payload@.len() > 5 && payload@[2] == opcode && opcode == 30 ==> (r matches Ok(
            DaveEvent::MlsWelcome(found),
        ) && found.transition_id == payload@[3] + 256 * payload@[4] && found.welcome_bytes@
            == payload@.skip(5)),
        payload@.len() > 3 && payload@[2] == opcode && opcode == 25 ==> (r matches Ok(
            DaveEvent::MlsExternalSender(found),
        ) && found.credential@ == payload@.skip(3)),
{
    let data = payload@.skip(3);
    if payload@.len() > 5 {
        assert(data[0] == payload@[3] && data[1] == payload@[4]);
        assert(data.skip(2) =~= payload@.skip(5));
    }
}

/// A frame of a sender is decrypted with the key that is held for them, as the
/// decryptor does it.
pub proof fn frames_are_decrypted_with_sender_key(
    session: &SigilSession,
    sender: UserId,
    frame: &[u8],
    r: Result<Vec<u8>, SigilError>,
    key: &[u8; KEY_LENGTH],
    with_key: Result<Vec<u8>, SigilError>,
    direct: Result<Vec<u8>, SigilError>,
)
    requires
        session@.sender_keys.contains_key(sender),
        session@.sender_keys[sender] == *key,
        call_ensures(SigilSession::decrypt_from_sender, (session, sender, frame), r),
        call_ensures(SigilSession::decrypt_frame, (session, key, frame), with_key),
        call_ensures(FrameDecryptor::decrypt, (key, frame), direct),
    ensures
        direct matches Ok(raw) ==> (r matches Ok(found) && found@ == raw@) && (
        with_key matches Ok(found) && found@ == raw@),
        direct matches Err(e) ==> r == Err::<Vec<u8>, SigilError>(e) && with_key == Err::<
            Vec<u8>,
            SigilError,
        >(e),
{
}

} // verus!
