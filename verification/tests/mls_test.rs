use openmls::prelude::tls_codec::{DeserializeBytes, Serialize};
use openmls::prelude::{
    BasicCredential, Ciphersuite, Credential, CredentialType, CredentialWithKey, ExternalProposal,
    GroupEpoch, GroupId, KeyPackage, LeafNodeIndex, MlsGroup, MlsGroupCreateConfig, MlsMessageIn,
    MlsMessageOut, OpenMlsProvider, ProcessedMessageContent, SenderExtensionIndex, SignaturePublicKey,
};
use openmls_basic_credential::SignatureKeyPair;
use openmls_rust_crypto::OpenMlsRustCrypto;
use sigil::mls::credential::{identity_of_user, user_id_from_identity, MlsCredential};
use sigil::mls::backend::Processed;
use sigil::mls::group::{
    extract_group_id_from_proposals, has_unhandled, needs_empty_commit, serialize_commit,
    ProposalOutcome,
};
use sigil::mls::{build_group_config, crypto_provider, generate_key_package, DaveGroup, DaveIdentity};
use sigil::session::mark_signature_key;
use sigil::{SigilError, SigilSession};

const SUITE: Ciphersuite = Ciphersuite::MLS_128_DHKEMP256_AES128GCM_SHA256_P256;

/// A voice gateway that can propose to add members.
struct Gateway {
    provider: OpenMlsRustCrypto,
    keys: SignatureKeyPair,
    credential: Credential,
}

impl Gateway {
    fn new() -> Gateway {
        Gateway {
            provider: OpenMlsRustCrypto::default(),
            keys: SignatureKeyPair::new(SUITE.signature_algorithm()).unwrap(),
            credential: BasicCredential::new(b"voice gateway".to_vec()).into(),
        }
    }

    /// An OP 25 payload: key, then credential.
    fn sender_payload(&self) -> Vec<u8> {
        let key = SignaturePublicKey::from(self.keys.to_public_vec());
        let mut payload = key.tls_serialize_detached().unwrap();
        payload.extend_from_slice(&self.credential.tls_serialize_detached().unwrap());
        payload
    }

    fn propose_add(&self, session: &SigilSession, group_id: &[u8], epoch: u64) -> Vec<u8> {
        let package = generate_key_package(session.identity(), session.provider()).unwrap();
        let message: MlsMessageOut = ExternalProposal::new_add::<OpenMlsRustCrypto>(
            package,
            GroupId::from_slice(group_id),
            GroupEpoch::from(epoch),
            &self.keys,
            SenderExtensionIndex::new(0),
        )
        .unwrap();
        message.tls_serialize_detached().unwrap()
    }
}

fn mls_text<T>(result: Result<T, SigilError>) -> String {
    match result {
        Err(SigilError::Mls(text)) => text,
        Err(other) => panic!("an MLS error was expected, not {}", other.message()),
        Ok(_) => panic!("an MLS error was expected"),
    }
}

#[test]
fn identity_bytes_are_big_endian() {
    assert_eq!(identity_of_user(0x0102_0304_0506_0708), vec![1, 2, 3, 4, 5, 6, 7, 8]);
    assert_eq!(user_id_from_identity(&[1, 2, 3, 4, 5, 6, 7, 8]), Some(0x0102_0304_0506_0708));
    assert_eq!(user_id_from_identity(&[0xFF; 8]), Some(u64::MAX));
    assert_eq!(user_id_from_identity(&[1; 7]), None);
}

#[test]
fn user_id_is_read_out_of_a_credential() {
    let provider = crypto_provider();
    let identity = DaveIdentity::new(987654321, &provider).unwrap();
    let credential = &identity.credential_with_key.credential;
    assert_eq!(credential.credential_type, 1);
    assert_eq!(DaveIdentity::user_id_from_credential(credential).unwrap(), 987654321);
    assert_eq!(identity.credential_with_key.signature_key, identity.signature_keys.public());
    let short = MlsCredential { credential_type: 1, content: vec![1, 2, 3] };
    assert_eq!(
        mls_text(DaveIdentity::user_id_from_credential(&short)),
        "expected 8-byte identity, got 3 bytes"
    );
}

#[test]
fn config_holds_ciphersuite_and_external_sender() {
    let credential = MlsCredential { credential_type: 16449, content: vec![1, 2, 3] };
    let config = build_group_config(credential, vec![4; 65]).unwrap();
    assert_eq!(config.ciphersuite(), SUITE);
    let provider = crypto_provider();
    let identity = DaveIdentity::new(5, &provider).unwrap();
    let group = DaveGroup::create(&identity, &provider, &config, b"some group").unwrap();
    let senders = group.mls_group().extensions().external_senders().unwrap();
    let wanted = openmls::prelude::ExternalSender::new(
        SignaturePublicKey::from(vec![4; 65]),
        Credential::new(CredentialType::Other(16449), vec![1, 2, 3]),
    );
    assert_eq!(senders, &vec![wanted]);
}

#[test]
fn key_package_is_ours() {
    let provider = crypto_provider();
    let identity = DaveIdentity::new(77, &provider).unwrap();
    let package = generate_key_package(&identity, &provider).unwrap();
    assert_eq!(package.ciphersuite(), SUITE);
    assert_eq!(package.leaf_node().credential().serialized_content(), &identity_of_user(77)[..]);
    assert_eq!(package.leaf_node().signature_key().as_slice(), identity.signature_keys.public());
    let capabilities = package.leaf_node().capabilities();
    assert_eq!(capabilities.credentials(), &[CredentialType::Basic]);
}

#[test]
fn fresh_group_has_one_member_in_epoch_zero() {
    let provider = crypto_provider();
    let identity = DaveIdentity::new(42, &provider).unwrap();
    let credential = MlsCredential { credential_type: 1, content: vec![9] };
    let config = build_group_config(credential, vec![4; 65]).unwrap();
    let mut group = DaveGroup::create(&identity, &provider, &config, b"group one").unwrap();
    assert_eq!(group.epoch(), 0);
    assert_eq!(group.current_epoch, 0);
    assert_eq!(group.user_id(), 42);
    assert!(group.is_sole_member());
    assert_eq!(group.member_user_ids(), vec![42]);
    assert!(!group.has_pending_proposals());
    assert_eq!(group.mls_group().group_id().as_slice(), b"group one");
    assert_eq!(group.epoch_authenticator(), group.mls_group().epoch_authenticator().as_slice());
    assert!(!group.epoch_authenticator().is_empty());
    assert!(!group.is_exhausted());
    // The store refuses an id that it already holds.
    let again = DaveGroup::create(&identity, &provider, &config, b"group one");
    assert!(mls_text(again).starts_with("group creation: "));
    // A failed recreation leaves the group as it was.
    let failed = group.recreate_with_group_id(&identity, &provider, &config, b"group one");
    assert!(mls_text(failed).starts_with("recreate group: "));
    assert_eq!(group.mls_group().group_id().as_slice(), b"group one");
    group.recreate_with_group_id(&identity, &provider, &config, b"group two").unwrap();
    assert_eq!(group.mls_group_mut().group_id().as_slice(), b"group two");
}

#[test]
fn commits_advance_the_epoch_when_merged() {
    let provider = crypto_provider();
    let identity = DaveIdentity::new(42, &provider).unwrap();
    let credential = MlsCredential { credential_type: 1, content: vec![9] };
    let config = build_group_config(credential, vec![4; 65]).unwrap();
    let mut group = DaveGroup::create(&identity, &provider, &config, b"g").unwrap();
    let key = group.export_sender_key(42, &provider).unwrap();
    let commit = group.commit_empty(&provider, &identity.signature_keys).unwrap();
    assert!(!commit.is_empty());
    assert_eq!(group.epoch(), 0);
    assert_eq!(group.export_sender_key(42, &provider).unwrap(), key);
    group.merge_own_pending_commit(&provider).unwrap();
    assert_eq!(group.epoch(), 1);
    assert_ne!(group.export_sender_key(42, &provider).unwrap(), key);
    // Without a pending commit merging changes nothing.
    group.merge_own_pending_commit(&provider).unwrap();
    assert_eq!(group.epoch(), 1);
    assert_ne!(group.export_sender_key(42, &provider).unwrap(), key);
}

#[test]
fn exported_key_follows_label_and_sender() {
    let provider = crypto_provider();
    let identity = DaveIdentity::new(42, &provider).unwrap();
    let credential = MlsCredential { credential_type: 1, content: vec![9] };
    let config = build_group_config(credential, vec![4; 65]).unwrap();
    let group = DaveGroup::create(&identity, &provider, &config, b"g").unwrap();
    let sender = 0x0102_0304_0506_0708u64;
    let wanted = group
        .mls_group()
        .export_secret(
            provider.crypto(),
            "Discord Secure Frames v0",
            &[8, 7, 6, 5, 4, 3, 2, 1],
            16,
        )
        .unwrap();
    assert_eq!(group.export_sender_key(sender, &provider).unwrap()[..], wanted[..]);
    assert_ne!(group.export_sender_key(42, &provider).unwrap()[..], wanted[..]);
}

#[test]
fn batch_outcomes_decide_on_the_empty_commit() {
    assert!(!needs_empty_commit(&[]));
    assert!(!needs_empty_commit(&[ProposalOutcome::Empty, ProposalOutcome::Other]));
    assert!(needs_empty_commit(&[ProposalOutcome::Empty, ProposalOutcome::Unreadable]));
    assert!(needs_empty_commit(&[ProposalOutcome::Rejected, ProposalOutcome::Other]));
    assert!(!needs_empty_commit(&[ProposalOutcome::Unreadable, ProposalOutcome::Stored]));
    assert!(needs_empty_commit(&[ProposalOutcome::NotStored, ProposalOutcome::Rejected]));
    assert!(needs_empty_commit(&[ProposalOutcome::Rejected, ProposalOutcome::Commit]));
    assert!(!needs_empty_commit(&[ProposalOutcome::NotStored, ProposalOutcome::Commit]));
    assert!(has_unhandled(&[ProposalOutcome::Stored, ProposalOutcome::Unreadable]));
    assert!(has_unhandled(&[ProposalOutcome::Rejected]));
    assert!(!has_unhandled(&[ProposalOutcome::Stored, ProposalOutcome::Empty]));
}

#[test]
fn unreadable_entry_is_told_beside_a_stored_one() {
    let gateway = Gateway::new();
    let provider = crypto_provider();
    let identity = DaveIdentity::new(42, &provider).unwrap();
    let credential = MlsCredential {
        credential_type: 1,
        content: gateway.credential.serialized_content().to_vec(),
    };
    let config = build_group_config(credential, gateway.keys.to_public_vec()).unwrap();
    let newcomer = SigilSession::new(200).unwrap();
    let proposal = gateway.propose_add(&newcomer, b"channel 9", 0);
    let mut group = DaveGroup::create(&identity, &provider, &config, b"channel 9").unwrap();
    assert_eq!(group.process_proposals(&[vec![], proposal.clone()], &provider).unwrap(), false);
    assert!(group.has_pending_proposals());
    let batch = [vec![9, 9], proposal.clone(), vec![]];
    assert_eq!(group.process_proposals(&batch, &provider).unwrap(), true);
    assert_eq!(
        group.process_batch(&batch, &provider),
        vec![ProposalOutcome::Unreadable, ProposalOutcome::Stored, ProposalOutcome::Empty]
    );
    // A session leaves such a batch to the commit of what was stored.
    let mut session = SigilSession::new(100).unwrap();
    session.set_external_sender(&gateway.sender_payload()).unwrap();
    assert_eq!(session.process_proposals(&batch).unwrap(), false);
    assert!(session.has_pending_proposals());
}

/// What a group makes of a message.
fn processed(group: &mut DaveGroup, provider: &OpenMlsRustCrypto, data: &[u8]) -> Processed {
    let message = MlsMessageIn::tls_deserialize_exact_bytes(data).unwrap();
    let message = message.try_into_protocol_message().unwrap();
    let content = group.mls_group_mut().process_message(provider, message).unwrap();
    match content.into_content() {
        ProcessedMessageContent::ProposalMessage(proposal) => Processed::Proposal(proposal),
        ProcessedMessageContent::StagedCommitMessage(commit) => Processed::Commit(commit),
        _ => Processed::Other,
    }
}

#[test]
fn proposals_are_stored_and_commits_are_merged() {
    let provider = crypto_provider();
    let identity = DaveIdentity::new(42, &provider).unwrap();
    let package = generate_key_package(&identity, &provider).unwrap();
    let (host, keys, mut hosted, welcome) = group_with(package);
    let mut group = DaveGroup::join_from_welcome(&identity, &provider, &welcome).unwrap();
    assert_eq!(group.epoch(), 1);
    let third = SigilSession::new(200).unwrap();
    let package = generate_key_package(third.identity(), third.provider()).unwrap();
    let (proposal, _) = hosted.propose_add_member(&host, &keys, &package).unwrap();
    let proposal = proposal.tls_serialize_detached().unwrap();
    let taken = processed(&mut group, &provider, &proposal);
    assert_eq!(group.take_proposal(Ok(taken), &provider), ProposalOutcome::Stored);
    assert!(group.has_pending_proposals());
    let refused = group.take_proposal(Err("refused".to_string()), &provider);
    assert_eq!(refused, ProposalOutcome::Rejected);
    assert_eq!(group.take_proposal(Ok(Processed::Other), &provider), ProposalOutcome::Other);
    assert!(group.take_processed(Processed::Other, &provider).is_ok());
    assert_eq!(group.epoch(), 1);
    let bundle = hosted.commit_to_pending_proposals(&host, &keys).unwrap();
    let commit = bundle.0.tls_serialize_detached().unwrap();
    let taken = processed(&mut group, &provider, &commit);
    assert!(group.take_processed(taken, &provider).is_ok());
    assert_eq!(group.epoch(), 2);
    assert_eq!(group.member_user_ids(), vec![300, 42, 200]);
    assert!(!group.has_pending_proposals());
}

#[test]
fn commit_and_welcome_are_both_serialized() {
    let session = SigilSession::new(100).unwrap();
    let provider = OpenMlsRustCrypto::default();
    let keys = SignatureKeyPair::new(SUITE.signature_algorithm()).unwrap();
    let owner = CredentialWithKey {
        credential: BasicCredential::new(identity_of_user(300)).into(),
        signature_key: keys.public().into(),
    };
    let config = MlsGroupCreateConfig::builder().ciphersuite(SUITE).build();
    let mut group = MlsGroup::new(&provider, &keys, &config, owner).unwrap();
    let package = generate_key_package(session.identity(), session.provider()).unwrap();
    let (commit, welcome, _) = group.add_members(&provider, &keys, &[package]).unwrap();
    let (commit_bytes, welcome_bytes) = serialize_commit(&commit, &Some(welcome.clone())).unwrap();
    assert_eq!(commit_bytes, commit.tls_serialize_detached().unwrap());
    assert_eq!(welcome_bytes, Some(welcome.tls_serialize_detached().unwrap()));
    assert_eq!(serialize_commit(&commit, &None).unwrap(), (commit_bytes, None));
}

#[test]
fn length_prefix_that_is_not_allowed_is_unreadable() {
    let mut session = SigilSession::new(100).unwrap();
    let refused = session.set_external_sender(&[0xC0, 1, 0xFF, 4]);
    assert_eq!(mls_text(refused), "credential deserialize: InvalidVectorLength");
    // Such a byte where the key would start, but a readable credential behind.
    let gateway = Gateway::new();
    let credential = Credential::new(CredentialType::Other(0xC001), vec![5]);
    let mut payload = credential.tls_serialize_detached().unwrap();
    payload.extend_from_slice(gateway.keys.public());
    assert!(session.set_external_sender(&payload).is_ok());
}

#[test]
fn raw_signature_key_is_marked() {
    let marked = mark_signature_key(vec![7; 64]);
    assert_eq!(marked.len(), 65);
    assert_eq!(marked[0], 4);
    assert_eq!(marked[1..], [7; 64]);
    assert_eq!(mark_signature_key(vec![4; 65]), vec![4; 65]);
    assert_eq!(mark_signature_key(vec![2; 33]), vec![2; 33]);
    assert_eq!(mark_signature_key(vec![]), Vec::<u8>::new());
}

#[test]
fn group_id_comes_from_the_first_readable_message() {
    let gateway = Gateway::new();
    let other = SigilSession::new(200).unwrap();
    let first = gateway.propose_add(&other, b"channel 9", 0);
    let second = gateway.propose_add(&other, b"channel 10", 0);
    let batch = vec![vec![], vec![1, 2, 3], first, second];
    assert_eq!(extract_group_id_from_proposals(&batch), Some(b"channel 9".to_vec()));
    assert_eq!(extract_group_id_from_proposals(&[vec![], vec![0, 1, 2]]), None);
    assert_eq!(extract_group_id_from_proposals(&[]), None);
}

#[test]
fn proposals_without_sender_or_group_are_refused() {
    let mut session = SigilSession::new(100).unwrap();
    assert!(matches!(
        session.process_proposals(&[vec![1, 2, 3]]),
        Err(SigilError::GroupNotEstablished)
    ));
    session.set_external_sender(&Gateway::new().sender_payload()).unwrap();
    // No group id can be read: the sender is used up all the same.
    assert!(matches!(
        session.process_proposals(&[vec![1, 2, 3]]),
        Err(SigilError::GroupNotEstablished)
    ));
    assert!(!session.is_established());
    assert!(matches!(
        session.process_proposals(&[vec![1, 2, 3]]),
        Err(SigilError::GroupNotEstablished)
    ));
    assert!(matches!(session.commit_and_welcome(), Err(SigilError::GroupNotEstablished)));
    assert!(matches!(session.process_commit(&[1]), Err(SigilError::GroupNotEstablished)));
    assert!(matches!(session.export_sender_keys(&[100]), Err(SigilError::GroupNotEstablished)));
}

#[test]
fn gateway_adds_a_member() {
    let gateway = Gateway::new();
    let mut session = SigilSession::new(100).unwrap();
    let newcomer = SigilSession::new(200).unwrap();
    session.set_external_sender(&gateway.sender_payload()).unwrap();
    let batch = vec![gateway.propose_add(&newcomer, b"channel 9", 0)];
    assert_eq!(session.process_proposals(&batch).unwrap(), false);
    assert!(session.is_established());
    assert!(session.has_pending_proposals());
    assert_eq!(session.current_epoch(), Some(0));
    assert_eq!(session.group_member_ids(), vec![100]);
    let (commit, welcome) = session.commit_and_welcome().unwrap();
    assert!(!commit.is_empty());
    assert!(welcome.is_some());
    assert_eq!(session.current_epoch(), Some(1));
    assert!(!session.has_pending_proposals());
    assert_eq!(session.group_member_ids(), vec![100, 200]);
    let keys = session.export_sender_keys(&[100, 200]).unwrap();
    assert_eq!(keys.len(), 2);
    assert_ne!(keys[&100], keys[&200]);
    assert!(session.has_own_key());
    // Without a proposal that adds a member there is no Welcome.
    assert!(session.commit_and_welcome().unwrap().1.is_none());
}

#[test]
fn unhandled_batch_calls_for_an_empty_commit() {
    let gateway = Gateway::new();
    let mut session = SigilSession::new(100).unwrap();
    session.set_external_sender(&gateway.sender_payload()).unwrap();
    let newcomer = SigilSession::new(200).unwrap();
    // The right group but the wrong epoch: the group refuses the proposal.
    let batch = vec![vec![], gateway.propose_add(&newcomer, b"channel 9", 5)];
    assert_eq!(session.process_proposals(&batch).unwrap(), true);
    assert!(!session.has_pending_proposals());
    assert_eq!(session.process_proposals(&[vec![], vec![]]).unwrap(), false);
    assert_eq!(session.process_proposals(&[vec![9, 9]]).unwrap(), true);
}

#[test]
fn external_sender_in_either_order() {
    let gateway = Gateway::new();
    let mut session = SigilSession::new(100).unwrap();
    // Credential first, then the raw point without its marker byte.
    let mut payload = gateway.credential.tls_serialize_detached().unwrap();
    payload.extend_from_slice(&gateway.keys.public()[1..]);
    session.set_external_sender(&payload).unwrap();
    let newcomer = SigilSession::new(200).unwrap();
    let batch = vec![gateway.propose_add(&newcomer, b"channel 9", 0)];
    assert_eq!(session.process_proposals(&batch).unwrap(), false);
    assert!(session.has_pending_proposals());
    let refused = session.set_external_sender(&[]);
    assert!(mls_text(refused).starts_with("credential deserialize: "));
}

#[test]
fn joining_needs_a_welcome() {
    let gateway = Gateway::new();
    let mut session = SigilSession::new(100).unwrap();
    assert!(mls_text(session.join_group(&[1, 2, 3])).starts_with("welcome deserialize: "));
    let other = SigilSession::new(200).unwrap();
    let proposal = gateway.propose_add(&other, b"channel 9", 0);
    assert_eq!(mls_text(session.join_group(&proposal)), "message is not a Welcome");
    assert!(!session.is_established());
}

/// A group of somebody else that `session` is added to.
fn foreign_group(session: &SigilSession) -> (OpenMlsRustCrypto, SignatureKeyPair, MlsGroup, Vec<u8>) {
    group_with(generate_key_package(session.identity(), session.provider()).unwrap())
}

/// A group of somebody else that the owner of `package` is added to.
fn group_with(package: KeyPackage) -> (OpenMlsRustCrypto, SignatureKeyPair, MlsGroup, Vec<u8>) {
    let provider = OpenMlsRustCrypto::default();
    let keys = SignatureKeyPair::new(SUITE.signature_algorithm()).unwrap();
    let owner = CredentialWithKey {
        credential: BasicCredential::new(identity_of_user(300)).into(),
        signature_key: keys.public().into(),
    };
    let config = MlsGroupCreateConfig::builder()
        .ciphersuite(SUITE)
        .use_ratchet_tree_extension(true)
        .build();
    let mut group = MlsGroup::new(&provider, &keys, &config, owner).unwrap();
    let (_, welcome, _) = group.add_members(&provider, &keys, &[package]).unwrap();
    group.merge_pending_commit(&provider).unwrap();
    let bytes = welcome.tls_serialize_detached().unwrap();
    (provider, keys, group, bytes)
}

#[test]
fn member_joins_and_follows_commits() {
    let mut session = SigilSession::new(100).unwrap();
    let (provider, keys, mut group, welcome) = foreign_group(&session);
    session.join_group(&welcome).unwrap();
    assert_eq!(session.current_epoch(), Some(1));
    assert_eq!(session.group_member_ids(), vec![300, 100]);
    let exported = session.export_sender_keys(&[100, 300]).unwrap();
    let wanted = group
        .export_secret(
            provider.crypto(),
            "Discord Secure Frames v0",
            &300u64.to_le_bytes(),
            16,
        )
        .unwrap();
    assert_eq!(exported[&300][..], wanted[..]);
    let bundle = group.commit_to_pending_proposals(&provider, &keys).unwrap();
    group.merge_pending_commit(&provider).unwrap();
    let commit = bundle.0.tls_serialize_detached().unwrap();
    assert_eq!(session.process_commit(&commit).unwrap(), 2);
    assert_eq!(session.current_epoch(), Some(2));
    // The same commit is of a past epoch now.
    assert!(mls_text(session.process_commit(&commit)).starts_with("process commit: "));
    assert!(mls_text(session.process_commit(&[1])).starts_with("commit deserialize: "));
    assert!(mls_text(session.process_commit(&welcome)).starts_with("not a protocol message: "));
    assert_eq!(session.current_epoch(), Some(2));
}

#[test]
fn removed_member_gets_no_more_keys() {
    let mut session = SigilSession::new(100).unwrap();
    let (provider, keys, mut group, welcome) = foreign_group(&session);
    session.join_group(&welcome).unwrap();
    let exported = session.export_sender_keys(&[100]).unwrap();
    let bundle = group.remove_members(&provider, &keys, &[LeafNodeIndex::new(1)]).unwrap();
    let commit = bundle.0.tls_serialize_detached().unwrap();
    assert_eq!(session.process_commit(&commit).unwrap(), 2);
    assert!(mls_text(session.export_sender_keys(&[100])).starts_with("export sender key: "));
    // What was exported before is kept.
    assert_eq!(session.gateway_session().ratchet(100).unwrap().base_secret(), &exported[&100]);
    assert!(session.export_sender_keys(&[]).unwrap().is_empty());
}
