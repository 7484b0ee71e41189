use openmls::prelude::tls_codec::Serialize;
use openmls::prelude::{
    BasicCredential, Ciphersuite, CredentialWithKey, ExternalProposal, GroupEpoch, GroupId,
    MlsGroup, MlsGroupCreateConfig, MlsMessageOut, SenderExtensionIndex, SignaturePublicKey,
};
use openmls_basic_credential::SignatureKeyPair;
use openmls_rust_crypto::OpenMlsRustCrypto;
use sigil::mls::credential::{identity_of_user, MlsCredential};
use sigil::mls::generate_key_package;
use sigil::voice::driver::{refresh_keys, DriverState, HeartbeatAction, TextEvent};
use sigil::voice::gateway::Speaking;
use sigil::{SigilError, SigilSession};

const SUITE: Ciphersuite = Ciphersuite::MLS_128_DHKEMP256_AES128GCM_SHA256_P256;

#[test]
fn heartbeats_carry_the_last_sequence_number() {
    let mut state = DriverState::new(7);
    let session = SigilSession::new(1).unwrap();
    assert_eq!(
        state.on_heartbeat_tick(1000),
        HeartbeatAction::Send { nonce: 1000, seq_ack: None }
    );
    state.note_sequence(Some(5));
    state.note_sequence(None);
    state.on_text(TextEvent::HeartbeatAck, &session);
    assert_eq!(
        state.on_heartbeat_tick(2000),
        HeartbeatAction::Send { nonce: 2000, seq_ack: Some(5) }
    );
}

#[test]
fn third_missed_heartbeat_closes() {
    let mut state = DriverState::new(7);
    let session = SigilSession::new(1).unwrap();
    for t in 0..3 {
        assert!(matches!(state.on_heartbeat_tick(t), HeartbeatAction::Send { .. }));
    }
    assert_eq!(state.on_heartbeat_tick(3), HeartbeatAction::Close);
    let mut state = DriverState::new(7);
    for t in 0..100 {
        assert!(matches!(state.on_heartbeat_tick(t), HeartbeatAction::Send { .. }));
        if t % 2 == 1 {
            state.on_text(TextEvent::HeartbeatAck, &session);
        }
    }
}

#[test]
fn speakers_are_noted() {
    let mut state = DriverState::new(7);
    let session = SigilSession::new(1).unwrap();
    let message = |user_id: Option<&str>| {
        TextEvent::Speaking(Speaking {
            speaking: 1,
            delay: 0,
            ssrc: 99,
            user_id: user_id.map(|id| id.to_string()),
        })
    };
    assert!(state.on_text(message(None), &session).is_empty());
    assert!(state.on_text(message(Some("nobody")), &session).is_empty());
    assert_eq!(state.speaker(99), None);
    state.on_text(message(Some("123")), &session);
    assert_eq!(state.speaker(99), Some(123));
}

#[test]
fn transitions_are_acknowledged() {
    let mut state = DriverState::new(7);
    let session = SigilSession::new(1).unwrap();
    assert_eq!(
        state.on_text(TextEvent::PrepareTransition(0x51234), &session),
        vec![vec![0, 0, 23, 0x34, 0x12]]
    );
    assert_eq!(
        state.on_text(TextEvent::PrepareTransition(1), &session),
        vec![vec![0, 1, 23, 1, 0]]
    );
    assert!(state.on_text(TextEvent::Other, &session).is_empty());
}

#[test]
fn key_package_for_epoch_one_alone() {
    let mut state = DriverState::new(7);
    let session = SigilSession::new(1).unwrap();
    assert!(state.on_text(TextEvent::PrepareEpoch(2), &session).is_empty());
    assert!(state.on_text(TextEvent::PrepareEpoch(0), &session).is_empty());
    let frames = state.on_text(TextEvent::PrepareEpoch(1), &session);
    assert_eq!(frames.len(), 1);
    assert_eq!(frames[0][..3], [0, 0, 26]);
    assert!(frames[0].len() > 100);
    let mut frames = Vec::new();
    state.offer_key_package(&mut frames, &Ok(vec![8, 9]));
    assert_eq!(frames, vec![vec![0, 1, 26, 8, 9]]);
    state.offer_key_package(&mut frames, &Err(SigilError::GroupNotEstablished));
    assert_eq!(frames.len(), 1);
}

#[test]
fn answers_to_proposals() {
    let mut state = DriverState::new(0x0102_0304);
    let mut frames = Vec::new();
    state.answer_proposals(&mut frames, 0x0605, &[10, 11], &Some(vec![12]), true, true);
    assert_eq!(frames, vec![vec![0, 0, 28, 5, 6, 10, 11, 12]]);
    assert!(state.is_dave_ready());

    let mut state = DriverState::new(0x0102_0304);
    let mut frames = Vec::new();
    state.answer_proposals(&mut frames, 5, &[10], &None, false, false);
    assert_eq!(frames, vec![vec![0, 0, 28, 5, 0, 10], vec![0, 1, 23, 5, 0]]);
    assert!(!state.is_dave_ready());

    let mut frames = Vec::new();
    state.answer_proposals(&mut frames, 6, &[10], &None, false, true);
    assert_eq!(
        frames,
        vec![
            vec![0, 2, 28, 6, 0, 10],
            vec![0, 3, 23, 6, 0],
            vec![0, 4, 12, 4, 3, 2, 1],
        ]
    );
    assert!(state.is_dave_ready());
}

#[test]
fn encryption_ready_once_per_epoch() {
    let mut state = DriverState::new(1);
    let session = SigilSession::new(1).unwrap();
    let mut frames = Vec::new();
    state.answer_transition(&mut frames, 2, false);
    assert_eq!(frames, vec![vec![0, 0, 23, 2, 0], vec![0, 1, 12, 1, 0, 0, 0]]);
    assert!(!state.is_dave_ready());
    frames.clear();
    state.answer_transition(&mut frames, 3, true);
    assert_eq!(frames, vec![vec![0, 2, 23, 3, 0]]);
    assert!(state.is_dave_ready());
    state.on_text(TextEvent::ExecuteTransition, &session);
    frames.clear();
    state.answer_transition(&mut frames, 4, true);
    assert_eq!(frames, vec![vec![0, 3, 23, 4, 0], vec![0, 4, 12, 1, 0, 0, 0]]);
}

#[test]
fn malformed_binary_messages_are_passed_over() {
    let mut state = DriverState::new(1);
    let mut session = SigilSession::new(1).unwrap();
    for message in [vec![], vec![0, 0], vec![0, 0, 99, 1], vec![0, 0, 27, 1], vec![0, 0, 25]] {
        assert!(state.on_binary(&mut session, &message).is_empty());
    }
    assert!(!session.is_established());
    // Proposals before an external sender, and a welcome that is none.
    assert!(state.on_binary(&mut session, &[0, 0, 27, 1, 0, 0, 9, 9]).is_empty());
    assert!(state.on_binary(&mut session, &[0, 0, 30, 1, 0, 9, 9]).is_empty());
    // An announced commit is answered whatever comes of it.
    assert_eq!(
        state.on_binary(&mut session, &[0, 0, 29, 1, 0, 9, 9]),
        vec![vec![0, 0, 23, 1, 0], vec![0, 1, 12, 1, 0, 0, 0]]
    );
}

fn binary(opcode: u8, payload: &[u8]) -> Vec<u8> {
    let mut message = vec![0, 0, opcode];
    message.extend_from_slice(payload);
    message
}

#[test]
fn first_member_commits_the_gateway_proposals() {
    let keys = SignatureKeyPair::new(SUITE.signature_algorithm()).unwrap();
    let credential: openmls::prelude::Credential =
        BasicCredential::new(b"voice gateway".to_vec()).into();
    let mut sender = SignaturePublicKey::from(keys.to_public_vec())
        .tls_serialize_detached()
        .unwrap();
    sender.extend_from_slice(&credential.tls_serialize_detached().unwrap());
    let mut session = SigilSession::new(100).unwrap();
    let newcomer = SigilSession::new(200).unwrap();
    let mut state = DriverState::new(1);
    assert!(state.on_binary(&mut session, &binary(25, &sender)).is_empty());
    assert!(!session.is_established());

    let package = generate_key_package(newcomer.identity(), newcomer.provider()).unwrap();
    let proposal: MlsMessageOut = ExternalProposal::new_add::<OpenMlsRustCrypto>(
        package,
        GroupId::from_slice(b"channel 9"),
        GroupEpoch::from(0),
        &keys,
        SenderExtensionIndex::new(0),
    )
    .unwrap();
    let mut payload = vec![3, 0, 0];
    payload.extend_from_slice(&proposal.tls_serialize_detached().unwrap());
    let frames = state.on_binary(&mut session, &binary(27, &payload));
    assert_eq!(frames.len(), 1);
    assert_eq!(frames[0][..5], [0, 0, 28, 3, 0]);
    assert_eq!(session.current_epoch(), Some(1));
    assert_eq!(session.group_member_ids(), vec![100, 200]);
    assert!(session.has_own_key());
    assert!(state.is_dave_ready());

    // A batch that cannot be handled is answered with a commit of our own.
    let frames = state.on_binary(&mut session, &binary(27, &[4, 0, 0, 9, 9]));
    assert_eq!(frames.len(), 3);
    assert_eq!(frames[0][..5], [0, 1, 28, 4, 0]);
    assert_eq!(frames[1], [0, 2, 23, 4, 0]);
    assert_eq!(frames[2], [0, 3, 12, 1, 0, 0, 0]);
    assert_eq!(session.current_epoch(), Some(2));
    assert_eq!(session.group_member_ids(), vec![100, 200]);
}

#[test]
fn member_joins_and_follows() {
    let mut session = SigilSession::new(100).unwrap();
    let mut state = DriverState::new(1);
    let provider = OpenMlsRustCrypto::default();
    let keys = SignatureKeyPair::new(SUITE.signature_algorithm()).unwrap();
    let owner = CredentialWithKey {
        credential: BasicCredential::new(identity_of_user(300)).into(),
        signature_key: keys.public().into(),
    };
    let config = MlsGroupCreateConfig::builder()
        .ciphersuite(SUITE)
        .use_ratchet_tree_extension(true)
        .build();
    let mut group = MlsGroup::new(&provider, &keys, &config, owner).unwrap();
    let package = generate_key_package(session.identity(), session.provider()).unwrap();
    let (_, welcome, _) = group.add_members(&provider, &keys, &[package]).unwrap();
    group.merge_pending_commit(&provider).unwrap();
    let mut payload = vec![1, 0];
    payload.extend_from_slice(&welcome.tls_serialize_detached().unwrap());
    let frames = state.on_binary(&mut session, &binary(30, &payload));
    assert_eq!(frames, vec![vec![0, 0, 23, 1, 0], vec![0, 1, 12, 1, 0, 0, 0]]);
    assert!(state.is_dave_ready());
    assert_eq!(session.group_member_ids(), vec![300, 100]);

    let bundle = group.commit_to_pending_proposals(&provider, &keys).unwrap();
    group.merge_pending_commit(&provider).unwrap();
    let mut payload = vec![2, 0];
    payload.extend_from_slice(&bundle.0.tls_serialize_detached().unwrap());
    let frames = state.on_binary(&mut session, &binary(29, &payload));
    assert_eq!(frames, vec![vec![0, 2, 23, 2, 0]]);
    assert_eq!(session.current_epoch(), Some(2));
}

#[test]
fn refreshing_keys_needs_a_group() {
    let mut session = SigilSession::new(100).unwrap();
    assert!(!refresh_keys(&mut session));
    assert!(!session.has_own_key());
}

#[test]
fn member_gets_own_key_on_refresh() {
    let mut session = SigilSession::new(100).unwrap();
    let credential = MlsCredential { credential_type: 1, content: vec![1] };
    session.create_group(credential, vec![4; 65], b"channel").unwrap();
    assert!(refresh_keys(&mut session));
    assert!(session.has_own_key());
    session.commit_and_welcome().unwrap();
    assert!(refresh_keys(&mut session));
}
