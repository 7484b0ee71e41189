use sigil::crypto::codec::Codec;
use sigil::crypto::key_ratchet::KeyRatchet;
use sigil::gateway::handler::DaveEvent;
use sigil::gateway::SessionState;
use sigil::mls::credential::MlsCredential;
use sigil::{SigilError, SigilSession};
use std::collections::HashMap;

#[test]
fn fresh_session_holds_nothing() {
    let session = SigilSession::new(42).unwrap();
    assert_eq!(session.user_id, 42);
    assert_eq!(session.own_user_id(), 42);
    assert!(!session.is_established());
    assert!(!session.has_own_key());
    assert!(!session.has_pending_proposals());
    assert!(!session.is_exhausted());
    assert_eq!(session.current_epoch(), None);
    assert!(session.group_member_ids().is_empty());
    assert!(session.mls_group().is_none());
    assert_eq!(*session.session_state(), SessionState::Disconnected);
    assert_eq!(session.identity().user_id, 42);
}

#[test]
fn basic_usage() {
    let mut session = SigilSession::new(123456789012345678).unwrap();
    let key_package = session.generate_key_package().unwrap();
    assert!(!key_package.is_empty());
    let raw_opus = vec![0u8; 960];
    let encrypted = session.encrypt_frame(&[0x42; 16], &raw_opus, Codec::Opus).unwrap();
    assert_eq!(session.decrypt_frame(&[0x42; 16], &encrypted).unwrap(), raw_opus);
    assert!(matches!(
        session.decrypt_frame(&[0x37; 16], &encrypted),
        Err(SigilError::DecryptionFailed)
    ));
    assert_eq!(session.gateway_session().current_nonce(), 1);
}

#[test]
fn group_is_created() {
    let mut session = SigilSession::new(42).unwrap();
    let credential = MlsCredential { credential_type: 1, content: vec![1] };
    session.create_group(credential, vec![4; 65], b"channel").unwrap();
    assert!(session.is_established());
    assert_eq!(session.current_epoch(), Some(0));
    assert_eq!(session.group_member_ids(), vec![42]);
    assert_eq!(session.mls_group().unwrap().mls_group().group_id().as_slice(), b"channel");
    let again = MlsCredential { credential_type: 1, content: vec![1] };
    match session.create_group(again, vec![4; 65], b"channel") {
        Err(SigilError::Mls(text)) => assert!(text.starts_with("group creation: ")),
        _ => panic!("the store holds this group already"),
    }
    assert!(session.is_established());
}

#[test]
fn keys_come_from_the_new_epoch() {
    let mut session = SigilSession::new(42).unwrap();
    let credential = MlsCredential { credential_type: 1, content: vec![1] };
    session.create_group(credential, vec![4; 65], b"channel").unwrap();
    let before = session.export_sender_keys(&[42, 43]).unwrap();
    assert_eq!(before.len(), 2);
    assert_eq!(*session.session_state(), SessionState::Established { epoch: 0 });
    session.encrypt_own_frame(b"frame", Codec::Opus).unwrap();
    assert_eq!(session.gateway_session().current_nonce(), 1);
    let (_, welcome) = session.commit_and_welcome().unwrap();
    assert!(welcome.is_none());
    assert_eq!(session.current_epoch(), Some(1));
    assert_eq!(session.group_member_ids(), vec![42]);
    let after = session.export_sender_keys(&[42]).unwrap();
    assert_ne!(before[&42], after[&42]);
    assert_eq!(*session.session_state(), SessionState::Established { epoch: 1 });
    assert_eq!(session.gateway_session().current_nonce(), 0);
    assert_eq!(session.gateway_session().ratchet(42).unwrap().base_secret(), &after[&42]);
    assert_eq!(session.gateway_session().ratchet(43).unwrap().base_secret(), &before[&43]);
    // What was replaced is kept.
    assert_eq!(session.gateway_session().previous_ratchet(42).unwrap().base_secret(), &before[&42]);
    assert!(session.gateway_session().previous_ratchet(43).is_none());
    // Sender keys are those of the last export alone.
    assert!(matches!(
        session.decrypt_from_sender(43, b"x"),
        Err(SigilError::NoSenderKey(43, 0))
    ));
}

#[test]
fn cached_keys() {
    let mut session = SigilSession::new(1).unwrap();
    assert!(matches!(
        session.encrypt_own_frame(b"frame", Codec::Opus),
        Err(SigilError::NoSenderKey(1, 0))
    ));
    assert_eq!(session.gateway_session().current_nonce(), 0);
    session.install_sender_key(2, [2; 16]);
    assert!(!session.has_own_key());
    session.install_sender_key(1, [1; 16]);
    assert!(session.has_own_key());
    let frame = session.encrypt_own_frame(b"frame", Codec::Opus).unwrap();
    assert_eq!(session.decrypt_from_sender(1, &frame).unwrap(), b"frame");
    assert!(matches!(
        session.decrypt_from_sender(2, &frame),
        Err(SigilError::DecryptionFailed)
    ));
    assert!(matches!(
        session.decrypt_from_sender(3, &frame),
        Err(SigilError::NoSenderKey(3, 0))
    ));
    let mut receiver = SigilSession::new(9).unwrap();
    receiver.install_sender_key(1, [1; 16]);
    assert_eq!(receiver.decrypt_from_sender(1, &frame).unwrap(), b"frame");
}

#[test]
fn ratchet_joins_the_gateway_session() {
    let mut session = SigilSession::new(1).unwrap();
    assert!(session.install_ratchet(7, [9; 16]).is_ok());
    assert!(session.gateway_session().has_ratchet(7));
    session.install_ratchet(1, [7; 16]).unwrap();
    assert!(session.has_own_key());
    assert!(session.gateway_session().has_ratchet(1));
    assert_eq!(*session.session_state(), SessionState::Disconnected);
    session.gateway_session_mut().establish(5, HashMap::new());
    session.encrypt_own_frame(b"frame", Codec::Opus).unwrap();
    session.install_ratchet(2, [8; 16]).unwrap();
    assert!(session.gateway_session().has_ratchet(2));
    assert_eq!(session.gateway_session().ratchet(1).unwrap().base_secret(), &[7; 16]);
    assert_eq!(*session.session_state(), SessionState::Established { epoch: 5 });
    assert_eq!(session.gateway_session().current_nonce(), 0);
}

#[test]
fn own_key_serves_every_frame_without_a_ratchet() {
    let mut session = SigilSession::new(1).unwrap();
    session.install_sender_key(1, [7; 16]);
    for _ in 0..0x100_0000 {
        session.gateway_session_mut().next_nonce();
    }
    let frame = session.encrypt_own_frame(b"frame", Codec::Opus).unwrap();
    assert_eq!(session.decrypt_from_sender(1, &frame).unwrap(), b"frame");
}

#[test]
fn later_generations_take_the_ratchet_key() {
    let mut session = SigilSession::new(1).unwrap();
    session.install_sender_key(1, [7; 16]);
    let mut ratchets = HashMap::new();
    ratchets.insert(1, KeyRatchet::new([7; 16]));
    session.gateway_session_mut().establish(1, ratchets);
    for _ in 0..0x100_0000 {
        session.gateway_session_mut().next_nonce();
    }
    let frame = session.encrypt_own_frame(b"frame", Codec::Opus).unwrap();
    let key = KeyRatchet::new([7; 16]).get(1).unwrap();
    assert_eq!(session.decrypt_frame(&key, &frame).unwrap(), b"frame");
    assert!(matches!(
        session.decrypt_from_sender(1, &frame),
        Err(SigilError::DecryptionFailed)
    ));
    assert_eq!(session.gateway_session().ratchet(1).unwrap().current_generation(), 1);
    session.gateway_session_mut().ratchet_mut(1).unwrap().erase_before(2);
    assert!(matches!(
        session.encrypt_own_frame(b"frame", Codec::Opus),
        Err(SigilError::GenerationErased { generation: 1, current: 1 })
    ));
}

#[test]
fn events_are_dispatched() {
    let session = SigilSession::new(1).unwrap();
    match session.handle_gateway_event(30, &[0, 0, 30, 1, 0, 9]).unwrap() {
        DaveEvent::MlsWelcome(payload) => assert_eq!(payload.welcome_bytes, vec![9]),
        _ => panic!("opcode 30 is a welcome"),
    }
    assert!(matches!(
        session.handle_gateway_event(20, &[]),
        Err(SigilError::UnknownOpcode(20))
    ));
}

#[test]
fn disconnect_clears_everything() {
    let mut session = SigilSession::new(42).unwrap();
    let credential = MlsCredential { credential_type: 1, content: vec![1] };
    session.create_group(credential, vec![4; 65], b"channel").unwrap();
    session.export_sender_keys(&[42]).unwrap();
    session.disconnect();
    assert!(!session.is_established());
    assert!(!session.has_own_key());
    assert_eq!(*session.session_state(), SessionState::Disconnected);
    assert!(!session.gateway_session().has_ratchet(42));
    assert!(matches!(
        session.decrypt_from_sender(42, b"x"),
        Err(SigilError::NoSenderKey(42, 0))
    ));
    assert_eq!(session.own_user_id(), 42);
}
