use sigil::crypto::key_ratchet::KeyRatchet;
use sigil::gateway::handler::{dispatch, DaveEvent};
use sigil::gateway::{DaveOpcode, DaveSession, SessionState};
use sigil::SigilError;
use std::collections::HashMap;

#[test]
fn opcodes_and_their_numbers() {
    for v in 0..=255u8 {
        match DaveOpcode::from_u8(v) {
            Some(op) => {
                assert!((21..=31).contains(&v));
                assert_eq!(op.to_u8(), v);
                assert_eq!(op.is_binary(), (25..=30).contains(&v));
                assert_eq!(op.is_server_to_client(), ![23, 26, 28, 31].contains(&v));
            }
            None => assert!(!(21..=31).contains(&v)),
        }
    }
    assert_eq!(DaveOpcode::from_u8(27), Some(DaveOpcode::MlsProposals));
}

fn mls_text(result: Result<DaveEvent, SigilError>) -> String {
    match result {
        Err(SigilError::Mls(text)) => text,
        _ => panic!("an MLS error was expected"),
    }
}

#[test]
fn external_sender_is_passed_on_whole() {
    match dispatch(25, &[0, 1, 25, 7, 8, 9]).unwrap() {
        DaveEvent::MlsExternalSender(payload) => {
            assert_eq!(payload.credential, vec![7, 8, 9]);
            assert!(payload.signature_key.is_empty());
        }
        _ => panic!("opcode 25 is an external sender"),
    }
    assert_eq!(mls_text(dispatch(25, &[0, 1, 25])), "MlsExternalSender payload is empty");
    assert_eq!(mls_text(dispatch(25, &[])), "MlsExternalSender payload is empty");
}

#[test]
fn proposals_carry_transition_and_operation() {
    match dispatch(27, &[0, 1, 27, 0x34, 0x12, 1, 5, 6]).unwrap() {
        DaveEvent::MlsProposals { transition_id, operation_type, proposals } => {
            assert_eq!(transition_id, 0x1234);
            assert_eq!(operation_type, 1);
            assert_eq!(proposals, vec![vec![5, 6]]);
        }
        _ => panic!("opcode 27 holds proposals"),
    }
    match dispatch(27, &[0x34, 0x12, 0]).unwrap() {
        DaveEvent::MlsProposals { transition_id, operation_type, proposals } => {
            assert_eq!(transition_id, 0x1234);
            assert_eq!(operation_type, 0);
            assert!(proposals.is_empty());
        }
        _ => panic!("opcode 27 holds proposals"),
    }
    assert_eq!(
        mls_text(dispatch(27, &[0, 1, 27, 9])),
        "MlsProposals payload too short: 1 bytes (need ≥3)"
    );
}

#[test]
fn announced_commit_carries_transition() {
    match dispatch(29, &[0, 9, 29, 2, 0, 0xAA, 0xBB]).unwrap() {
        DaveEvent::MlsAnnounceCommitTransition(payload) => {
            assert_eq!(payload.transition_id, 2);
            assert_eq!(payload.commit_bytes, vec![0xAA, 0xBB]);
        }
        _ => panic!("opcode 29 announces a commit"),
    }
    assert_eq!(
        mls_text(dispatch(29, &[0, 9, 29, 2])),
        "AnnounceCommitTransition payload too short: 1 bytes"
    );
    assert_eq!(
        mls_text(dispatch(29, &[0, 9, 29, 2, 0])),
        "AnnounceCommitTransition has empty commit data"
    );
}

#[test]
fn welcome_carries_transition() {
    match dispatch(30, &[0, 9, 30, 0, 1, 0xCC]).unwrap() {
        DaveEvent::MlsWelcome(payload) => {
            assert_eq!(payload.transition_id, 256);
            assert_eq!(payload.welcome_bytes, vec![0xCC]);
        }
        _ => panic!("opcode 30 is a welcome"),
    }
    assert_eq!(mls_text(dispatch(30, &[5])), "MlsWelcome payload too short: 1 bytes");
    assert_eq!(mls_text(dispatch(30, &[5, 6])), "MlsWelcome has empty welcome data");
}

#[test]
fn other_opcodes_are_unknown() {
    for op in [0u8, 21, 22, 24, 26, 28, 31, 255] {
        match dispatch(op, &[1, 2, 3, 4]) {
            Err(SigilError::UnknownOpcode(got)) => assert_eq!(got, op),
            _ => panic!("only 25, 27, 29 and 30 are dispatched"),
        }
    }
}

#[test]
fn stripped_header_gives_the_same_event() {
    let whole = dispatch(30, &[0, 9, 30, 4, 0, 1, 2, 3]).unwrap();
    let stripped = dispatch(30, &[4, 0, 1, 2, 3]).unwrap();
    match (whole, stripped) {
        (DaveEvent::MlsWelcome(a), DaveEvent::MlsWelcome(b)) => {
            assert_eq!(a.transition_id, b.transition_id);
            assert_eq!(a.welcome_bytes, b.welcome_bytes);
        }
        _ => panic!("opcode 30 is a welcome"),
    }
}

#[test]
fn session_goes_through_its_states() {
    let mut session = DaveSession::new(7);
    assert_eq!(session.user_id, 7);
    assert_eq!(session.state, SessionState::Disconnected);
    session.begin_negotiation(3);
    assert_eq!(session.state, SessionState::Negotiating { epoch: 3 });
    let mut ratchets = HashMap::new();
    ratchets.insert(7, KeyRatchet::new([1; 16]));
    session.establish(4, ratchets);
    assert_eq!(*session.state(), SessionState::Established { epoch: 4 });
    assert!(session.has_ratchet(7));
    session.reset();
    assert_eq!(session.state, SessionState::Disconnected);
    assert!(!session.has_ratchet(7));
}

#[test]
fn establishing_merges_ratchets_and_restarts_the_nonce() {
    let mut session = DaveSession::new(1);
    let mut first = HashMap::new();
    first.insert(1, KeyRatchet::new([1; 16]));
    first.insert(2, KeyRatchet::new([2; 16]));
    session.establish(1, first);
    assert_eq!(session.next_nonce(), 0);
    assert_eq!(session.next_nonce(), 1);
    assert_eq!(session.current_nonce(), 2);
    let mut second = HashMap::new();
    second.insert(2, KeyRatchet::new([9; 16]));
    second.insert(3, KeyRatchet::new([3; 16]));
    session.establish(2, second);
    assert_eq!(session.current_nonce(), 0);
    assert_eq!(session.ratchet(1).unwrap().base_secret(), &[1; 16]);
    assert_eq!(session.ratchet(2).unwrap().base_secret(), &[9; 16]);
    assert_eq!(session.ratchet(3).unwrap().base_secret(), &[3; 16]);
    assert!(session.ratchet(4).is_none());
}

#[test]
fn ratchet_can_be_moved_on_in_place() {
    let mut session = DaveSession::new(1);
    let mut ratchets = HashMap::new();
    ratchets.insert(1, KeyRatchet::new([1; 16]));
    session.establish(1, ratchets);
    session.ratchet_mut(1).unwrap().get(3).unwrap();
    assert_eq!(session.ratchet(1).unwrap().current_generation(), 3);
    assert!(session.ratchet_mut(2).is_none());
}

#[test]
fn nonces_count_up_and_can_be_reset() {
    let mut session = DaveSession::new(1);
    for expected in 0..1000 {
        assert_eq!(session.next_nonce(), expected);
    }
    session.reset_nonce();
    assert_eq!(session.current_nonce(), 0);
}

#[test]
fn error_messages() {
    let cases = [
        (SigilError::Mls("x".to_string()), "MLS operation failed: x"),
        (SigilError::GroupNotEstablished, "MLS group not established"),
        (SigilError::InvalidExternalSender, "Invalid external sender"),
        (
            SigilError::DuplicateCredential(12),
            "Duplicate credential in group for user 12",
        ),
        (
            SigilError::GenerationErased { generation: 3, current: 10 },
            "Generation 3 already erased (current: 10)",
        ),
        (SigilError::RatchetExhausted(255), "Key ratchet exhausted at generation 255"),
        (
            SigilError::DecryptionFailed,
            "Decryption failed: invalid authentication tag",
        ),
        (SigilError::NonceReuse(0), "Nonce reuse detected: nonce 0 already consumed"),
        (SigilError::InvalidMagic, "Invalid frame: missing 0xFAFA magic marker"),
        (
            SigilError::FrameTooShort { need: 12, got: 3 },
            "Frame too short: need 12 bytes, got 3",
        ),
        (SigilError::UnknownOpcode(99), "Unknown DAVE opcode: 99"),
        (
            SigilError::EpochMismatch { expected: 1, got: 2 },
            "Epoch mismatch: expected 1, got 2",
        ),
        (
            SigilError::NoSenderKey(18446744073709551615, 4),
            "No sender key for user 18446744073709551615 in epoch 4",
        ),
        (SigilError::TransitionTimeout(5), "Transition 5 timed out"),
        (SigilError::InvalidState("y".to_string()), "Unexpected gateway state: y"),
        (SigilError::Uleb128Overflow, "ULEB128 decode overflow"),
        (SigilError::UnsupportedCodec("z".to_string()), "Unsupported codec: z"),
    ];
    for (error, text) in cases {
        assert_eq!(error.message(), text);
    }
}
