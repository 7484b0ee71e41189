use aes_gcm::aead::{Aead, KeyInit, Payload};
use aes_gcm::{Aes256Gcm, Key, Nonce};
use sigil::voice::gateway::{
    check_handshake, check_secret_key, gateway_url, identify, parse_user_id, select_protocol,
    socket_address, HandshakeStep, Speaking,
};
use sigil::voice::mixer::{dave_payload, mix_in, to_pcm, Mixer, TickAction, OPUS_SILENCE};
use sigil::voice::receiver::receive_packet;
use sigil::voice::track::{after_read, PlayState, TrackRead, TrackStep};
use sigil::voice::udp::{
    build_ip_discovery, build_rtp_header, discovery_fields, parse_ip_discovery,
    transport_decrypt_rtpsize, transport_encrypt_rtpsize, TransportError,
};
use sigil::voice::driver::{DriverState, TextEvent};
use sigil::voice::ENABLE_DAVE;
use sigil::SigilSession;

const KEY: [u8; 32] = [0x5A; 32];

#[test]
fn discovery_request() {
    let packet = build_ip_discovery(0x0102_0304);
    assert_eq!(packet.len(), 74);
    assert_eq!(packet[..8], [0, 1, 0, 70, 1, 2, 3, 4]);
    assert!(packet[8..].iter().all(|b| *b == 0));
}

#[test]
fn discovery_response() {
    let mut response = [0u8; 74];
    response[8..19].copy_from_slice(b"203.0.113.7");
    response[72] = 0xC3;
    response[73] = 0x50;
    assert_eq!(parse_ip_discovery(&response), ("203.0.113.7".to_string(), 50000));
    assert_eq!(discovery_fields(&response), (b"203.0.113.7".to_vec(), 50000));
}

#[test]
fn discovery_response_without_terminator() {
    let mut response = [b'1'; 74];
    response[72] = 0;
    response[73] = 80;
    let (address, port) = parse_ip_discovery(&response);
    assert_eq!(address, "1".repeat(64));
    assert_eq!(port, 80);
}

#[test]
fn discovery_response_with_broken_text() {
    let mut response = [0u8; 74];
    response[8] = 0xFF;
    response[9] = b'x';
    assert_eq!(parse_ip_discovery(&response).0, "\u{FFFD}x");
}

#[test]
fn rtp_header_bytes() {
    assert_eq!(
        build_rtp_header(0x0102, 0x0304_0506, 0x0708_090A),
        [0x80, 0x78, 1, 2, 3, 4, 5, 6, 7, 8, 9, 10]
    );
}

#[test]
fn transport_is_aes_256_gcm() {
    let header = build_rtp_header(1, 960, 77);
    let packet = transport_encrypt_rtpsize(&KEY, &header, b"payload", 0x0102_0304).unwrap();
    let cipher = Aes256Gcm::new(Key::<Aes256Gcm>::from_slice(&KEY));
    let nonce = [0, 0, 0, 0, 0, 0, 0, 0, 1, 2, 3, 4];
    let sealed = cipher
        .encrypt(Nonce::from_slice(&nonce), Payload { msg: b"payload", aad: &header })
        .unwrap();
    let mut wanted = header.to_vec();
    wanted.extend_from_slice(&sealed);
    wanted.extend_from_slice(&[1, 2, 3, 4]);
    assert_eq!(packet, wanted);
    assert_eq!(transport_decrypt_rtpsize(&KEY, &packet).unwrap(), b"payload");
}

#[test]
fn transport_refuses_what_is_not_right() {
    let header = build_rtp_header(1, 960, 77);
    let packet = transport_encrypt_rtpsize(&KEY, &header, b"payload", 9).unwrap();
    assert_eq!(transport_decrypt_rtpsize(&KEY, &packet[..31]), Err(TransportError));
    assert_eq!(transport_decrypt_rtpsize(&[0; 32], &packet), Err(TransportError));
    for at in [0, 13, packet.len() - 5, packet.len() - 1] {
        let mut changed = packet.clone();
        changed[at] ^= 1;
        assert_eq!(transport_decrypt_rtpsize(&KEY, &changed), Err(TransportError));
    }
    let empty = transport_encrypt_rtpsize(&KEY, &header, b"", 9).unwrap();
    assert_eq!(empty.len(), 32);
    assert_eq!(transport_decrypt_rtpsize(&KEY, &empty).unwrap(), b"");
}

#[test]
fn url_of_an_endpoint() {
    assert_eq!(gateway_url("voice.example:443"), "wss://voice.example:443/?v=8");
    assert_eq!(gateway_url("voice.example:80"), "wss://voice.example/?v=8");
    assert_eq!(gateway_url("voice.example:80:80"), "wss://voice.example/?v=8");
    assert_eq!(gateway_url(":80"), "wss:///?v=8");
    assert_eq!(gateway_url("80"), "wss://80/?v=8");
}

#[test]
fn handshake_packets() {
    assert_eq!(check_handshake(HandshakeStep::Hello, Some(8)), Ok(()));
    assert_eq!(check_handshake(HandshakeStep::Ready, Some(2)), Ok(()));
    assert_eq!(
        check_handshake(HandshakeStep::Hello, Some(2)),
        Err("Expected Hello (8), got 2".to_string())
    );
    assert_eq!(
        check_handshake(HandshakeStep::Ready, Some(255)),
        Err("Expected Ready (2), got 255".to_string())
    );
    assert_eq!(
        check_handshake(HandshakeStep::Hello, None),
        Err("Connection closed before Hello".to_string())
    );
    assert_eq!(
        check_handshake(HandshakeStep::Ready, None),
        Err("Connection closed before Ready".to_string())
    );
}

#[test]
fn handshake_messages() {
    let message = identify("1".into(), "2".into(), "3".into(), "4".into());
    assert_eq!(message.server_id, "1");
    assert_eq!(message.user_id, "2");
    assert_eq!(message.session_id, "3");
    assert_eq!(message.token, "4");
    assert_eq!(message.max_dave_protocol_version, Some(1));
    let message = select_protocol("203.0.113.7".into(), 50000);
    assert_eq!(message.protocol, "udp");
    assert_eq!(message.data.address, "203.0.113.7");
    assert_eq!(message.data.port, 50000);
    assert_eq!(message.data.mode, "aead_aes256_gcm_rtpsize");
    assert_eq!(socket_address("203.0.113.7", 50000), "203.0.113.7:50000");
}

#[test]
fn user_id_and_key_are_held_against_their_form() {
    assert_eq!(parse_user_id("18446744073709551615"), Ok(u64::MAX));
    assert_eq!(parse_user_id("+7"), Ok(7));
    for text in ["", "+", "18446744073709551616", "1x", "-1", " 1"] {
        assert_eq!(parse_user_id(text), Err(format!("Invalid user_id: {}", text)));
    }
    assert_eq!(check_secret_key(&[0; 32]), Ok(()));
    assert_eq!(
        check_secret_key(&[0; 31]),
        Err("Wrong secret_key length: 31 (expected 32 for aead_aes256_gcm_rtpsize)".to_string())
    );
}

#[test]
fn audio_then_five_silences_then_keepalives() {
    let mut mixer = Mixer::new(77);
    assert_eq!(mixer.tick(true), TickAction::Audio { start_speaking: true });
    assert_eq!(mixer.tick(true), TickAction::Audio { start_speaking: false });
    for n in 0..5 {
        assert_eq!(mixer.tick(false), TickAction::Silence { stop_speaking: n == 4 });
    }
    for n in 0..1001 {
        let wanted = if n % 250 == 0 { TickAction::Keepalive } else { TickAction::Rest };
        assert_eq!(mixer.tick(false), wanted);
    }
    assert_eq!(mixer.tick(true), TickAction::Audio { start_speaking: true });
}

#[test]
fn audio_may_resume_during_the_silence() {
    let mut mixer = Mixer::new(77);
    mixer.tick(true);
    mixer.tick(false);
    mixer.tick(false);
    assert_eq!(mixer.tick(true), TickAction::Audio { start_speaking: false });
    for n in 0..5 {
        assert_eq!(mixer.tick(false), TickAction::Silence { stop_speaking: n == 4 });
    }
    assert_eq!(mixer.tick(false), TickAction::Keepalive);
}

#[test]
fn packets_are_numbered() {
    let mut session = SigilSession::new(1).unwrap();
    let mut mixer = Mixer::new(77);
    mixer.seq = u16::MAX;
    mixer.timestamp = u32::MAX;
    mixer.nonce_counter = u32::MAX;
    let packet = mixer.silence_packet(&mut session, &KEY).unwrap();
    assert_eq!(packet[..12], build_rtp_header(u16::MAX, u32::MAX, 77));
    assert_eq!(transport_decrypt_rtpsize(&KEY, &packet).unwrap(), OPUS_SILENCE);
    assert_eq!((mixer.seq, mixer.timestamp, mixer.nonce_counter), (0, 959, 0));
    assert_eq!(mixer.frames_sent, 0);
    mixer.audio_sent();
    assert_eq!((mixer.seq, mixer.timestamp, mixer.nonce_counter), (1, 1919, 1));
    assert_eq!(mixer.frames_sent, 1);
}

#[test]
fn payload_is_encrypted_once_there_is_a_key() {
    let mut session = SigilSession::new(1).unwrap();
    assert_eq!(dave_payload(&mut session, b"opus"), b"opus");
    session.install_sender_key(1, [3; 16]);
    let payload = dave_payload(&mut session, b"opus");
    assert_ne!(payload, b"opus");
    assert_eq!(session.decrypt_from_sender(1, &payload).unwrap(), b"opus");
    assert_eq!(session.gateway_session().current_nonce(), 1);
}

fn speaking(ssrc: u32, user_id: &str) -> TextEvent {
    TextEvent::Speaking(Speaking {
        speaking: 1,
        delay: 0,
        ssrc,
        user_id: Some(user_id.to_string()),
    })
}

#[test]
fn audio_reaches_the_receiver() {
    let mut sender = SigilSession::new(5).unwrap();
    sender.install_sender_key(5, [3; 16]);
    let mut receiver = SigilSession::new(6).unwrap();
    receiver.install_sender_key(5, [3; 16]);
    let mut state = DriverState::new(1);
    let mixer = Mixer::new(0xAABB_CCDD);
    let packet = mixer.packet(&mut sender, &KEY, b"opus").unwrap();
    // The speaker is not known yet.
    assert_eq!(receive_packet(&state, &receiver, &KEY, &packet), None);
    state.on_text(speaking(0xAABB_CCDD, "5"), &receiver);
    assert_eq!(
        receive_packet(&state, &receiver, &KEY, &packet),
        Some((5, b"opus".to_vec()))
    );
    assert_eq!(receive_packet(&state, &receiver, &[0; 32], &packet), None);
    assert_eq!(receive_packet(&state, &receiver, &KEY, &packet[..20]), None);
    // User ID 0 counts as unknown.
    state.on_text(speaking(0xAABB_CCDD, "0"), &receiver);
    assert_eq!(receive_packet(&state, &receiver, &KEY, &packet), None);
    // A speaker without a key cannot be heard.
    state.on_text(speaking(0xAABB_CCDD, "7"), &receiver);
    assert_eq!(receive_packet(&state, &receiver, &KEY, &packet), None);
}

#[test]
fn mixing_saturates() {
    let mut mixed = vec![1, i32::MAX, i32::MIN, 5];
    mix_in(&mut mixed, &[2, 1, -1]);
    assert_eq!(mixed, vec![3, i32::MAX, i32::MIN, 5]);
    mix_in(&mut mixed, &[0, 0, 0, 1, 9, 9]);
    assert_eq!(mixed, vec![3, i32::MAX, i32::MIN, 6]);
    assert_eq!(to_pcm(&[0, 32767, 32768, -32768, -32769]), vec![0, 32767, 32767, -32768, -32768]);
}

#[test]
fn track_states() {
    for state in [PlayState::Playing, PlayState::Paused, PlayState::Stopped] {
        assert_eq!(PlayState::from_u8(state.to_u8()), state);
    }
    assert_eq!(PlayState::from_u8(9), PlayState::Stopped);
    assert!(PlayState::Paused.stays());
    assert!(!PlayState::Stopped.stays());
    assert_eq!(
        after_read(PlayState::Playing, TrackRead::End),
        TrackStep { state: PlayState::Stopped, active: false, ended: true }
    );
    assert_eq!(
        after_read(PlayState::Playing, TrackRead::Busy),
        TrackStep { state: PlayState::Playing, active: true, ended: false }
    );
    assert_eq!(
        after_read(PlayState::Playing, TrackRead::Frame),
        TrackStep { state: PlayState::Playing, active: true, ended: false }
    );
}

#[test]
fn dave_is_off_by_default() {
    assert_eq!(ENABLE_DAVE, false);
}
