//! Incoming audio: from a UDP packet to the sender and their Opus frame.

use vstd::prelude::*;
use crate::crypto::codec::Codec;
use crate::error::SigilError;
use crate::frame::decryptor::encrypt_then_decrypt_short_footer;
use crate::frame::encryptor::sealed_frame;
use crate::session::{SigilSession, SigilSessionView};
use crate::types::{UserId, KEY_LENGTH};
use crate::voice::driver::DriverState;
use crate::voice::mixer::{audio_payload, Mixer};
use crate::voice::udp::{
    be_u32, rtp_header, transport_decrypt_rtpsize, transport_payload, transport_round_trip,
    TransportError, TRANSPORT_KEY_LENGTH,
};

verus! {

/// The SSRC in an RTP header: bytes 8 to 11, big-endian.
pub open spec fn packet_ssrc(packet: Seq<u8>) -> u32 {
    (0x100_0000 * packet[8] + 0x1_0000 * packet[9] + 0x100 * packet[10] + packet[11]) as u32
}

/// Who sent a packet, and the Opus frame in it.
///
/// Nothing comes of a packet that is too short or not ours, whose SSRC belongs
/// to no known speaker (user ID 0 counts as none), or whose frame cannot be
/// decrypted with the speaker's key.
pub open spec fn received_frame(
    session: SigilSessionView,
    speakers: Map<u32, UserId>,
    secret_key: Seq<u8>,
    packet: Seq<u8>,
) -> Option<(UserId, Seq<u8>)> {
    let ssrc = packet_ssrc(packet);
    match transport_payload(secret_key, packet) {
        None => None,
        Some(payload) => if !speakers.contains_key(ssrc) || speakers[ssrc] == 0 {
            None
        } else {
            match session.opened_from(speakers[ssrc], payload) {
                Err(_) => None,
                Ok(opus) => Some((speakers[ssrc], opus)),
            }
        },
    }
}

/// An Opus frame that a mixer sends under its session's own key comes out
/// unchanged and under the sender's name at every session that holds the same key
/// for the sender and knows the sender's SSRC.
pub proof fn audio_reaches_receiver(
    mixer: Mixer,
    sender: SigilSessionView,
    receiver: SigilSessionView,
    speakers: Map<u32, UserId>,
    secret_key: Seq<u8>,
    opus: Seq<u8>,
    packet: Seq<u8>,
)
    requires
        sender.own_key is Some,
        sender.frame_key(sender.own_key->0) == Ok::<[u8; KEY_LENGTH], SigilError>(
            sender.own_key->0,
        ),
        sealed_frame(Codec::Opus, sender.own_key->0@, sender.gateway.send_nonce, opus) is Some,
        mixer.rtp_packet(secret_key, audio_payload(sender, opus)) == Some(packet),
        speakers.contains_key(mixer.ssrc),
        speakers[mixer.ssrc] == sender.user_id,
        sender.user_id != 0,
        receiver.sender_keys.contains_key(sender.user_id),
        receiver.sender_keys[sender.user_id] == sender.own_key->0,
        opus.len() <= usize::MAX,
    ensures
        received_frame(receiver, speakers, secret_key, packet) == Some((sender.user_id, opus)),
{
    let key = sender.own_key->0@;
    let nonce = sender.gateway.send_nonce;
    let header = rtp_header(mixer.seq, mixer.timestamp, mixer.ssrc);
    let payload = audio_payload(sender, opus);
    assert(payload == sealed_frame(Codec::Opus, key, nonce, opus)->0);
    transport_round_trip(secret_key, header, payload, mixer.nonce_counter);
    assert(packet.take(12) =~= header);
    encrypt_then_decrypt_short_footer(Codec::Opus, key, nonce, opus);
    lemma_ssrc_in_packet(packet, mixer.seq, mixer.timestamp, mixer.ssrc);
}

proof fn lemma_ssrc_in_packet(packet: Seq<u8>, seq: u16, timestamp: u32, ssrc: u32)
    requires
        packet.len() >= 12,
        packet.take(12) == rtp_header(seq, timestamp, ssrc),
    ensures
        packet_ssrc(packet) == ssrc,
{
    let header = rtp_header(seq, timestamp, ssrc);
    assert(header.skip(8) =~= be_u32(ssrc));
    assert forall|i: int| 8 <= i < 12 implies #[trigger] packet[i] == be_u32(ssrc)[i - 8] by {
        assert(packet.take(12)[i] == header.skip(8)[i - 8]);
    }
}

/// Take a packet apart: who sent it, and the Opus frame in it.
pub fn receive_packet(
    state: &DriverState,
    session: &SigilSession,
    secret_key: &[u8],
    packet: &[u8],
) -> (r: Option<(UserId, Vec<u8>)>)
    requires
        secret_key@.len() == TRANSPORT_KEY_LENGTH,
    ensures
        match received_frame(session@, state.speakers(), secret_key@, packet@) {
            Some((user_id, opus)) => r matches Some((found_id, found)) && found_id == user_id
                && found@ == opus,
            None => r is None,
        },
{
    let payload = match transport_decrypt_rtpsize(secret_key, packet) {
        Ok(payload) => payload,
        Err(_) => return None,
    };
    let ssrc: u32 = 0x100_0000 * packet[8] as u32 + 0x1_0000 * packet[9] as u32 + 0x100
        * packet[10] as u32 + packet[11] as u32;
    let user_id: UserId = match state.speaker(ssrc) {
        Some(user_id) => user_id,
        None => return None,
    };
    if user_id == 0 {
        return None;
    }
    match session.decrypt_from_sender(user_id, payload.as_slice()) {
        Ok(opus) => Some((user_id, opus)),
        Err(_) => None,
    }
}

/// What is received comes from the user who speaks under the SSRC in bytes 8 to 11
/// of the packet, most significant byte first, and is what the session opens of the
/// decrypted payload with that user's key. A packet under an SSRC without a known
/// user gives nothing.
pub proof fn received_from_speaker(
    state: &DriverState,
    session: &SigilSession,
    secret_key: &[u8],
    packet: &[u8],
    ssrc: u32,
    r: Option<(UserId, Vec<u8>)>,
)
    requires
        call_ensures(receive_packet, (state, session, secret_key, packet), r),
        packet@.len() >= 12,
        ssrc == 16777216 * packet@[8] + 65536 * packet@[9] + 256 * packet@[10] + packet@[11],
    ensures
        !state.speakers().contains_key(ssrc) ==> r is None,
        state.speakers().contains_key(ssrc) && state.speakers()[ssrc] == 0 ==> r is None,
        r matches Some((user_id, opus)) ==> {
            &&& state.speakers()[ssrc] == user_id
            &&& transport_payload(secret_key@, packet@) is Some
            &&& session@.opened_from(
                user_id,
                transport_payload(secret_key@, packet@)->0,
            ) == Ok::<Seq<u8>, SigilError>(opus@)
        },
{
}

/// A packet gives its speaker and their frame exactly if the transport encryption
/// opens, the SSRC stands for a user other than 0, and the session opens what is
/// in it with that user's key.
pub proof fn packets_are_opened_in_turn(
    state: &DriverState,
    session: &SigilSession,
    secret_key: &[u8],
    packet: &[u8],
    r: Option<(UserId, Vec<u8>)>,
    opened: Result<Vec<u8>, TransportError>,
    speaker: Option<UserId>,
    ssrc: u32,
    payload: &[u8],
    frame: Result<Vec<u8>, SigilError>,
)
    requires
        call_ensures(receive_packet, (state, session, secret_key, packet), r),
        call_ensures(transport_decrypt_rtpsize, (secret_key, packet), opened),
        packet@.len() >= 12 ==> ssrc == 16777216 * packet@[8] + 65536 * packet@[9] + 256
            * packet@[10] + packet@[11],
        call_ensures(DriverState::speaker, (state, ssrc), speaker),
        opened matches Ok(plain) ==> payload@ == plain@,
        speaker matches Some(user_id) ==> call_ensures(
            SigilSession::decrypt_from_sender,
            (session, user_id, payload),
            frame,
        ),
    ensures
        r is Some <==> opened is Ok && speaker is Some && speaker != Some(0u64) && frame is Ok,
        r matches Some((user_id, opus)) ==> speaker == Some(user_id) && frame->Ok_0@ == opus@,
{
}

} // verus!
