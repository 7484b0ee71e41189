//! The audio engine, tick by tick: when to send audio, silence or nothing, and
//! what the packets look like.

use vstd::arithmetic::div_mod::{lemma_fundamental_div_mod, lemma_fundamental_div_mod_converse};
use vstd::prelude::*;
use vstd::slice::slice_to_vec;
use crate::crypto::codec::Codec;
use crate::crypto::frame_crypto::GCM_MAX_LENGTH;
use crate::error::SigilError;
use crate::frame::encryptor::sealed_frame;
use crate::session::{frame_sent, SigilSession, SigilSessionView};
use crate::voice::udp::{
    be_u32, be_u32_is_positional, build_rtp_header, lemma_header_parts, rtp_header,
    transport_encrypt_rtpsize, transport_packet, transport_payload, transport_round_trip,
    TRANSPORT_KEY_LENGTH,
};

verus! {

/// Opus silence frame — 3 bytes that decode to 20 ms of silence.
pub const OPUS_SILENCE: [u8; 3] = [0xF8, 0xFF, 0xFE];

/// How often to send a keepalive silence frame when idle (every 5 seconds = 250 ticks).
pub const IDLE_KEEPALIVE_TICKS: u64 = 250;

/// How many silence frames end a stretch of audio.
pub const SILENCE_FRAMES: u8 = 5;

/// How far the RTP timestamp advances per packet: 20 ms at 48 kHz.
pub const SAMPLES_PER_FRAME: u32 = 960;

/// What to do on a tick.
#[derive(Debug, Clone, Copy, PartialEq, Eq, Structural)]
pub enum TickAction {
    /// Nothing: we are idle.
    Rest,
    /// Send a silence frame to keep the idle session alive.
    Keepalive,
    /// Send one of the silence frames that end a stretch of audio; after the
    /// last, announce that we stopped speaking.
    Silence { stop_speaking: bool },
    /// Send a frame of audio; if it is the first of a stretch, announce first
    /// that we are speaking.
    Audio { start_speaking: bool },
}

/// The state of the mixer.
#[derive(Debug, Clone, Copy, PartialEq, Eq, Structural)]
pub struct Mixer {
    pub ssrc: u32,
    /// RTP sequence number of the next packet.
    pub seq: u16,
    /// RTP timestamp of the next packet.
    pub timestamp: u32,
    /// Transport nonce of the next packet.
    pub nonce_counter: u32,
    /// The last tick belonged to a stretch of audio or to the silence behind it.
    pub was_active: bool,
    /// How many of the silence frames behind a stretch of audio have been sent.
    pub silence_sent: u8,
    /// Where in the keepalive cycle we are: how many idle ticks there were,
    /// counted from 1 again after each full cycle.
    pub idle_ticks: u64,
    /// How many frames of audio have been sent.
    pub frames_sent: u64,
}

/// The 16-bit number behind `n`.
pub open spec fn wrapping_next_u16(n: u16) -> u16 {
    if n == u16::MAX {
        0
    } else {
        (n + 1) as u16
    }
}

/// The 32-bit number `d` behind `n`.
pub open spec fn wrapping_sum_u32(n: u32, d: u32) -> u32 {
    if n + d > u32::MAX {
        (n + d - 0x1_0000_0000) as u32
    } else {
        (n + d) as u32
    }
}

impl Mixer {
    /// The silence behind a stretch of audio is not complete while it lasts, and
    /// the keepalive cycle is at one of its places.
    pub open spec fn wf(self) -> bool {
        &&& self.was_active ==> self.silence_sent < SILENCE_FRAMES
        &&& self.silence_sent <= SILENCE_FRAMES
        &&& self.idle_ticks <= IDLE_KEEPALIVE_TICKS
    }

    /// The state behind one more packet.
    pub open spec fn after_packet(self) -> Mixer {
        Mixer {
            seq: wrapping_next_u16(self.seq),
            timestamp: wrapping_sum_u32(self.timestamp, SAMPLES_PER_FRAME),
            nonce_counter: wrapping_sum_u32(self.nonce_counter, 1),
            ..self
        }
    }

    /// The state behind `n` more packets.
    pub open spec fn after_packets(self, n: nat) -> Mixer
        decreases n,
    {
        if n == 0 {
            self
        } else {
            self.after_packets((n - 1) as nat).after_packet()
        }
    }

    /// The place in the keepalive cycle after one more idle tick.
    pub open spec fn next_idle_tick(self) -> u64 {
        if self.idle_ticks == IDLE_KEEPALIVE_TICKS {
            1
        } else {
            (self.idle_ticks + 1) as u64
        }
    }

    /// What a tick calls for, and the state behind it. `active` says whether a
    /// track has audio.
    pub open spec fn ticked(self, active: bool) -> (TickAction, Mixer) {
        if active {
            (
                TickAction::Audio { start_speaking: !self.was_active },
                Mixer { was_active: true, silence_sent: 0, idle_ticks: 0, ..self },
            )
        } else if self.was_active {
            let last = self.silence_sent + 1 == SILENCE_FRAMES;
            let state = Mixer { silence_sent: (self.silence_sent + 1) as u8, ..self };
            (
                TickAction::Silence { stop_speaking: last },
                if last {
                    Mixer { was_active: false, idle_ticks: 0, ..state }
                } else {
                    state
                },
            )
        } else {
            let state = Mixer { idle_ticks: self.next_idle_tick(), ..self };
            (
                if state.idle_ticks == 1 {
                    TickAction::Keepalive
                } else {
                    TickAction::Rest
                },
                state,
            )
        }
    }

    /// The state after `n` ticks without audio.
    pub open spec fn after_quiet(self, n: nat) -> Mixer
        decreases n,
    {
        if n == 0 {
            self
        } else {
            self.after_quiet((n - 1) as nat).ticked(false).1
        }
    }

    /// What the tick behind `n` ticks without audio calls for, if it has none
    /// either.
    pub open spec fn quiet_action(self, n: nat) -> TickAction {
        self.after_quiet(n).ticked(false).0
    }

    /// The mixer of a connection at its start.
    pub fn new(ssrc: u32) -> (mixer: Mixer)
        ensures
            mixer.wf(),
            mixer == (Mixer {
                ssrc,
                seq: 0,
                timestamp: 0,
                nonce_counter: 0,
                was_active: false,
                silence_sent: 0,
                idle_ticks: 0,
                frames_sent: 0,
            }),
    {
        Mixer {
            ssrc,
            seq: 0,
            timestamp: 0,
            nonce_counter: 0,
            was_active: false,
            silence_sent: 0,
            idle_ticks: 0,
            frames_sent: 0,
        }
    }

    /// A tick came. Says what to do about it.
    ///
    /// - Audio after a rest is announced first.
    /// - Behind the last audio go five silence frames, and then the announcement
    ///   that we stopped speaking.
    /// - At rest a silence frame goes out at the first tick and then every 250
    ///   ticks.
    pub fn tick(&mut self, active: bool) -> (action: TickAction)
        requires
            old(self).wf(),
        ensures
            final(self).wf(),
            (action, *final(self)) == old(self).ticked(active),
    {
        if active {
            let start_speaking: bool = !self.was_active;
            self.silence_sent = 0;
            self.idle_ticks = 0;
            self.was_active = true;
            TickAction::Audio { start_speaking }
        } else if self.was_active {
            self.silence_sent = self.silence_sent + 1;
            let stop_speaking: bool = self.silence_sent == SILENCE_FRAMES;
            if stop_speaking {
                self.was_active = false;
                self.idle_ticks = 0;
            }
            TickAction::Silence { stop_speaking }
        } else {
            if self.idle_ticks == IDLE_KEEPALIVE_TICKS {
                self.idle_ticks = 1;
            } else {
                self.idle_ticks = self.idle_ticks + 1;
            }
            if self.idle_ticks == 1 {
                TickAction::Keepalive
            } else {
                TickAction::Rest
            }
        }
    }

    /// Go on to the next sequence number, timestamp and nonce.
    fn advance(&mut self)
        ensures
            *final(self) == old(self).after_packet(),
    {
        self.seq = self.seq.wrapping_add(1);
        self.timestamp = self.timestamp.wrapping_add(SAMPLES_PER_FRAME);
        self.nonce_counter = self.nonce_counter.wrapping_add(1);
    }

    /// Encrypt an Opus frame end-to-end if we have a key, and wrap it into the
    /// next RTP packet. `None` if the transport encryption fails.
    pub fn packet(
        &self,
        session: &mut SigilSession,
        secret_key: &[u8],
        opus: &[u8],
    ) -> (r: Option<Vec<u8>>)
        requires
            old(session).wf(),
            secret_key@.len() == TRANSPORT_KEY_LENGTH,
        ensures
            final(session).wf(),
            payload_taken(old(session)@, final(session)@),
            match self.rtp_packet(
                secret_key@,
                audio_payload(old(session)@, opus@),
            ) {
                Some(packet) => r matches Some(found) && found@ == packet,
                None => r is None,
            },
    {
        let payload = dave_payload(session, opus);
        let header = build_rtp_header(self.seq, self.timestamp, self.ssrc);
        match transport_encrypt_rtpsize(
            secret_key,
            &header,
            payload.as_slice(),
            self.nonce_counter,
        ) {
            Ok(packet) => Some(packet),
            Err(_) => None,
        }
    }

    /// The next RTP packet with a payload; `None` if it is longer than AES-GCM
    /// takes.
    pub open spec fn rtp_packet(self, secret_key: Seq<u8>, payload: Seq<u8>) -> Option<Seq<u8>> {
        if payload.len() <= GCM_MAX_LENGTH {
            Some(
                transport_packet(
                    secret_key,
                    rtp_header(self.seq, self.timestamp, self.ssrc),
                    payload,
                    self.nonce_counter,
                ),
            )
        } else {
            None
        }
    }

    /// The next packet with silence. Its numbers are used up even if it cannot
    /// be made.
    pub fn silence_packet(
        &mut self,
        session: &mut SigilSession,
        secret_key: &[u8],
    ) -> (r: Option<Vec<u8>>)
        requires
            old(session).wf(),
            secret_key@.len() == TRANSPORT_KEY_LENGTH,
        ensures
            final(session).wf(),
            payload_taken(old(session)@, final(session)@),
            *final(self) == old(self).after_packet(),
            match old(self).rtp_packet(
                secret_key@,
                audio_payload(old(session)@, OPUS_SILENCE@),
            ) {
                Some(packet) => r matches Some(found) && found@ == packet,
                None => r is None,
            },
    {
        let silence: [u8; 3] = OPUS_SILENCE;
        let r = self.packet(session, secret_key, silence.as_slice());
        self.advance();
        r
    }

    /// A packet with audio was sent: go on to the next.
    pub fn audio_sent(&mut self)
        ensures
            *final(self) == (Mixer {
                frames_sent: if old(self).frames_sent == u64::MAX {
                    u64::MAX
                } else {
                    (old(self).frames_sent + 1) as u64
                },
                ..old(self).after_packet()
            }),
    {
        if self.frames_sent < u64::MAX {
            self.frames_sent = self.frames_sent + 1;
        }
        self.advance();
    }
}

/// From a fresh mixer on, packet `n` carries the sequence number `n` modulo
/// 2^16, the timestamp `960 n` modulo 2^32 and the nonce `n` modulo 2^32, under
/// the SSRC that the mixer was made with.
pub proof fn packet_numbers(ssrc: u32, mixer: Mixer, n: nat)
    requires
        call_ensures(Mixer::new, (ssrc,), mixer),
    ensures
        mixer.after_packets(n).seq == n % 65536,
        mixer.after_packets(n).timestamp == (960 * n) % 4294967296,
        mixer.after_packets(n).nonce_counter == n % 4294967296,
        mixer.after_packets(n).ssrc == ssrc,
    decreases n,
{
    if n > 0 {
        packet_numbers(ssrc, mixer, (n - 1) as nat);
        lemma_next_numbers(mixer.after_packets((n - 1) as nat), (n - 1) as nat);
    }
}

proof fn lemma_next_numbers(mixer: Mixer, n: nat)
    requires
        mixer.seq == n % 65536,
        mixer.timestamp == (960 * n) % 4294967296,
        mixer.nonce_counter == n % 4294967296,
    ensures
        mixer.after_packet().seq == (n + 1) % 65536,
        mixer.after_packet().timestamp == (960 * (n + 1)) % 4294967296,
        mixer.after_packet().nonce_counter == (n + 1) % 4294967296,
        mixer.after_packet().ssrc == mixer.ssrc,
{
    lemma_remainder_goes_on(n as int, 1, 65536);
    lemma_remainder_goes_on(960 * n as int, 960, 4294967296);
    lemma_remainder_goes_on(n as int, 1, 4294967296);
}

proof fn lemma_remainder_goes_on(n: int, step: int, modulus: int)
    requires
        0 <= n,
        0 <= step < modulus,
    ensures
        (n + step) % modulus == if n % modulus + step >= modulus {
            n % modulus + step - modulus
        } else {
            n % modulus + step
        },
{
    let rest = n % modulus;
    let times = n / modulus;
    lemma_fundamental_div_mod(n, modulus);
    if rest + step >= modulus {
        assert(n + step == (times + 1) * modulus + (rest + step - modulus)) by (nonlinear_arith)
            requires
                n == modulus * times + rest,
        ;
        lemma_fundamental_div_mod_converse(n + step, modulus, times + 1, rest + step - modulus);
    } else {
        assert(n + step == times * modulus + (rest + step)) by (nonlinear_arith)
            requires
                n == modulus * times + rest,
        ;
        lemma_fundamental_div_mod_converse(n + step, modulus, times, rest + step);
    }
}

/// Of 65536 packets in a row no two share a sequence number, and of 2^32 in a row
/// no two share a nonce.
pub proof fn packet_numbers_are_fresh(ssrc: u32, mixer: Mixer, a: nat, b: nat)
    requires
        call_ensures(Mixer::new, (ssrc,), mixer),
        a < b,
    ensures
        b - a < 65536 ==> mixer.after_packets(a).seq != mixer.after_packets(b).seq,
        b - a < 4294967296 ==> mixer.after_packets(a).nonce_counter != mixer.after_packets(
            b,
        ).nonce_counter,
{
    packet_numbers(ssrc, mixer, a);
    packet_numbers(ssrc, mixer, b);
    if a % 65536 == b % 65536 {
        assert(b - a == 65536 * (b / 65536 - a / 65536));
    }
    if a % 4294967296 == b % 4294967296 {
        assert(b - a == 4294967296 * (b / 4294967296 - a / 4294967296));
    }
}

/// Sending audio uses up one sequence number, 960 ticks of the timestamp and one
/// nonce, counts the frame, and changes nothing else.
pub proof fn audio_takes_one_number(mixer: &mut Mixer)
    requires
        call_ensures(Mixer::audio_sent, (mixer,), ()),
    ensures
        final(mixer).seq == (old(mixer).seq + 1) % 65536,
        final(mixer).timestamp == (old(mixer).timestamp + 960) % 4294967296,
        final(mixer).nonce_counter == (old(mixer).nonce_counter + 1) % 4294967296,
        old(mixer).frames_sent < u64::MAX ==> final(mixer).frames_sent == old(mixer).frames_sent
            + 1,
        old(mixer).frames_sent == u64::MAX ==> final(mixer).frames_sent == u64::MAX,
        final(mixer).ssrc == old(mixer).ssrc,
        final(mixer).was_active == old(mixer).was_active,
        final(mixer).silence_sent == old(mixer).silence_sent,
        final(mixer).idle_ticks == old(mixer).idle_ticks,
        *final(mixer) == (Mixer {
            frames_sent: final(mixer).frames_sent,
            ..old(mixer).after_packets(1)
        }),
{
    reveal_with_fuel(Mixer::after_packets, 2);
}

/// A silence packet uses up one sequence number, 960 ticks of the timestamp and
/// one nonce, and is no frame of audio. Without a key of our own it carries the
/// three bytes of Opus silence.
pub proof fn silence_takes_one_number(
    mixer: &mut Mixer,
    session: &mut SigilSession,
    secret_key: &[u8],
    r: Option<Vec<u8>>,
)
    requires
        call_ensures(Mixer::silence_packet, (mixer, session, secret_key), r),
    ensures
        final(mixer).seq == (old(mixer).seq + 1) % 65536,
        final(mixer).timestamp == (old(mixer).timestamp + 960) % 4294967296,
        final(mixer).nonce_counter == (old(mixer).nonce_counter + 1) % 4294967296,
        final(mixer).ssrc == old(mixer).ssrc,
        final(mixer).was_active == old(mixer).was_active,
        final(mixer).silence_sent == old(mixer).silence_sent,
        final(mixer).idle_ticks == old(mixer).idle_ticks,
        final(mixer).frames_sent == old(mixer).frames_sent,
        old(session)@.own_key is None ==> (r matches Some(packet) && transport_payload(
            secret_key@,
            packet@,
        ) == Some(seq![0xF8u8, 0xFFu8, 0xFEu8]) && final(session)@ == old(session)@),
{
    if old(session)@.own_key is None {
        let silence = seq![0xF8u8, 0xFFu8, 0xFEu8];
        assert(OPUS_SILENCE@ =~= silence);
        let header = rtp_header(old(mixer).seq, old(mixer).timestamp, old(mixer).ssrc);
        assert(header.len() == 12);
        transport_round_trip(secret_key@, header, silence, old(mixer).nonce_counter);
    }
}

/// A packet opens with the RTP header: version 2, payload type 120, and then in
/// big-endian order the mixer's sequence number, timestamp and SSRC. It ends with
/// the nonce. Behind the transport encryption stands, without a key of our own,
/// the Opus frame itself.
pub proof fn packet_carries_numbers(
    mixer: &Mixer,
    session: &mut SigilSession,
    secret_key: &[u8],
    opus: &[u8],
    packet: Vec<u8>,
)
    requires
        call_ensures(Mixer::packet, (mixer, session, secret_key, opus), Some(packet)),
    ensures
        packet@.len() >= 32,
        packet@[0] == 128,
        packet@[1] == 120,
        256 * packet@[2] + packet@[3] == mixer.seq,
        16777216 * packet@[4] + 65536 * packet@[5] + 256 * packet@[6] + packet@[7]
            == mixer.timestamp,
        16777216 * packet@[8] + 65536 * packet@[9] + 256 * packet@[10] + packet@[11]
            == mixer.ssrc,
        16777216 * packet@[packet@.len() - 4] + 65536 * packet@[packet@.len() - 3] + 256
            * packet@[packet@.len() - 2] + packet@[packet@.len() - 1] == mixer.nonce_counter,
        old(session)@.own_key is None ==> transport_payload(secret_key@, packet@) == Some(opus@)
            && final(session)@ == old(session)@,
{
    let header = rtp_header(mixer.seq, mixer.timestamp, mixer.ssrc);
    let payload = audio_payload(old(session)@, opus@);
    let suffix = packet@.skip(packet@.len() - 4);
    lemma_header_parts(mixer.seq, mixer.timestamp, mixer.ssrc);
    be_u32_is_positional(mixer.nonce_counter);
    transport_round_trip(secret_key@, header, payload, mixer.nonce_counter);
    assert(packet@.take(12) =~= header);
    assert(suffix =~= be_u32(mixer.nonce_counter));
    assert(forall|i: int| 0 <= i < 12 ==> #[trigger] packet@[i] == packet@.take(12)[i]);
    assert(forall|i: int|
        packet@.len() - 4 <= i < packet@.len() ==> #[trigger] packet@[i] == suffix[i
            - packet@.len() + 4]);
}

/// A tick with audio calls for audio, announced exactly if the tick before was at
/// rest. No tick touches the numbers of the packets.
pub proof fn audio_is_announced_once(mixer: &mut Mixer, active: bool, action: TickAction)
    requires
        call_ensures(Mixer::tick, (mixer, active), action),
    ensures
        active ==> action == (TickAction::Audio { start_speaking: !old(mixer).was_active }),
        active ==> final(mixer).was_active && final(mixer).silence_sent == 0
            && final(mixer).idle_ticks == 0,
        !active ==> !(action is Audio),
        !active && !old(mixer).was_active ==> !final(mixer).was_active && !(action is Silence),
        final(mixer).ssrc == old(mixer).ssrc,
        final(mixer).seq == old(mixer).seq,
        final(mixer).timestamp == old(mixer).timestamp,
        final(mixer).nonce_counter == old(mixer).nonce_counter,
        final(mixer).frames_sent == old(mixer).frames_sent,
{
}

/// Behind the last tick with audio come the silence frames that are still owed,
/// the last of them with the announcement that we stopped speaking, and then the
/// first keepalive.
pub proof fn silence_ends_audio(mixer: Mixer, n: nat)
    requires
        mixer.wf(),
        mixer.was_active,
        n < SILENCE_FRAMES - mixer.silence_sent,
    ensures
        mixer.quiet_action(n) == (TickAction::Silence {
            stop_speaking: n + 1 == SILENCE_FRAMES - mixer.silence_sent,
        }),
        mixer.after_quiet(n) == (Mixer {
            silence_sent: (mixer.silence_sent + n) as u8,
            ..mixer
        }),
        n + 1 == SILENCE_FRAMES - mixer.silence_sent ==> mixer.quiet_action(n + 1)
            == TickAction::Keepalive,
    decreases n,
{
    if n > 0 {
        silence_ends_audio(mixer, (n - 1) as nat);
    }
    reveal_with_fuel(Mixer::after_quiet, 2);
}

/// Whenever audio stops, exactly five silence frames follow its last tick, and
/// the fifth ends with the announcement that we stopped speaking.
pub proof fn five_silence_frames(mixer: Mixer, n: nat)
    requires
        mixer.wf(),
    ensures
        n < 5 ==> mixer.ticked(true).1.quiet_action(n) == (TickAction::Silence {
            stop_speaking: n == 4,
        }),
        n == 5 ==> mixer.ticked(true).1.quiet_action(n) == TickAction::Keepalive,
{
    if n < 5 {
        silence_ends_audio(mixer.ticked(true).1, n);
    } else if n == 5 {
        silence_ends_audio(mixer.ticked(true).1, 4);
    }
}

/// At rest, a keepalive goes out every 250 ticks and at no other.
pub proof fn keepalive_every_250_ticks(mixer: Mixer, n: nat)
    requires
        mixer.wf(),
        !mixer.was_active,
        mixer.idle_ticks == 0,
    ensures
        mixer.quiet_action(n) == if n % 250 == 0 {
            TickAction::Keepalive
        } else {
            TickAction::Rest
        },
{
    lemma_quiet(mixer, n);
}

proof fn lemma_quiet(mixer: Mixer, n: nat)
    requires
        mixer.wf(),
        !mixer.was_active,
        mixer.idle_ticks == 0,
    ensures
        mixer.after_quiet(n) == (Mixer {
            idle_ticks: if n == 0 {
                0
            } else {
                ((n - 1) as nat % 250 + 1) as u64
            },
            ..mixer
        }),
    decreases n,
{
    if n > 0 {
        lemma_quiet(mixer, (n - 1) as nat);
    }
}

/// When audio stops and nothing follows, the keepalives begin behind the fifth
/// silence frame and then come every 250 ticks, with rest in between.
pub proof fn keepalives_follow_silence(mixer: Mixer, n: nat)
    requires
        mixer.wf(),
        n >= 5,
    ensures
        mixer.ticked(true).1.quiet_action(n) == if (n - 5) % 250 == 0 {
            TickAction::Keepalive
        } else {
            TickAction::Rest
        },
{
    let active = mixer.ticked(true).1;
    silence_ends_audio(active, 4);
    reveal_with_fuel(Mixer::after_quiet, 2);
    let resting = active.after_quiet(5);
    lemma_quiet_in_turn(active, 5, (n - 5) as nat);
    keepalive_every_250_ticks(resting, (n - 5) as nat);
}

proof fn lemma_quiet_in_turn(mixer: Mixer, m: nat, n: nat)
    ensures
        mixer.after_quiet(m).after_quiet(n) == mixer.after_quiet(m + n),
    decreases n,
{
    if n > 0 {
        lemma_quiet_in_turn(mixer, m, (n - 1) as nat);
    }
}

/// What goes into an audio packet: the Opus frame end-to-end encrypted, if we
/// have a key and it works, and else as it is.
pub open spec fn audio_payload(session: SigilSessionView, opus: Seq<u8>) -> Seq<u8> {
    match session.own_key {
        None => opus,
        Some(own) => match session.frame_key(own) {
            Err(_) => opus,
            Ok(key) => match sealed_frame(
                Codec::Opus,
                key@,
                session.gateway.send_nonce,
                opus,
            ) {
                None => opus,
                Some(sealed) => sealed,
            },
        },
    }
}

/// The session after a payload was made: with a key of our own a nonce is used
/// up, without it nothing changes.
pub open spec fn payload_taken(before: SigilSessionView, after: SigilSessionView) -> bool {
    if before.own_key is None {
        after == before
    } else {
        frame_sent(before, after)
    }
}

/// Encrypt an Opus frame end-to-end with our own key; without a key, or where
/// that fails, hand it back as it is.
pub fn dave_payload(session: &mut SigilSession, opus: &[u8]) -> (payload: Vec<u8>)
    requires
        old(session).wf(),
    ensures
        final(session).wf(),
        payload@ == audio_payload(old(session)@, opus@),
        payload_taken(old(session)@, final(session)@),
{
    if session.has_own_key() {
        match session.encrypt_own_frame(opus, Codec::Opus) {
            Ok(frame) => frame,
            Err(_) => slice_to_vec(opus),
        }
    } else {
        slice_to_vec(opus)
    }
}

/// The sample nearest to `n` that 16 bits can hold.
pub open spec fn clamped(n: int) -> i16 {
    if n < i16::MIN {
        i16::MIN
    } else if n > i16::MAX {
        i16::MAX
    } else {
        n as i16
    }
}

/// The 32-bit number nearest to `n`.
pub open spec fn clamped_i32(n: int) -> i32 {
    if n < i32::MIN {
        i32::MIN
    } else if n > i32::MAX {
        i32::MAX
    } else {
        n as i32
    }
}

/// Each sample of a track is added to the sample of the mix at its place: exactly,
/// as long as 32 bits hold the sum, and else up to their limit. The mix keeps its
/// length, and where the track has no sample the mix stays as it was.
pub proof fn tracks_are_added(mixed: &mut Vec<i32>, samples: &[i32], i: int)
    requires
        call_ensures(mix_in, (mixed, samples), ()),
        0 <= i < old(mixed)@.len(),
    ensures
        final(mixed)@.len() == old(mixed)@.len(),
        i >= samples@.len() ==> final(mixed)@[i] == old(mixed)@[i],
        i < samples@.len() && -2147483648 <= old(mixed)@[i] + samples@[i] <= 2147483647
            ==> final(mixed)@[i] == old(mixed)@[i] + samples@[i],
        i < samples@.len() && old(mixed)@[i] + samples@[i] > 2147483647 ==> final(mixed)@[i]
            == 2147483647,
        i < samples@.len() && old(mixed)@[i] + samples@[i] < -2147483648 ==> final(mixed)@[i]
            == -2147483648,
{
}

/// A mixed sample that 16 bits can hold comes out as it is, one above them as
/// 32767 and one below them as -32768.
pub proof fn samples_are_kept(mixed: &[i32], pcm: Vec<i16>, i: int)
    requires
        call_ensures(to_pcm, (mixed,), pcm),
        0 <= i < mixed@.len(),
    ensures
        pcm@.len() == mixed@.len(),
        -32768 <= mixed@[i] <= 32767 ==> pcm@[i] == mixed@[i],
        mixed@[i] > 32767 ==> pcm@[i] == 32767,
        mixed@[i] < -32768 ==> pcm@[i] == -32768,
{
}

/// A single track at full volume, mixed into silence of its length, is played back
/// sample for sample.
pub proof fn single_track_is_played_back(
    mixed: &mut Vec<i32>,
    samples: &[i32],
    heard: &[i32],
    pcm: Vec<i16>,
)
    requires
        old(mixed)@.len() == samples@.len(),
        forall|i: int| 0 <= i < samples@.len() ==> #[trigger] old(mixed)@[i] == 0,
        forall|i: int| 0 <= i < samples@.len() ==> -32768 <= #[trigger] samples@[i] <= 32767,
        call_ensures(mix_in, (mixed, samples), ()),
        heard@ == final(mixed)@,
        call_ensures(to_pcm, (heard,), pcm),
    ensures
        pcm@.len() == samples@.len(),
        forall|i: int| 0 <= i < samples@.len() ==> #[trigger] pcm@[i] == samples@[i],
{
    assert forall|i: int| 0 <= i < samples@.len() implies #[trigger] pcm@[i] == samples@[i] by {
        assert(old(mixed)@[i] == 0);
        assert(-32768 <= samples@[i] <= 32767);
    }
}

/// Add the samples of a track to the mix. Samples beyond the mix are dropped.
pub fn mix_in(mixed: &mut Vec<i32>, samples: &[i32])
    ensures
        final(mixed)@ == Seq::new(
            old(mixed)@.len(),
            |i: int|
                if i < samples@.len() {
                    clamped_i32(old(mixed)@[i] + samples@[i])
                } else {
                    old(mixed)@[i]
                },
        ),
{
    let ghost before = mixed@;
    let mut i: usize = 0;
    while i < mixed.len() && i < samples.len()
        invariant
            i <= mixed@.len() == before.len(),
            i <= samples@.len(),
            forall|j: int|
                0 <= j < i ==> #[trigger] mixed@[j] == clamped_i32(before[j] + samples@[j]),
            forall|j: int| i <= j < before.len() ==> #[trigger] mixed@[j] == before[j],
        decreases samples@.len() - i,
    {
        let sum: i64 = mixed[i] as i64 + samples[i] as i64;
        let nearest: i32 = if sum < -2_147_483_648 {
            -2_147_483_648
        } else if sum > 2_147_483_647 {
            2_147_483_647
        } else {
            sum as i32
        };
        mixed.set(i, nearest);
        i = i + 1;
    }
    assert(mixed@ =~= Seq::new(
        before.len(),
        |i: int|
            if i < samples@.len() {
                clamped_i32(before[i] + samples@[i])
            } else {
                before[i]
            },
    ));
}

/// Bring the mix down to 16-bit samples.
pub fn to_pcm(mixed: &[i32]) -> (pcm: Vec<i16>)
    ensures
        pcm@ == mixed@.map_values(|n: i32| clamped(n as int)),
{
    let mut pcm: Vec<i16> = Vec::new();
    let mut i: usize = 0;
    while i < mixed.len()
        invariant
            i <= mixed@.len(),
            pcm@.len() == i,
            forall|j: int| 0 <= j < i ==> #[trigger] pcm@[j] == clamped(mixed@[j] as int),
        decreases mixed@.len() - i,
    {
        let n: i32 = mixed[i];
        let sample: i16 = if n < -32768 {
            -32768
        } else if n > 32767 {
            32767
        } else {
            n as i16
        };
        pcm.push(sample);
        i = i + 1;
    }
    assert(pcm@ =~= mixed@.map_values(|n: i32| clamped(n as int)));
    pcm
}

/// Without a key of our own a frame is sent as it is. With one it is sent as the
/// session encrypts it, and as it is only where that fails.
pub proof fn frames_are_sent_encrypted(
    session: &mut SigilSession,
    opus: &[u8],
    payload: Vec<u8>,
    other: &mut SigilSession,
    r: Result<Vec<u8>, SigilError>,
)
    requires
        call_ensures(dave_payload, (session, opus), payload),
        *old(other) == *old(session),
        call_ensures(SigilSession::encrypt_own_frame, (other, opus, Codec::Opus), r),
    ensures
        r matches Ok(frame) ==> payload@ == frame@,
        r is Err ==> payload@ == opus@,
        old(session)@.own_key is None ==> payload@ == opus@ && final(session)@ == old(session)@,
        old(session)@.own_key is Some ==> final(session)@.gateway.send_nonce == (old(
            session,
        )@.gateway.send_nonce + 1) % 4294967296,
{
}

/// What a packet carries behind the transport encryption is the payload that is
/// made of the frame; and there is no packet exactly if that has more than 2^36
/// bytes.
pub proof fn packet_carries_payload(
    mixer: &Mixer,
    session: &mut SigilSession,
    secret_key: &[u8],
    opus: &[u8],
    r: Option<Vec<u8>>,
    other: &mut SigilSession,
    payload: Vec<u8>,
)
    requires
        call_ensures(Mixer::packet, (mixer, session, secret_key, opus), r),
        *old(other) == *old(session),
        call_ensures(dave_payload, (other, opus), payload),
    ensures
        r is None <==> payload@.len() > 68719476736,
        r matches Some(packet) ==> transport_payload(secret_key@, packet@) == Some(payload@),
{
    let header = rtp_header(mixer.seq, mixer.timestamp, mixer.ssrc);
    assert(header.len() == 12);
    if r is Some {
        transport_round_trip(secret_key@, header, payload@, mixer.nonce_counter);
    }
}

} // verus!
