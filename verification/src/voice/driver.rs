//! The voice WebSocket loop: heartbeats, and the DAVE exchange with the gateway.
//!
//! The loop itself waits for ticks and messages. What it does about them is
//! decided here: [`DriverState`] takes each event and says which frames to send,
//! in order. A frame that cannot be sent ends the connection.

use std::collections::HashMap;
use vstd::prelude::*;
use crate::gateway::handler::{dispatches_to, le_u16, DaveEvent};
use crate::mls::backend::{embedded_header, is_welcome_message};
use crate::mls::credential::identity_bytes;
use crate::mls::group::{
    empty_commit_needed, foreign_batch_needs_commit, member_is_listed, member_users,
    possible_outcomes, sender_key, stored_count, ProposalOutcome,
};
use crate::session::{
    commit_taken, committed, external_sender_in, keys_taken, offers_key_package,
    proposals_processed, welcome_joined, SigilSession, SigilSessionView,
};
use crate::error::SigilError;
use crate::text::{decimal, lemma_numeral_is_parsed, parse_u64, parsed_u64};
use crate::types::{Epoch, UserId, KEY_LENGTH};
use crate::voice::gateway::Speaking;

verus! {

broadcast use vstd::std_specs::hash::group_hash_axioms;

/// Maximum consecutive missed heartbeat ACKs before the connection is dead.
pub const MAX_MISSED_HEARTBEATS: u8 = 3;

/// A binary DAVE frame: `[seq_be(2)][opcode(1)][payload...]`.
pub open spec fn dave_frame(seq: u16, opcode: u8, payload: Seq<u8>) -> Seq<u8> {
    seq![(seq / 0x100) as u8, (seq % 0x100) as u8, opcode] + payload
}

/// The sequence number behind `seq`.
pub open spec fn next_seq(seq: u16) -> u16 {
    if seq == u16::MAX {
        0
    } else {
        (seq + 1) as u16
    }
}

/// A transition ID on the wire: its low 16 bits, little-endian.
pub open spec fn wire_transition(transition_id: u64) -> Seq<u8> {
    seq![(transition_id % 0x100) as u8, (transition_id / 0x100 % 0x100) as u8]
}

/// An SSRC in four little-endian bytes.
pub open spec fn le_ssrc(ssrc: u32) -> Seq<u8> {
    seq![
        (ssrc % 0x100) as u8,
        (ssrc / 0x100 % 0x100) as u8,
        (ssrc / 0x1_0000 % 0x100) as u8,
        (ssrc / 0x100_0000) as u8,
    ]
}

/// What to do when the heartbeat timer ticks.
#[derive(Debug, Clone, Copy, PartialEq, Eq, Structural)]
pub enum HeartbeatAction {
    /// Send a heartbeat (OP 3) with this nonce and the last sequence number
    /// that came, if any came.
    Send { nonce: u64, seq_ack: Option<u64> },
    /// Close the connection: it is dead.
    Close,
}

/// A JSON message from the gateway, as far as the loop acts on it.
pub enum TextEvent {
    /// OP 6.
    HeartbeatAck,
    /// OP 5.
    Speaking(Speaking),
    /// OP 21, with its transition ID.
    PrepareTransition(u64),
    /// OP 22.
    ExecuteTransition,
    /// OP 24, with its epoch.
    PrepareEpoch(u64),
    /// Any other.
    Other,
}

/// The state of the loop, apart from who is speaking.
pub struct DriverView {
    pub ssrc: u32,
    /// The last sequence number that came in a JSON message.
    pub seq_ack: Option<u64>,
    /// The sequence number of the next binary frame.
    pub binary_seq: u16,
    /// The nonce of the last heartbeat.
    pub heartbeat_nonce: u64,
    pub heartbeat_acked: bool,
    pub missed_acks: u8,
    pub encryption_ready_sent: bool,
    /// Our own key has been exported at least once.
    pub dave_ready: bool,
}

impl DriverView {
    /// The state when the loop begins.
    pub open spec fn initial(ssrc: u32) -> DriverView {
        DriverView {
            ssrc,
            seq_ack: None,
            binary_seq: 0,
            heartbeat_nonce: 0,
            heartbeat_acked: true,
            missed_acks: 0,
            encryption_ready_sent: false,
            dave_ready: false,
        }
    }

    /// The number of missed acknowledgements after a tick.
    pub open spec fn missed_after_tick(self) -> int {
        if self.heartbeat_acked {
            0
        } else {
            self.missed_acks + 1
        }
    }

    /// The state after a tick of the heartbeat timer at time `now`.
    pub open spec fn after_tick(self, now: u64) -> DriverView {
        if self.missed_after_tick() >= MAX_MISSED_HEARTBEATS {
            DriverView { missed_acks: MAX_MISSED_HEARTBEATS, ..self }
        } else {
            DriverView {
                missed_acks: self.missed_after_tick() as u8,
                heartbeat_nonce: now,
                heartbeat_acked: false,
                ..self
            }
        }
    }

    /// The frames, and the state behind them, of an EncryptionReady (OP 12),
    /// unless one has been sent in this epoch.
    pub open spec fn with_encryption_ready(self, frames: Seq<Seq<u8>>) -> (
        Seq<Seq<u8>>,
        DriverView,
    ) {
        if self.encryption_ready_sent {
            (frames, self)
        } else {
            let (frames, state) = self.with_frame(frames, 12, le_ssrc(self.ssrc));
            (frames, DriverView { encryption_ready_sent: true, ..state })
        }
    }

    /// The frames, and the state behind them, of one more binary frame.
    pub open spec fn with_frame(self, frames: Seq<Seq<u8>>, opcode: u8, payload: Seq<u8>) -> (
        Seq<Seq<u8>>,
        DriverView,
    ) {
        (
            frames.push(dave_frame(self.binary_seq, opcode, payload)),
            DriverView { binary_seq: next_seq(self.binary_seq), ..self },
        )
    }
}

/// As long as every heartbeat is acknowledged before the next tick, the
/// connection is not closed.
pub proof fn acked_heartbeats_keep_alive(state: DriverView, now: u64)
    requires
        state.heartbeat_acked,
    ensures
        state.missed_after_tick() < MAX_MISSED_HEARTBEATS,
        state.after_tick(now).missed_acks == 0,
{
}

/// Without acknowledgement, the third tick behind an acknowledged one closes the
/// connection, and none before.
pub proof fn third_miss_closes(state: DriverView, t0: u64, t1: u64, t2: u64)
    requires
        state.heartbeat_acked,
    ensures
        ({
            let s1 = state.after_tick(t0);
            let s2 = s1.after_tick(t1);
            let s3 = s2.after_tick(t2);
            &&& s1.missed_after_tick() < MAX_MISSED_HEARTBEATS
            &&& s2.missed_after_tick() < MAX_MISSED_HEARTBEATS
            &&& s3.missed_after_tick() >= MAX_MISSED_HEARTBEATS
        }),
{
}

/// The users in the group of a session.
pub open spec fn members_of(session: SigilSessionView) -> Seq<UserId> {
    match session.group {
        Some(group) => member_users(group.contents().members),
        None => Seq::empty(),
    }
}

/// What refreshing the keys of all members makes of a session. `own` says
/// whether our own key is among them.
pub open spec fn keys_refreshed(
    before: SigilSessionView,
    after: SigilSessionView,
    own: bool,
) -> bool {
    exists|keys: Option<Map<UserId, [u8; KEY_LENGTH]>>|
        {
            &&& #[trigger] keys_taken(before, after, members_of(before), keys)
            &&& own == (keys matches Some(keys) && keys.contains_key(before.user_id))
        }
}

/// As long as we are a member of the group, under our own user ID, refreshing
/// the keys gives us the one that the group exports for us.
pub proof fn member_gets_own_key(
    before: SigilSessionView,
    after: SigilSessionView,
    own: bool,
    i: int,
)
    requires
        before.group matches Some(group) && group.contents().active && 0 <= i
            < group.contents().members.len() && group.contents().members[i].credential.content
            == identity_bytes(before.user_id),
        keys_refreshed(before, after, own),
    ensures
        own,
        before.group matches Some(group) && after.own_key matches Some(key) && sender_key(
            group.mls,
            before.user_id,
        ) == Some(key@),
{
    if let Some(group) = before.group {
        member_is_listed(group.contents().members, i, before.user_id);
    }
}

/// Export the keys of all members of the group, and tell whether our own is
/// among them.
pub fn refresh_keys(session: &mut SigilSession) -> (own: bool)
    requires
        old(session).wf(),
    ensures
        final(session).wf(),
        keys_refreshed(old(session)@, final(session)@, own),
{
    let members = session.group_member_ids();
    let ghost before = session@;
    assert(members@ =~= members_of(before));
    match session.export_sender_keys(members.as_slice()) {
        Ok(keys) => {
            assert(keys_taken(before, session@, members_of(before), Some(keys@)));
            let user_id: UserId = session.own_user_id();
            keys.contains_key(&user_id)
        },
        Err(_) => {
            assert(keys_taken(before, session@, members_of(before), None));
            false
        },
    }
}

/// The state of the voice WebSocket loop.
pub struct DriverState {
    ssrc: u32,
    seq_ack: Option<u64>,
    binary_seq: u16,
    heartbeat_nonce: u64,
    heartbeat_acked: bool,
    missed_acks: u8,
    encryption_ready_sent: bool,
    dave_ready: bool,
    /// Which user speaks under which SSRC.
    speakers: HashMap<u32, UserId>,
}

impl View for DriverState {
    type V = DriverView;

    closed spec fn view(&self) -> DriverView {
        DriverView {
            ssrc: self.ssrc,
            seq_ack: self.seq_ack,
            binary_seq: self.binary_seq,
            heartbeat_nonce: self.heartbeat_nonce,
            heartbeat_acked: self.heartbeat_acked,
            missed_acks: self.missed_acks,
            encryption_ready_sent: self.encryption_ready_sent,
            dave_ready: self.dave_ready,
        }
    }
}

impl DriverState {
    /// Which user speaks under which SSRC.
    pub closed spec fn speakers(&self) -> Map<u32, UserId> {
        self.speakers@
    }

    /// The state when the loop begins.
    pub fn new(ssrc: u32) -> (state: Self)
        ensures
            state@ == DriverView::initial(ssrc),
            state.speakers() == Map::<u32, UserId>::empty(),
    {
        Self {
            ssrc,
            seq_ack: None,
            binary_seq: 0,
            heartbeat_nonce: 0,
            heartbeat_acked: true,
            missed_acks: 0,
            encryption_ready_sent: false,
            dave_ready: false,
            speakers: HashMap::new(),
        }
    }

    /// Our own key has been exported at least once.
    pub fn is_dave_ready(&self) -> (b: bool)
        ensures
            b == self@.dave_ready,
    {
        self.dave_ready
    }

    /// The user that speaks under an SSRC.
    pub fn speaker(&self, ssrc: u32) -> (r: Option<UserId>)
        ensures
            r == self.speakers().get(ssrc),
    {
        match self.speakers.get(&ssrc) {
            Some(user_id) => Some(*user_id),
            None => None,
        }
    }

    /// The heartbeat timer ticked, at `now` milliseconds since the epoch.
    pub fn on_heartbeat_tick(&mut self, now: u64) -> (action: HeartbeatAction)
        ensures
            final(self)@ == old(self)@.after_tick(now),
            final(self).speakers() == old(self).speakers(),
            action == if old(self)@.missed_after_tick() >= MAX_MISSED_HEARTBEATS {
                HeartbeatAction::Close
            } else {
                HeartbeatAction::Send { nonce: now, seq_ack: old(self)@.seq_ack }
            },
    {
        if self.heartbeat_acked {
            self.missed_acks = 0;
        } else if self.missed_acks >= MAX_MISSED_HEARTBEATS - 1 {
            self.missed_acks = MAX_MISSED_HEARTBEATS;
            return HeartbeatAction::Close;
        } else {
            self.missed_acks = self.missed_acks + 1;
        }
        self.heartbeat_nonce = now;
        self.heartbeat_acked = false;
        HeartbeatAction::Send { nonce: now, seq_ack: self.seq_ack }
    }

    /// A JSON message came with this sequence number, if it has one.
    pub fn note_sequence(&mut self, seq: Option<u64>)
        ensures
            final(self)@ == (DriverView {
                seq_ack: if seq is Some {
                    seq
                } else {
                    old(self)@.seq_ack
                },
                ..old(self)@
            }),
            final(self).speakers() == old(self).speakers(),
    {
        if seq.is_some() {
            self.seq_ack = seq;
        }
    }

    /// Append a binary frame to those that are to be sent.
    fn push_frame(&mut self, frames: &mut Vec<Vec<u8>>, opcode: u8, payload: &[u8])
        ensures
            (frame_bytes(final(frames)@), final(self)@) == old(self)@.with_frame(
                frame_bytes(old(frames)@),
                opcode,
                payload@,
            ),
            final(self).speakers() == old(self).speakers(),
    {
        let mut frame: Vec<u8> = Vec::new();
        frame.push((self.binary_seq / 0x100) as u8);
        frame.push((self.binary_seq % 0x100) as u8);
        frame.push(opcode);
        frame.extend_from_slice(payload);
        assert(frame@ =~= dave_frame(self.binary_seq, opcode, payload@));
        let ghost before = frames@;
        frames.push(frame);
        assert(frame_bytes(frames@) =~= frame_bytes(before).push(frame@));
        self.binary_seq = self.binary_seq.wrapping_add(1);
    }

    /// Append an EncryptionReady (OP 12) with our SSRC, unless one has been sent
    /// in this epoch.
    fn push_encryption_ready(&mut self, frames: &mut Vec<Vec<u8>>)
        ensures
            (frame_bytes(final(frames)@), final(self)@) == old(self)@.with_encryption_ready(
                frame_bytes(old(frames)@),
            ),
            final(self).speakers() == old(self).speakers(),
    {
        if !self.encryption_ready_sent {
            let ssrc: u32 = self.ssrc;
            let payload: [u8; 4] = [
                (ssrc % 0x100) as u8,
                (ssrc / 0x100 % 0x100) as u8,
                (ssrc / 0x1_0000 % 0x100) as u8,
                (ssrc / 0x100_0000) as u8,
            ];
            assert(payload@ =~= le_ssrc(ssrc));
            self.push_frame(frames, 12, payload.as_slice());
            self.encryption_ready_sent = true;
        }
    }

    /// Append a ReadyForTransition (OP 23).
    fn push_ready_for_transition(&mut self, frames: &mut Vec<Vec<u8>>, transition_id: u64)
        ensures
            (frame_bytes(final(frames)@), final(self)@) == old(self)@.with_frame(
                frame_bytes(old(frames)@),
                23,
                wire_transition(transition_id),
            ),
            final(self).speakers() == old(self).speakers(),
    {
        let payload: [u8; 2] = [
            (transition_id % 0x100) as u8,
            (transition_id / 0x100 % 0x100) as u8,
        ];
        assert(payload@ =~= wire_transition(transition_id));
        self.push_frame(frames, 23, payload.as_slice());
    }

    /// A JSON message came. Returns the frames to send.
    pub fn on_text(&mut self, event: TextEvent, session: &SigilSession) -> (frames: Vec<Vec<u8>>)
        ensures
            text_handled(old(self)@, final(self)@, session@, event, frame_bytes(frames@)),
            final(self).speakers() == speakers_after(old(self).speakers(), event),
    {
        let mut frames: Vec<Vec<u8>> = Vec::new();
        assert(frame_bytes(frames@) =~= Seq::empty());
        match event {
            TextEvent::HeartbeatAck => {
                self.heartbeat_acked = true;
            },
            TextEvent::Speaking(speaking) => {
                if let Some(text) = &speaking.user_id {
                    if let Some(user_id) = parse_u64(text.as_str()) {
                        self.speakers.insert(speaking.ssrc, user_id);
                    }
                }
            },
            TextEvent::PrepareTransition(transition_id) => {
                self.push_ready_for_transition(&mut frames, transition_id);
            },
            TextEvent::ExecuteTransition => {
                self.encryption_ready_sent = false;
            },
            TextEvent::PrepareEpoch(epoch) => {
                if epoch == 1 {
                    let package = session.generate_key_package();
                    let ghost before = self@;
                    self.offer_key_package(&mut frames, &package);
                    assert((frame_bytes(frames@), self@) == key_package_offer(
                        before,
                        Seq::empty(),
                        package,
                    ));
                }
            },
            TextEvent::Other => {},
        }
        frames
    }

    /// Append a frame with our key package (OP 26), if one could be generated.
    pub fn offer_key_package(
        &mut self,
        frames: &mut Vec<Vec<u8>>,
        package: &Result<Vec<u8>, SigilError>,
    )
        ensures
            final(self).speakers() == old(self).speakers(),
            (frame_bytes(final(frames)@), final(self)@) == key_package_offer(
                old(self)@,
                frame_bytes(old(frames)@),
                *package,
            ),
    {
        if let Ok(package) = package {
            self.push_frame(frames, 26, package.as_slice());
        }
    }

    /// A binary message came. Returns the frames to send.
    ///
    /// A message that cannot be parsed is passed over, and so is one that would
    /// commit in the last epoch there is.
    pub fn on_binary(&mut self, session: &mut SigilSession, message: &[u8]) -> (frames: Vec<
        Vec<u8>,
    >)
        requires
            old(session).wf(),
        ensures
            final(session).wf(),
            final(self).speakers() == old(self).speakers(),
            binary_handled(
                (old(self)@, old(session)@),
                (final(self)@, final(session)@),
                message@,
                frame_bytes(frames@),
            ),
    {
        let ghost before = (self@, session@);
        let frames: Vec<Vec<u8>> = Vec::new();
        assert(frame_bytes(frames@) =~= Seq::empty());
        if message.len() < 3 {
            return frames;
        }
        let opcode: u8 = message[2];
        let event = session.handle_gateway_event(opcode, message);
        assert(dispatches_to(opcode, message@, event));
        match event {
            Err(_) => frames,
            Ok(DaveEvent::MlsExternalSender(payload)) => {
                let _ = session.set_external_sender(payload.credential.as_slice());
                frames
            },
            Ok(DaveEvent::MlsProposals { transition_id, operation_type, proposals }) => {
                if session.is_exhausted() {
                    return frames;
                }
                self.on_proposals(session, transition_id, proposals.as_slice())
            },
            Ok(DaveEvent::MlsWelcome(payload)) => {
                self.on_welcome(session, payload.transition_id, payload.welcome_bytes.as_slice())
            },
            Ok(DaveEvent::MlsAnnounceCommitTransition(payload)) => {
                if session.is_exhausted() {
                    return frames;
                }
                self.on_commit(session, payload.transition_id, payload.commit_bytes.as_slice())
            },
        }
    }

    /// OP 27: process the proposals, and answer with a commit.
    fn on_proposals(
        &mut self,
        session: &mut SigilSession,
        transition_id: u64,
        proposals: &[Vec<u8>],
    ) -> (frames: Vec<Vec<u8>>)
        requires
            old(session).wf(),
            old(session)@.can_commit(),
        ensures
            final(session).wf(),
            final(self).speakers() == old(self).speakers(),
            proposals_answered(
                (old(self)@, old(session)@),
                (final(self)@, final(session)@),
                transition_id,
                proposals@,
                frame_bytes(frames@),
            ),
    {
        let mut frames: Vec<Vec<u8>> = Vec::new();
        assert(frame_bytes(frames@) =~= Seq::empty());
        if proposals.len() == 0 {
            return frames;
        }
        let ghost before = (self@, session@);
        let processed = session.process_proposals(proposals);
        let ghost processing = (before.0, session@);
        assert(proposals_processed(before.1, processing.1, proposals@, processed));
        if processed.is_err() {
            return frames;
        }
        let pending: bool = session.has_pending_proposals();
        let result = session.commit_and_welcome();
        let ghost committing = session@;
        assert(committed(processing.1, committing, result));
        let (commit, welcome) = match result {
            Ok(messages) => messages,
            Err(_) => {
                assert(batch_committed(
                    processing,
                    (self@, session@),
                    transition_id,
                    frame_bytes(frames@),
                ));
                return frames;
            },
        };
        let own: bool = refresh_keys(session);
        self.answer_proposals(
            &mut frames,
            transition_id,
            commit.as_slice(),
            &welcome,
            pending,
            own,
        );
        let ghost after = (self@, session@);
        assert(keys_refreshed(committing, after.1, own));
        assert(batch_committed(processing, after, transition_id, frame_bytes(frames@)));
        frames
    }

    /// Append the answer to proposals: a CommitWelcome (OP 28) with the
    /// transition ID of the proposals. A commit that does not cover any proposal
    /// is followed by ReadyForTransition and, once our own key is there, by
    /// EncryptionReady.
    pub fn answer_proposals(
        &mut self,
        frames: &mut Vec<Vec<u8>>,
        transition_id: u64,
        commit: &[u8],
        welcome: &Option<Vec<u8>>,
        pending: bool,
        own: bool,
    )
        ensures
            final(self).speakers() == old(self).speakers(),
            (frame_bytes(final(frames)@), final(self)@) == commit_reply(
                old(self)@,
                frame_bytes(old(frames)@),
                transition_id,
                commit@,
                welcome_bytes(*welcome),
                pending,
                own,
            ),
    {
        let mut payload: Vec<u8> = Vec::new();
        payload.push((transition_id % 0x100) as u8);
        payload.push((transition_id / 0x100 % 0x100) as u8);
        payload.extend_from_slice(commit);
        if let Some(welcome) = welcome {
            payload.extend_from_slice(welcome.as_slice());
        }
        assert(payload@ =~= wire_transition(transition_id) + commit@ + welcome_bytes(*welcome));
        self.push_frame(frames, 28, payload.as_slice());
        if !pending {
            self.push_ready_for_transition(frames, transition_id);
        }
        if own {
            self.dave_ready = true;
            if !pending {
                self.push_encryption_ready(frames);
            }
        }
    }

    /// OP 30: join the group, and take the keys.
    fn on_welcome(
        &mut self,
        session: &mut SigilSession,
        transition_id: u64,
        welcome: &[u8],
    ) -> (frames: Vec<Vec<u8>>)
        requires
            old(session).wf(),
        ensures
            final(session).wf(),
            final(self).speakers() == old(self).speakers(),
            welcome_answered(
                (old(self)@, old(session)@),
                (final(self)@, final(session)@),
                transition_id,
                welcome@,
                frame_bytes(frames@),
            ),
    {
        let mut frames: Vec<Vec<u8>> = Vec::new();
        assert(frame_bytes(frames@) =~= Seq::empty());
        let ghost before = (self@, session@);
        let joined = session.join_group(welcome);
        let ghost joining = (before.0, session@);
        assert(welcome_joined(before.1, joining.1, welcome@, joined));
        if joined.is_err() {
            return frames;
        }
        let own: bool = refresh_keys(session);
        self.answer_transition(&mut frames, transition_id, own);
        let ghost after = (self@, session@);
        assert(keys_refreshed(joining.1, after.1, own));
        assert(transition_answered(joining, after, transition_id, frame_bytes(frames@)));
        frames
    }

    /// OP 29: take the commit, and the keys of the new epoch.
    fn on_commit(
        &mut self,
        session: &mut SigilSession,
        transition_id: u64,
        commit: &[u8],
    ) -> (frames: Vec<Vec<u8>>)
        requires
            old(session).wf(),
            old(session)@.can_commit(),
        ensures
            final(session).wf(),
            final(self).speakers() == old(self).speakers(),
            commit_answered(
                (old(self)@, old(session)@),
                (final(self)@, final(session)@),
                transition_id,
                commit@,
                frame_bytes(frames@),
            ),
    {
        let mut frames: Vec<Vec<u8>> = Vec::new();
        assert(frame_bytes(frames@) =~= Seq::empty());
        let ghost before = (self@, session@);
        let taken = session.process_commit(commit);
        let ghost taking = (before.0, session@);
        assert(commit_taken(before.1, taking.1, commit@, taken));
        let own: bool = refresh_keys(session);
        self.answer_transition(&mut frames, transition_id, own);
        let ghost after = (self@, session@);
        assert(keys_refreshed(taking.1, after.1, own));
        assert(transition_answered(taking, after, transition_id, frame_bytes(frames@)));
        frames
    }

    /// Append the answer to a transition: ReadyForTransition, then
    /// EncryptionReady unless one has been sent in this epoch.
    pub fn answer_transition(
        &mut self,
        frames: &mut Vec<Vec<u8>>,
        transition_id: u64,
        own: bool,
    )
        ensures
            final(self).speakers() == old(self).speakers(),
            (frame_bytes(final(frames)@), final(self)@) == transition_reply(
                old(self)@,
                frame_bytes(old(frames)@),
                transition_id,
                own,
            ),
    {
        self.push_ready_for_transition(frames, transition_id);
        if own {
            self.dave_ready = true;
        }
        self.push_encryption_ready(frames);
    }
}

/// The bytes of a welcome, if there is one.
pub open spec fn welcome_bytes(welcome: Option<Vec<u8>>) -> Seq<u8> {
    match welcome {
        Some(bytes) => bytes@,
        None => Seq::empty(),
    }
}

/// The frames that answer proposals, and the state behind them.
pub open spec fn commit_reply(
    state: DriverView,
    frames: Seq<Seq<u8>>,
    transition_id: u64,
    commit: Seq<u8>,
    welcome: Seq<u8>,
    pending: bool,
    own: bool,
) -> (Seq<Seq<u8>>, DriverView) {
    let (frames, state) = state.with_frame(
        frames,
        28,
        wire_transition(transition_id) + commit + welcome,
    );
    let ready = state.dave_ready || own;
    if pending {
        (frames, DriverView { dave_ready: ready, ..state })
    } else {
        let (frames, state) = state.with_frame(frames, 23, wire_transition(transition_id));
        let state = DriverView { dave_ready: ready, ..state };
        if own {
            state.with_encryption_ready(frames)
        } else {
            (frames, state)
        }
    }
}

/// The frames that answer a transition, and the state behind them.
pub open spec fn transition_reply(
    state: DriverView,
    frames: Seq<Seq<u8>>,
    transition_id: u64,
    own: bool,
) -> (Seq<Seq<u8>>, DriverView) {
    let (frames, state) = state.with_frame(frames, 23, wire_transition(transition_id));
    DriverView { dave_ready: state.dave_ready || own, ..state }.with_encryption_ready(frames)
}

/// The sequence number `n` numbers behind `seq`.
pub open spec fn seq_after(seq: u16, n: nat) -> u16
    decreases n,
{
    if n == 0 {
        seq
    } else {
        next_seq(seq_after(seq, (n - 1) as nat))
    }
}

/// Each frame carries the sequence number behind the one before it, from `start`
/// on.
pub open spec fn numbered_from(frames: Seq<Seq<u8>>, start: u16) -> bool {
    forall|i: int|
        0 <= i < frames.len() ==> (#[trigger] frames[i]).len() >= 3 && frames[i][0] == seq_after(
            start,
            i as nat,
        ) / 0x100 && frames[i][1] == seq_after(start, i as nat) % 0x100
}

/// The frames of an answer are numbered on from the state before it, and the
/// state behind it goes on where they end.
pub proof fn answers_are_numbered(
    state: DriverView,
    transition_id: u64,
    commit: Seq<u8>,
    welcome: Seq<u8>,
    pending: bool,
    own: bool,
)
    ensures
        ({
            let (frames, after) = commit_reply(
                state,
                Seq::empty(),
                transition_id,
                commit,
                welcome,
                pending,
                own,
            );
            numbered_from(frames, state.binary_seq) && after.binary_seq == seq_after(
                state.binary_seq,
                frames.len(),
            )
        }),
        ({
            let (frames, after) = transition_reply(state, Seq::empty(), transition_id, own);
            numbered_from(frames, state.binary_seq) && after.binary_seq == seq_after(
                state.binary_seq,
                frames.len(),
            )
        }),
{
    reveal_with_fuel(seq_after, 4);
}

/// In one epoch EncryptionReady is sent once: of two answered transitions, the
/// second calls for ReadyForTransition alone.
pub proof fn encryption_ready_once_per_epoch(
    state: DriverView,
    first: u64,
    second: u64,
    own_first: bool,
    own_second: bool,
)
    ensures
        ({
            let (_, after) = transition_reply(state, Seq::empty(), first, own_first);
            let (frames, _) = transition_reply(after, Seq::empty(), second, own_second);
            frames == seq![dave_frame(after.binary_seq, 23, wire_transition(second))]
        }),
{
    let (_, after) = transition_reply(state, Seq::empty(), first, own_first);
    let (frames, _) = transition_reply(after, Seq::empty(), second, own_second);
    assert(frames =~= seq![dave_frame(after.binary_seq, 23, wire_transition(second))]);
}

/// The frames that offer a key package (OP 26), and the state behind them; none
/// if it could not be generated.
pub open spec fn key_package_offer(
    state: DriverView,
    frames: Seq<Seq<u8>>,
    package: Result<Vec<u8>, SigilError>,
) -> (Seq<Seq<u8>>, DriverView) {
    match package {
        Ok(package) => state.with_frame(frames, 26, package@),
        Err(_) => (frames, state),
    }
}

/// What a JSON message makes of the state, and the frames it calls for.
///
/// A key package of ours is sent for epoch 1 alone, unless it cannot be
/// generated.
pub open spec fn text_handled(
    before: DriverView,
    after: DriverView,
    session: SigilSessionView,
    event: TextEvent,
    frames: Seq<Seq<u8>>,
) -> bool {
    match event {
        TextEvent::HeartbeatAck => frames.len() == 0 && after == (DriverView {
            heartbeat_acked: true,
            ..before
        }),
        TextEvent::Speaking(_) => frames.len() == 0 && after == before,
        TextEvent::PrepareTransition(transition_id) => (frames, after) == before.with_frame(
            Seq::empty(),
            23,
            wire_transition(transition_id),
        ),
        TextEvent::ExecuteTransition => frames.len() == 0 && after == (DriverView {
            encryption_ready_sent: false,
            ..before
        }),
        TextEvent::PrepareEpoch(epoch) => if epoch == 1 {
            exists|package: Result<Vec<u8>, SigilError>|
                {
                    &&& (frames, after) == #[trigger] key_package_offer(
                        before,
                        Seq::empty(),
                        package,
                    )
                    &&& package matches Ok(bytes) ==> offers_key_package(session, bytes@)
                }
        } else {
            frames.len() == 0 && after == before
        },
        TextEvent::Other => frames.len() == 0 && after == before,
    }
}

/// Who speaks after a JSON message: a Speaking message with a user ID that is a
/// number puts that user under its SSRC.
pub open spec fn speakers_after(
    before: Map<u32, UserId>,
    event: TextEvent,
) -> Map<u32, UserId> {
    match event {
        TextEvent::Speaking(speaking) => match speaking.user_id {
            Some(text) => match parsed_u64(text@) {
                Some(user_id) => before.insert(speaking.ssrc, user_id),
                None => before,
            },
            None => before,
        },
        _ => before,
    }
}

/// What proposals make of loop and session, and the frames they call for.
///
/// An empty batch, one that cannot be processed and one that cannot be committed
/// call for none.
pub open spec fn proposals_answered(
    before: (DriverView, SigilSessionView),
    after: (DriverView, SigilSessionView),
    transition_id: u64,
    proposals: Seq<Vec<u8>>,
    frames: Seq<Seq<u8>>,
) -> bool {
    if proposals.len() == 0 {
        frames.len() == 0 && after == before
    } else {
        exists|processing: SigilSessionView, r: Result<bool, SigilError>|
            {
                &&& #[trigger] proposals_processed(before.1, processing, proposals, r)
                &&& if r is Err {
                    frames.len() == 0 && after == (before.0, processing)
                } else {
                    batch_committed((before.0, processing), after, transition_id, frames)
                }
            }
    }
}

/// What committing a processed batch makes of loop and session, and the frames
/// it calls for.
pub open spec fn batch_committed(
    before: (DriverView, SigilSessionView),
    after: (DriverView, SigilSessionView),
    transition_id: u64,
    frames: Seq<Seq<u8>>,
) -> bool {
    let pending = before.1.group matches Some(group) && group.contents().pending_proposals > 0;
    exists|committing: SigilSessionView, r: Result<(Vec<u8>, Option<Vec<u8>>), SigilError>|
        {
            &&& #[trigger] committed(before.1, committing, r)
            &&& match r {
                Err(_) => frames.len() == 0 && after == (before.0, committing),
                Ok((commit, welcome)) => exists|own: bool|
                    {
                        &&& #[trigger] keys_refreshed(committing, after.1, own)
                        &&& (frames, after.0) == commit_reply(
                            before.0,
                            Seq::empty(),
                            transition_id,
                            commit@,
                            welcome_bytes(welcome),
                            pending,
                            own,
                        )
                    },
            }
        }
}

/// What a welcome makes of loop and session, and the frames it calls for: none
/// if the group cannot be joined.
pub open spec fn welcome_answered(
    before: (DriverView, SigilSessionView),
    after: (DriverView, SigilSessionView),
    transition_id: u64,
    welcome: Seq<u8>,
    frames: Seq<Seq<u8>>,
) -> bool {
    exists|joining: SigilSessionView, r: Result<(), SigilError>|
        {
            &&& #[trigger] welcome_joined(before.1, joining, welcome, r)
            &&& if r is Err {
                frames.len() == 0 && after == (before.0, joining)
            } else {
                transition_answered((before.0, joining), after, transition_id, frames)
            }
        }
}

/// What an announced commit makes of loop and session, and the frames it calls
/// for. The transition is answered even if the commit cannot be taken.
pub open spec fn commit_answered(
    before: (DriverView, SigilSessionView),
    after: (DriverView, SigilSessionView),
    transition_id: u64,
    commit: Seq<u8>,
    frames: Seq<Seq<u8>>,
) -> bool {
    exists|taking: SigilSessionView, r: Result<Epoch, SigilError>|
        {
            &&& #[trigger] commit_taken(before.1, taking, commit, r)
            &&& transition_answered((before.0, taking), after, transition_id, frames)
        }
}

/// The keys are refreshed, and the transition is answered.
pub open spec fn transition_answered(
    before: (DriverView, SigilSessionView),
    after: (DriverView, SigilSessionView),
    transition_id: u64,
    frames: Seq<Seq<u8>>,
) -> bool {
    exists|own: bool|
        {
            &&& #[trigger] keys_refreshed(before.1, after.1, own)
            &&& (frames, after.0) == transition_reply(
                before.0,
                Seq::empty(),
                transition_id,
                own,
            )
        }
}

/// What a binary message makes of loop and session, and the frames it calls
/// for.
pub open spec fn binary_handled(
    before: (DriverView, SigilSessionView),
    after: (DriverView, SigilSessionView),
    message: Seq<u8>,
    frames: Seq<Seq<u8>>,
) -> bool {
    if message.len() < 3 {
        frames.len() == 0 && after == before
    } else {
        exists|event: Result<DaveEvent, SigilError>|
            {
                &&& #[trigger] dispatches_to(message[2], message, event)
                &&& event_handled(before, after, event, frames)
            }
    }
}

/// What a parsed event makes of loop and session, and the frames it calls for.
pub open spec fn event_handled(
    before: (DriverView, SigilSessionView),
    after: (DriverView, SigilSessionView),
    event: Result<DaveEvent, SigilError>,
    frames: Seq<Seq<u8>>,
) -> bool {
    match event {
        Err(_) => frames.len() == 0 && after == before,
        Ok(DaveEvent::MlsExternalSender(payload)) => {
            &&& frames.len() == 0
            &&& after == (
                before.0,
                SigilSessionView {
                    pending_external_sender: match external_sender_in(payload.credential@) {
                        Some(sender) => Some(sender),
                        None => before.1.pending_external_sender,
                    },
                    ..before.1
                },
            )
        },
        Ok(DaveEvent::MlsProposals { transition_id, operation_type, proposals }) => if before.1.can_commit() {
            proposals_answered(before, after, transition_id, proposals@, frames)
        } else {
            frames.len() == 0 && after == before
        },
        Ok(DaveEvent::MlsWelcome(payload)) => welcome_answered(
            before,
            after,
            payload.transition_id,
            payload.welcome_bytes@,
            frames,
        ),
        Ok(DaveEvent::MlsAnnounceCommitTransition(payload)) => if before.1.can_commit() {
            commit_answered(
                before,
                after,
                payload.transition_id,
                payload.commit_bytes@,
                frames,
            )
        } else {
            frames.len() == 0 && after == before
        },
    }
}

/// The bytes of each frame.
pub open spec fn frame_bytes(frames: Seq<Vec<u8>>) -> Seq<Seq<u8>> {
    frames.map_values(|frame: Vec<u8>| frame@)
}

/// Every SSRC other than that of a Speaking message keeps the user it had before.
/// A Speaking message that names its user, by their ID in decimal, puts them
/// under its SSRC; one that names none changes nothing, nor does any other
/// message.
pub proof fn speakers_are_remembered(
    state: &mut DriverState,
    event: TextEvent,
    session: &SigilSession,
    frames: Vec<Vec<u8>>,
    user_id: UserId,
    other: u32,
)
    requires
        call_ensures(DriverState::on_text, (state, event, session), frames),
    ensures
        !(event is Speaking) ==> final(state).speakers() == old(state).speakers(),
        event matches TextEvent::Speaking(speaking) ==> {
            &&& other != speaking.ssrc ==> final(state).speakers().contains_key(other)
                == old(state).speakers().contains_key(other) && final(state).speakers()[other]
                == old(state).speakers()[other]
            &&& speaking.user_id is None ==> final(state).speakers() == old(state).speakers()
            &&& speaking.user_id matches Some(text) ==> (text@ == decimal(user_id as nat)
                ==> final(state).speakers().contains_key(speaking.ssrc)
                && final(state).speakers()[speaking.ssrc] == user_id)
        },
{
    lemma_numeral_is_parsed(user_id);
}

/// After two Speaking messages with different SSRCs both users are known, each
/// under their own SSRC.
pub proof fn both_speakers_are_known(
    first: &mut DriverState,
    second: &mut DriverState,
    session: &SigilSession,
    a: Speaking,
    b: Speaking,
    user_a: UserId,
    user_b: UserId,
    frames_a: Vec<Vec<u8>>,
    frames_b: Vec<Vec<u8>>,
    found_a: Option<UserId>,
    found_b: Option<UserId>,
    later: &DriverState,
)
    requires
        a.ssrc != b.ssrc,
        a.user_id matches Some(text) && text@ == decimal(user_a as nat),
        b.user_id matches Some(text) && text@ == decimal(user_b as nat),
        call_ensures(DriverState::on_text, (first, TextEvent::Speaking(a), session), frames_a),
        *old(second) == *final(first),
        call_ensures(DriverState::on_text, (second, TextEvent::Speaking(b), session), frames_b),
        *later == *final(second),
        call_ensures(DriverState::speaker, (later, a.ssrc), found_a),
        call_ensures(DriverState::speaker, (later, b.ssrc), found_b),
    ensures
        found_a == Some(user_a),
        found_b == Some(user_b),
{
    lemma_numeral_is_parsed(user_a);
    lemma_numeral_is_parsed(user_b);
}

/// A fresh loop knows no speaker, has sent nothing, and owes no acknowledgement.
pub proof fn loop_begins_empty(ssrc: u32, state: DriverState, other: u32, r: Option<UserId>)
    requires
        call_ensures(DriverState::new, (ssrc,), state),
        call_ensures(DriverState::speaker, (&state, other), r),
    ensures
        r is None,
        state@.ssrc == ssrc,
        state@.binary_seq == 0,
        state@.seq_ack is None,
        state@.missed_acks == 0,
        state@.heartbeat_acked,
        !state@.encryption_ready_sent,
        !state@.dave_ready,
{
}

/// A frame on the wire: the sequence number in two bytes, the more significant
/// first, the opcode, and what is sent with it.
spec fn is_frame(frame: Seq<u8>, seq: u16, opcode: u8, payload: Seq<u8>) -> bool {
    &&& frame.len() == 3 + payload.len()
    &&& 256 * frame[0] + frame[1] == seq
    &&& frame[2] == opcode
    &&& forall|i: int| 0 <= i < payload.len() ==> #[trigger] payload[i] == frame[3 + i]
}

proof fn lemma_is_frame(seq: u16, opcode: u8, payload: Seq<u8>)
    ensures
        is_frame(dave_frame(seq, opcode, payload), seq, opcode, payload),
{
    let frame = dave_frame(seq, opcode, payload);
    assert(frame[0] == seq / 0x100 && frame[1] == seq % 0x100);
}

/// An acknowledgement is noted, and says nothing more. A prepared transition is
/// answered with one frame of opcode 23 that echoes the low 16 bits of its ID,
/// the less significant byte first. An executed transition lets EncryptionReady
/// be sent again. A prepared epoch other than the first calls for nothing, and
/// the first for one frame of opcode 26 at most.
pub proof fn text_answers(
    state: &mut DriverState,
    event: TextEvent,
    session: &SigilSession,
    frames: Vec<Vec<u8>>,
)
    requires
        call_ensures(DriverState::on_text, (state, event, session), frames),
    ensures
        event is HeartbeatAck ==> frames@.len() == 0 && final(state)@ == (DriverView {
            heartbeat_acked: true,
            ..old(state)@
        }),
        event matches TextEvent::PrepareTransition(transition_id) ==> {
            &&& frames@.len() == 1
            &&& frames@[0]@.len() == 5
            &&& 256 * frames@[0]@[0] + frames@[0]@[1] == old(state)@.binary_seq
            &&& frames@[0]@[2] == 23
            &&& frames@[0]@[3] + 256 * frames@[0]@[4] == transition_id % 65536
            &&& final(state)@.binary_seq == (old(state)@.binary_seq + 1) % 65536
        },
        event is ExecuteTransition ==> frames@.len() == 0 && final(state)@ == (DriverView {
            encryption_ready_sent: false,
            ..old(state)@
        }),
        event is Speaking || event is Other ==> frames@.len() == 0 && final(state)@
            == old(state)@,
        event matches TextEvent::PrepareEpoch(epoch) ==> {
            &&& epoch != 1 ==> frames@.len() == 0 && final(state)@ == old(state)@
            &&& epoch == 1 ==> frames@.len() <= 1
            &&& frames@.len() == 1 ==> frames@[0]@.len() >= 3 && 256 * frames@[0]@[0]
                + frames@[0]@[1] == old(state)@.binary_seq && frames@[0]@[2] == 26
                && offers_key_package(session@, frames@[0]@.skip(3)) && final(state)@.binary_seq
                == (old(state)@.binary_seq + 1) % 65536
        },
        !(event is HeartbeatAck) ==> final(state)@.heartbeat_acked
            == old(state)@.heartbeat_acked,
        !(event is ExecuteTransition) ==> final(state)@.encryption_ready_sent
            == old(state)@.encryption_ready_sent,
        final(state)@.ssrc == old(state)@.ssrc,
        final(state)@.seq_ack == old(state)@.seq_ack,
        final(state)@.heartbeat_nonce == old(state)@.heartbeat_nonce,
        final(state)@.missed_acks == old(state)@.missed_acks,
        final(state)@.dave_ready == old(state)@.dave_ready,
{
    let texts = frame_bytes(frames@);
    assert(texts.len() == frames@.len());
    assert(frames@.len() > 0 ==> texts[0] == frames@[0]@);
    if let TextEvent::PrepareTransition(transition_id) = event {
        lemma_transition_frame(old(state)@.binary_seq, transition_id);
        lemma_next_seq(old(state)@.binary_seq);
    }
    if let TextEvent::PrepareEpoch(epoch) = event {
        if epoch == 1 && frames@.len() == 1 {
            let package = choose|package: Result<Vec<u8>, SigilError>|
                {
                    &&& (texts, final(state)@) == #[trigger] key_package_offer(
                        old(state)@,
                        Seq::empty(),
                        package,
                    )
                    &&& package matches Ok(bytes) ==> offers_key_package(session@, bytes@)
                };
            if let Ok(bytes) = package {
                lemma_is_frame(old(state)@.binary_seq, 26, bytes@);
                lemma_next_seq(old(state)@.binary_seq);
                assert(texts[0].skip(3) =~= bytes@);
            }
        }
    }
}

/// A tick sends a heartbeat that carries the time and the last sequence number that
/// came, unless the heartbeats of three ticks in a row went unacknowledged; then it
/// closes the connection.
pub proof fn heartbeats_carry_time(state: &mut DriverState, now: u64, action: HeartbeatAction)
    requires
        call_ensures(DriverState::on_heartbeat_tick, (state, now), action),
    ensures
        action == HeartbeatAction::Close <==> !old(state)@.heartbeat_acked
            && old(state)@.missed_acks >= 2,
        action != HeartbeatAction::Close ==> {
            &&& action == (HeartbeatAction::Send { nonce: now, seq_ack: old(state)@.seq_ack })
            &&& final(state)@.heartbeat_nonce == now
            &&& !final(state)@.heartbeat_acked
            &&& old(state)@.heartbeat_acked ==> final(state)@.missed_acks == 0
            &&& !old(state)@.heartbeat_acked ==> final(state)@.missed_acks
                == old(state)@.missed_acks + 1
        },
        action == HeartbeatAction::Close ==> final(state)@.heartbeat_nonce == old(
            state,
        )@.heartbeat_nonce && !final(state)@.heartbeat_acked,
        final(state)@ == (DriverView {
            heartbeat_nonce: final(state)@.heartbeat_nonce,
            heartbeat_acked: false,
            missed_acks: final(state)@.missed_acks,
            ..old(state)@
        }),
        final(state).speakers() == old(state).speakers(),
{
}

/// A heartbeat acknowledges the sequence number that came last: a message without
/// one leaves it as it was.
pub proof fn last_sequence_is_acknowledged(
    noted: &mut DriverState,
    seq: Option<u64>,
    ticked: &mut DriverState,
    now: u64,
    action: HeartbeatAction,
)
    requires
        call_ensures(DriverState::note_sequence, (noted, seq), ()),
        *old(ticked) == *final(noted),
        call_ensures(DriverState::on_heartbeat_tick, (ticked, now), action),
    ensures
        action matches HeartbeatAction::Send { nonce, seq_ack } ==> seq_ack == match seq {
            Some(n) => Some(n),
            None => old(noted)@.seq_ack,
        },
        final(noted)@ == (DriverView { seq_ack: final(noted)@.seq_ack, ..old(noted)@ }),
        seq is None ==> final(noted)@.seq_ack == old(noted)@.seq_ack,
        final(noted).speakers() == old(noted).speakers(),
{
}

/// A transition is answered with opcode 23 and the low 16 bits of its ID, the
/// less significant byte first, and then, unless that was sent in this epoch,
/// with opcode 12 and our SSRC in four bytes, the least significant first. The
/// frames are numbered on.
pub proof fn transition_answer_frames(
    state: &mut DriverState,
    frames: &mut Vec<Vec<u8>>,
    transition_id: u64,
    own: bool,
)
    requires
        call_ensures(DriverState::answer_transition, (state, frames, transition_id, own), ()),
        old(frames)@.len() == 0,
    ensures
        final(frames)@.len() == if old(state)@.encryption_ready_sent {
            1
        } else {
            2int
        },
        ({
            let f = final(frames)@[0]@;
            &&& f.len() == 5
            &&& 256 * f[0] + f[1] == old(state)@.binary_seq
            &&& f[2] == 23
            &&& f[3] + 256 * f[4] == transition_id % 65536
        }),
        !old(state)@.encryption_ready_sent ==> {
            let f = final(frames)@[1]@;
            &&& f.len() == 7
            &&& 256 * f[0] + f[1] == (old(state)@.binary_seq + 1) % 65536
            &&& f[2] == 12
            &&& f[3] + 256 * f[4] + 65536 * f[5] + 16777216 * f[6] == old(state)@.ssrc
        },
        final(state)@.binary_seq == (old(state)@.binary_seq + final(frames)@.len()) % 65536,
        final(state)@ == (DriverView {
            binary_seq: final(state)@.binary_seq,
            encryption_ready_sent: true,
            dave_ready: old(state)@.dave_ready || own,
            ..old(state)@
        }),
        final(state).speakers() == old(state).speakers(),
{
    let texts = frame_bytes(final(frames)@);
    assert(frame_bytes(old(frames)@) =~= Seq::empty());
    assert(texts.len() == final(frames)@.len());
    lemma_transition_reply(old(state)@, transition_id, own);
    assert(texts[0] == final(frames)@[0]@);
    if !old(state)@.encryption_ready_sent {
        assert(texts[1] == final(frames)@[1]@);
    }
}

proof fn lemma_transition_reply(state: DriverView, transition_id: u64, own: bool)
    ensures
        ({
            let (frames, after) = transition_reply(state, Seq::empty(), transition_id, own);
            &&& frames.len() == if state.encryption_ready_sent {
                1
            } else {
                2int
            }
            &&& frames[0].len() == 5
            &&& 256 * frames[0][0] + frames[0][1] == state.binary_seq
            &&& frames[0][2] == 23
            &&& frames[0][3] + 256 * frames[0][4] == transition_id % 65536
            &&& !state.encryption_ready_sent ==> {
                &&& frames[1].len() == 7
                &&& 256 * frames[1][0] + frames[1][1] == (state.binary_seq + 1) % 65536
                &&& frames[1][2] == 12
                &&& frames[1][3] + 256 * frames[1][4] + 65536 * frames[1][5] + 16777216
                    * frames[1][6] == state.ssrc
            }
            &&& after.binary_seq == (state.binary_seq + frames.len()) % 65536
            &&& after.encryption_ready_sent
        }),
{
    let (frames, after) = transition_reply(state, Seq::empty(), transition_id, own);
    lemma_transition_frame(state.binary_seq, transition_id);
    assert(frames[0] == dave_frame(state.binary_seq, 23, wire_transition(transition_id)));
    lemma_next_seq(state.binary_seq);
    if !state.encryption_ready_sent {
        let next = next_seq(state.binary_seq);
        lemma_ready_frame(next, state.ssrc);
        assert(frames[1] == dave_frame(next, 12, le_ssrc(state.ssrc)));
        lemma_next_seq(next);
    }
}

proof fn lemma_next_seq(seq: u16)
    ensures
        next_seq(seq) == (seq + 1) % 65536,
{
}

proof fn lemma_transition_frame(seq: u16, transition_id: u64)
    ensures
        ({
            let f = dave_frame(seq, 23, wire_transition(transition_id));
            &&& f.len() == 5
            &&& 256 * f[0] + f[1] == seq
            &&& f[2] == 23
            &&& f[3] + 256 * f[4] == transition_id % 65536
        }),
{
    let f = dave_frame(seq, 23, wire_transition(transition_id));
    assert(f[3] == transition_id % 0x100 && f[4] == transition_id / 0x100 % 0x100);
}

proof fn lemma_ready_frame(seq: u16, ssrc: u32)
    ensures
        ({
            let f = dave_frame(seq, 12, le_ssrc(ssrc));
            &&& f.len() == 7
            &&& 256 * f[0] + f[1] == seq
            &&& f[2] == 12
            &&& f[3] + 256 * f[4] + 65536 * f[5] + 16777216 * f[6] == ssrc
        }),
{
    let f = dave_frame(seq, 12, le_ssrc(ssrc));
    assert(f[3] == ssrc % 0x100 && f[4] == ssrc / 0x100 % 0x100 && f[5] == ssrc / 0x1_0000 % 0x100
        && f[6] == ssrc / 0x100_0000);
}

proof fn lemma_commit_frame(seq: u16, transition_id: u64, messages: Seq<u8>)
    ensures
        ({
            let f = dave_frame(seq, 28, wire_transition(transition_id) + messages);
            &&& f.len() == 5 + messages.len()
            &&& 256 * f[0] + f[1] == seq
            &&& f[2] == 28
            &&& f[3] + 256 * f[4] == transition_id % 65536
            &&& f.skip(5) == messages
        }),
{
    let f = dave_frame(seq, 28, wire_transition(transition_id) + messages);
    assert(f[3] == transition_id % 0x100 && f[4] == transition_id / 0x100 % 0x100);
    assert(f.skip(5) =~= messages);
}

/// Proposals are answered with opcode 28: the low 16 bits of their transition ID,
/// the less significant byte first, the commit, and the welcome if there is one.
/// Only where no proposal was pending the transition is answered at once, with
/// opcode 23, and only with our own key does opcode 12 follow that. The frames
/// are numbered on.
pub proof fn proposals_answer_frames(
    state: &mut DriverState,
    frames: &mut Vec<Vec<u8>>,
    transition_id: u64,
    commit: &[u8],
    welcome: &Option<Vec<u8>>,
    pending: bool,
    own: bool,
)
    requires
        call_ensures(
            DriverState::answer_proposals,
            (state, frames, transition_id, commit, welcome, pending, own),
            (),
        ),
        old(frames)@.len() == 0,
    ensures
        final(frames)@.len() == if pending {
            1
        } else if own && !old(state)@.encryption_ready_sent {
            3int
        } else {
            2
        },
        ({
            let f = final(frames)@[0]@;
            &&& f.len() >= 5
            &&& 256 * f[0] + f[1] == old(state)@.binary_seq
            &&& f[2] == 28
            &&& f[3] + 256 * f[4] == transition_id % 65536
            &&& f.skip(5) == commit@ + match *welcome {
                Some(bytes) => bytes@,
                None => Seq::empty(),
            }
        }),
        !pending ==> {
            let f = final(frames)@[1]@;
            &&& f.len() == 5
            &&& 256 * f[0] + f[1] == (old(state)@.binary_seq + 1) % 65536
            &&& f[2] == 23
            &&& f[3] + 256 * f[4] == transition_id % 65536
        },
        !pending && own && !old(state)@.encryption_ready_sent ==> {
            let f = final(frames)@[2]@;
            &&& f.len() == 7
            &&& 256 * f[0] + f[1] == (old(state)@.binary_seq + 2) % 65536
            &&& f[2] == 12
            &&& f[3] + 256 * f[4] + 65536 * f[5] + 16777216 * f[6] == old(state)@.ssrc
        },
        final(state)@.binary_seq == (old(state)@.binary_seq + final(frames)@.len()) % 65536,
        final(state)@ == (DriverView {
            binary_seq: final(state)@.binary_seq,
            encryption_ready_sent: old(state)@.encryption_ready_sent || (!pending && own),
            dave_ready: old(state)@.dave_ready || own,
            ..old(state)@
        }),
        final(state).speakers() == old(state).speakers(),
{
    let texts = frame_bytes(final(frames)@);
    let before = old(state)@;
    assert(frame_bytes(old(frames)@) =~= Seq::empty());
    assert(texts.len() == final(frames)@.len());
    lemma_commit_reply(before, transition_id, commit@, welcome_bytes(*welcome), pending, own);
    assert(texts[0] == final(frames)@[0]@);
    assert(texts.len() > 1 ==> texts[1] == final(frames)@[1]@);
    assert(texts.len() > 2 ==> texts[2] == final(frames)@[2]@);
}

proof fn lemma_commit_reply(
    state: DriverView,
    transition_id: u64,
    commit: Seq<u8>,
    welcome: Seq<u8>,
    pending: bool,
    own: bool,
)
    ensures
        ({
            let (frames, after) = commit_reply(
                state,
                Seq::empty(),
                transition_id,
                commit,
                welcome,
                pending,
                own,
            );
            &&& frames.len() == if pending {
                1
            } else if own && !state.encryption_ready_sent {
                3int
            } else {
                2
            }
            &&& frames[0].len() >= 5
            &&& 256 * frames[0][0] + frames[0][1] == state.binary_seq
            &&& frames[0][2] == 28
            &&& frames[0][3] + 256 * frames[0][4] == transition_id % 65536
            &&& frames[0].skip(5) == commit + welcome
            &&& !pending ==> {
                &&& frames[1].len() == 5
                &&& 256 * frames[1][0] + frames[1][1] == (state.binary_seq + 1) % 65536
                &&& frames[1][2] == 23
                &&& frames[1][3] + 256 * frames[1][4] == transition_id % 65536
            }
            &&& !pending && own && !state.encryption_ready_sent ==> {
                &&& frames[2].len() == 7
                &&& 256 * frames[2][0] + frames[2][1] == (state.binary_seq + 2) % 65536
                &&& frames[2][2] == 12
                &&& frames[2][3] + 256 * frames[2][4] + 65536 * frames[2][5] + 16777216
                    * frames[2][6] == state.ssrc
            }
            &&& after.binary_seq == (state.binary_seq + frames.len()) % 65536
        }),
{
    let (frames, after) = commit_reply(
        state,
        Seq::empty(),
        transition_id,
        commit,
        welcome,
        pending,
        own,
    );
    let id = wire_transition(transition_id);
    let first = state.binary_seq;
    let second = next_seq(first);
    let third = next_seq(second);
    lemma_next_seq(first);
    lemma_next_seq(second);
    lemma_next_seq(third);
    lemma_commit_frame(first, transition_id, commit + welcome);
    assert(id + commit + welcome =~= id + (commit + welcome));
    assert(frames[0] == dave_frame(first, 28, id + (commit + welcome)));
    if !pending {
        lemma_transition_frame(second, transition_id);
        assert(frames[1] == dave_frame(second, 23, id));
        if own && !state.encryption_ready_sent {
            lemma_ready_frame(third, state.ssrc);
            assert(frames[2] == dave_frame(third, 12, le_ssrc(state.ssrc)));
        }
    }
}

/// A binary message that is too short for its header, or whose opcode is none of
/// 25, 27, 29 and 30, changes nothing and is answered with nothing. An external
/// sender is answered with nothing either. Whatever is answered to proposals (27)
/// begins with a frame of opcode 28, and whatever is answered to a commit (29) or
/// a welcome (30) with one of opcode 23; both echo the transition ID of the
/// message byte for byte. A commit in an epoch that is not the last is always
/// answered.
pub proof fn transition_ids_are_echoed(
    state: &mut DriverState,
    session: &mut SigilSession,
    message: &[u8],
    frames: Vec<Vec<u8>>,
)
    requires
        call_ensures(DriverState::on_binary, (state, session, message), frames),
    ensures
        message@.len() < 3 || (message@[2] != 25 && message@[2] != 27 && message@[2] != 29
            && message@[2] != 30) ==> frames@.len() == 0 && final(state)@ == old(state)@
            && final(session)@ == old(session)@,
        message@.len() >= 3 && message@[2] == 25 ==> frames@.len() == 0 && final(state)@
            == old(state)@,
        frames@.len() > 0 ==> {
            let f = frames@[0]@;
            &&& message@.len() > 5
            &&& f.len() >= 5
            &&& 256 * f[0] + f[1] == old(state)@.binary_seq
            &&& message@[2] == 27 ==> f[2] == 28
            &&& message@[2] != 27 ==> f[2] == 23
            &&& f[3] == message@[3]
            &&& f[4] == message@[4]
        },
        message@.len() > 5 && message@[2] == 29 && old(session)@.can_commit() ==> frames@.len()
            >= 1 && final(state)@.encryption_ready_sent,
        final(state)@ == (DriverView {
            binary_seq: final(state)@.binary_seq,
            encryption_ready_sent: final(state)@.encryption_ready_sent,
            dave_ready: final(state)@.dave_ready,
            ..old(state)@
        }),
        old(state)@.dave_ready ==> final(state)@.dave_ready,
        old(state)@.encryption_ready_sent ==> final(state)@.encryption_ready_sent,
        final(state)@.binary_seq == (old(state)@.binary_seq + frames@.len()) % 65536,
        final(state).speakers() == old(state).speakers(),
{
    let texts = frame_bytes(frames@);
    assert(texts.len() == frames@.len());
    assert(frames@.len() > 0 ==> texts[0] == frames@[0]@);
    let before = (old(state)@, old(session)@);
    let after = (final(state)@, final(session)@);
    if message@.len() >= 3 {
        let event = choose|event: Result<DaveEvent, SigilError>|
            {
                &&& #[trigger] dispatches_to(message@[2], message@, event)
                &&& event_handled(before, after, event, texts)
            };
        let data = message@.skip(3);
        assert(data.len() >= 1 ==> data[0] == message@[3]);
        assert(data.len() >= 2 ==> data[1] == message@[4]);
        match event {
            Ok(DaveEvent::MlsProposals { transition_id, operation_type, proposals }) => {
                lemma_wire_transition(transition_id, data);
                if before.1.can_commit() {
                    lemma_proposals_answer(before, after, transition_id, proposals@, texts);
                }
            },
            Ok(DaveEvent::MlsWelcome(payload)) => {
                lemma_wire_transition(payload.transition_id, data);
                lemma_welcome_answer(
                    before,
                    after,
                    payload.transition_id,
                    payload.welcome_bytes@,
                    texts,
                );
            },
            Ok(DaveEvent::MlsAnnounceCommitTransition(payload)) => {
                lemma_wire_transition(payload.transition_id, data);
                if before.1.can_commit() {
                    lemma_commit_answer(
                        before,
                        after,
                        payload.transition_id,
                        payload.commit_bytes@,
                        texts,
                    );
                }
            },
            _ => {},
        }
    }
}

proof fn lemma_wire_transition(transition_id: u64, data: Seq<u8>)
    ensures
        data.len() >= 2 && transition_id == le_u16(data) ==> wire_transition(transition_id)
            == seq![data[0], data[1]],
{
}

/// What loop states have in common before and after a binary message.
spec fn same_but_dave(before: DriverView, after: DriverView, frames: Seq<Seq<u8>>) -> bool {
    &&& after == (DriverView {
        binary_seq: after.binary_seq,
        encryption_ready_sent: after.encryption_ready_sent,
        dave_ready: after.dave_ready,
        ..before
    })
    &&& before.dave_ready ==> after.dave_ready
    &&& before.encryption_ready_sent ==> after.encryption_ready_sent
    &&& after.binary_seq == (before.binary_seq + frames.len()) % 65536
}

/// A frame with a sequence number and an opcode that echoes a transition ID.
spec fn echoes(frame: Seq<u8>, seq: u16, opcode: u8, id: Seq<u8>) -> bool {
    &&& frame.len() >= 5
    &&& 256 * frame[0] + frame[1] == seq
    &&& frame[2] == opcode
    &&& frame[3] == id[0]
    &&& frame[4] == id[1]
}

proof fn lemma_transition_answer(
    before: (DriverView, SigilSessionView),
    after: (DriverView, SigilSessionView),
    transition_id: u64,
    frames: Seq<Seq<u8>>,
)
    requires
        transition_answered(before, after, transition_id, frames),
    ensures
        frames.len() >= 1,
        echoes(frames[0], before.0.binary_seq, 23, wire_transition(transition_id)),
        same_but_dave(before.0, after.0, frames),
        after.0.encryption_ready_sent,
{
    let own = choose|own: bool|
        {
            &&& #[trigger] keys_refreshed(before.1, after.1, own)
            &&& (frames, after.0) == transition_reply(
                before.0,
                Seq::empty(),
                transition_id,
                own,
            )
        };
    lemma_transition_reply(before.0, transition_id, own);
    let payload = wire_transition(transition_id);
    lemma_is_frame(before.0.binary_seq, 23, payload);
    assert(frames[0] == dave_frame(before.0.binary_seq, 23, payload));
    assert(payload[0] == frames[0][3] && payload[1] == frames[0][4]);
}

proof fn lemma_welcome_answer(
    before: (DriverView, SigilSessionView),
    after: (DriverView, SigilSessionView),
    transition_id: u64,
    welcome: Seq<u8>,
    frames: Seq<Seq<u8>>,
)
    requires
        welcome_answered(before, after, transition_id, welcome, frames),
    ensures
        frames.len() > 0 ==> echoes(
            frames[0],
            before.0.binary_seq,
            23,
            wire_transition(transition_id),
        ),
        same_but_dave(before.0, after.0, frames),
{
    let (joining, r) = choose|joining: SigilSessionView, r: Result<(), SigilError>|
        {
            &&& #[trigger] welcome_joined(before.1, joining, welcome, r)
            &&& if r is Err {
                frames.len() == 0 && after == (before.0, joining)
            } else {
                transition_answered((before.0, joining), after, transition_id, frames)
            }
        };
    if r is Ok {
        lemma_transition_answer((before.0, joining), after, transition_id, frames);
    }
}

proof fn lemma_commit_answer(
    before: (DriverView, SigilSessionView),
    after: (DriverView, SigilSessionView),
    transition_id: u64,
    commit: Seq<u8>,
    frames: Seq<Seq<u8>>,
)
    requires
        commit_answered(before, after, transition_id, commit, frames),
    ensures
        frames.len() >= 1,
        echoes(frames[0], before.0.binary_seq, 23, wire_transition(transition_id)),
        same_but_dave(before.0, after.0, frames),
        after.0.encryption_ready_sent,
{
    let (taking, r) = choose|taking: SigilSessionView, r: Result<Epoch, SigilError>|
        {
            &&& #[trigger] commit_taken(before.1, taking, commit, r)
            &&& transition_answered((before.0, taking), after, transition_id, frames)
        };
    lemma_transition_answer((before.0, taking), after, transition_id, frames);
}

proof fn lemma_proposals_answer(
    before: (DriverView, SigilSessionView),
    after: (DriverView, SigilSessionView),
    transition_id: u64,
    proposals: Seq<Vec<u8>>,
    frames: Seq<Seq<u8>>,
)
    requires
        proposals_answered(before, after, transition_id, proposals, frames),
    ensures
        frames.len() > 0 ==> proposals.len() > 0 && echoes(
            frames[0],
            before.0.binary_seq,
            28,
            wire_transition(transition_id),
        ),
        same_but_dave(before.0, after.0, frames),
{
    if proposals.len() > 0 {
        let (processing, r) = choose|processing: SigilSessionView, r: Result<bool, SigilError>|
            {
                &&& #[trigger] proposals_processed(before.1, processing, proposals, r)
                &&& if r is Err {
                    frames.len() == 0 && after == (before.0, processing)
                } else {
                    batch_committed((before.0, processing), after, transition_id, frames)
                }
            };
        if r is Ok {
            lemma_batch_answer((before.0, processing), after, transition_id, frames);
        }
    }
}

proof fn lemma_batch_answer(
    before: (DriverView, SigilSessionView),
    after: (DriverView, SigilSessionView),
    transition_id: u64,
    frames: Seq<Seq<u8>>,
)
    requires
        batch_committed(before, after, transition_id, frames),
    ensures
        frames.len() > 0 ==> echoes(
            frames[0],
            before.0.binary_seq,
            28,
            wire_transition(transition_id),
        ),
        same_but_dave(before.0, after.0, frames),
{
    let pending = before.1.group matches Some(group) && group.contents().pending_proposals > 0;
    let (committing, r) = choose|
        committing: SigilSessionView,
        r: Result<(Vec<u8>, Option<Vec<u8>>), SigilError>,
    |
        {
            &&& #[trigger] committed(before.1, committing, r)
            &&& match r {
                Err(_) => frames.len() == 0 && after == (before.0, committing),
                Ok((commit, welcome)) => exists|own: bool|
                    {
                        &&& #[trigger] keys_refreshed(committing, after.1, own)
                        &&& (frames, after.0) == commit_reply(
                            before.0,
                            Seq::empty(),
                            transition_id,
                            commit@,
                            welcome_bytes(welcome),
                            pending,
                            own,
                        )
                    },
            }
        };
    if let Ok((commit, welcome)) = r {
        let own = choose|own: bool|
            {
                &&& #[trigger] keys_refreshed(committing, after.1, own)
                &&& (frames, after.0) == commit_reply(
                    before.0,
                    Seq::empty(),
                    transition_id,
                    commit@,
                    welcome_bytes(welcome),
                    pending,
                    own,
                )
            };
        lemma_commit_reply(
            before.0,
            transition_id,
            commit@,
            welcome_bytes(welcome),
            pending,
            own,
        );
        let id = wire_transition(transition_id);
        let payload = id + commit@ + welcome_bytes(welcome);
        lemma_is_frame(before.0.binary_seq, 28, payload);
        assert(frames[0] == dave_frame(before.0.binary_seq, 28, payload));
        assert(payload[0] == frames[0][3] && payload[1] == frames[0][4]);
    }
}

/// A key package that could be generated is offered in one more frame, of opcode
/// 26, with its bytes; one that could not is not.
pub proof fn key_package_is_offered(
    state: &mut DriverState,
    frames: &mut Vec<Vec<u8>>,
    package: &Result<Vec<u8>, SigilError>,
)
    requires
        call_ensures(DriverState::offer_key_package, (state, frames, package), ()),
    ensures
        *package is Err ==> final(frames)@.len() == old(frames)@.len() && final(state)@ == old(
            state,
        )@,
        *package matches Ok(bytes) ==> {
            let f = final(frames)@.last()@;
            &&& final(frames)@.len() == old(frames)@.len() + 1
            &&& f.len() == 3 + bytes@.len()
            &&& 256 * f[0] + f[1] == old(state)@.binary_seq
            &&& f[2] == 26
            &&& f.skip(3) == bytes@
            &&& final(state)@.binary_seq == (old(state)@.binary_seq + 1) % 65536
        },
        final(state)@.dave_ready == old(state)@.dave_ready,
        final(state)@.encryption_ready_sent == old(state)@.encryption_ready_sent,
        final(state).speakers() == old(state).speakers(),
{
    let texts = frame_bytes(final(frames)@);
    assert(texts.len() == final(frames)@.len());
    assert(frame_bytes(old(frames)@).len() == old(frames)@.len());
    if let Ok(bytes) = *package {
        lemma_is_frame(old(state)@.binary_seq, 26, bytes@);
        lemma_next_seq(old(state)@.binary_seq);
        assert(texts.last() == final(frames)@.last()@);
        assert(texts.last().skip(3) =~= bytes@);
    }
}

/// An external sender that comes from the gateway makes of the session what
/// setting it does with the bytes behind the header.
pub proof fn external_sender_is_set(
    state: &mut DriverState,
    session: &mut SigilSession,
    message: &[u8],
    frames: Vec<Vec<u8>>,
    other: &mut SigilSession,
    payload: &[u8],
    r: Result<(), SigilError>,
)
    requires
        call_ensures(DriverState::on_binary, (state, session, message), frames),
        message@.len() > 3,
        message@[2] == 25,
        *old(other) == *old(session),
        payload@ == message@.skip(3),
        call_ensures(SigilSession::set_external_sender, (other, payload), r),
    ensures
        final(session)@ == final(other)@,
        frames@.len() == 0,
        final(state)@ == old(state)@,
{
    let texts = frame_bytes(frames@);
    assert(texts.len() == frames@.len());
    let before = (old(state)@, old(session)@);
    let after = (final(state)@, final(session)@);
    let event = choose|event: Result<DaveEvent, SigilError>|
        {
            &&& #[trigger] dispatches_to(message@[2], message@, event)
            &&& event_handled(before, after, event, texts)
        };
    assert(event is Ok);
    assert(final(session)@ =~= final(other)@);
}

/// Refreshing the keys of a session gives us ours exactly if there is a group in
/// which we are a member and which lists us, and then it is the one that the
/// group exports for us. Without a group nothing changes.
pub proof fn refreshing_gives_our_key(session: &mut SigilSession, own: bool)
    requires
        call_ensures(refresh_keys, (session,), own),
    ensures
        old(session)@.group is None ==> !own && final(session)@ == old(session)@,
        old(session)@.group matches Some(group) ==> {
            &&& group.contents().active ==> (own <==> member_users(
                group.contents().members,
            ).contains(old(session)@.user_id))
            &&& own ==> (final(session)@.own_key matches Some(key) && sender_key(
                group.mls,
                old(session)@.user_id,
            ) == Some(key@)) && final(session)@.gateway.send_nonce == 0
        },
        final(session)@.group == old(session)@.group,
{
    let before = old(session)@;
    let after = final(session)@;
    let keys = choose|keys: Option<Map<UserId, [u8; KEY_LENGTH]>>|
        {
            &&& #[trigger] keys_taken(before, after, members_of(before), keys)
            &&& own == (keys matches Some(keys) && keys.contains_key(before.user_id))
        };
    if let Some(keys) = keys {
        assert(keys.contains_key(before.user_id) <==> members_of(before).contains(before.user_id));
    }
}

/// Proposals without an entry, proposals and commits in the last epoch there is,
/// and what is no Welcome but comes as one, are answered with nothing and change
/// nothing.
pub proof fn some_messages_are_passed_over(
    state: &mut DriverState,
    session: &mut SigilSession,
    message: &[u8],
    frames: Vec<Vec<u8>>,
)
    requires
        call_ensures(DriverState::on_binary, (state, session, message), frames),
        message@.len() < 6 || (message@[2] == 27 && message@.len() == 6) || ((message@[2] == 27
            || message@[2] == 29) && !old(session)@.can_commit()) || (message@[2] == 30
            && !is_welcome_message(message@.skip(5))),
        message@.len() >= 3 ==> message@[2] != 25,
    ensures
        frames@.len() == 0,
        final(state)@ == old(state)@,
        final(session)@ == old(session)@,
{
    let texts = frame_bytes(frames@);
    assert(texts.len() == frames@.len());
    let before = (old(state)@, old(session)@);
    let after = (final(state)@, final(session)@);
    if message@.len() >= 3 {
        let event = choose|event: Result<DaveEvent, SigilError>|
            {
                &&& #[trigger] dispatches_to(message@[2], message@, event)
                &&& event_handled(before, after, event, texts)
            };
        let data = message@.skip(3);
        assert(data.len() >= 2 ==> data.skip(2) =~= message@.skip(5));
        if let Ok(DaveEvent::MlsWelcome(payload)) = event {
            let (joining, r) = choose|joining: SigilSessionView, r: Result<(), SigilError>|
                {
                    &&& #[trigger] welcome_joined(before.1, joining, payload.welcome_bytes@, r)
                    &&& if r is Err {
                        texts.len() == 0 && after == (before.0, joining)
                    } else {
                        transition_answered(
                            (before.0, joining),
                            after,
                            payload.transition_id,
                            texts,
                        )
                    }
                };
            assert(r is Err);
        }
    }
}

/// Where proposals were pending, the answer to more of them is the commit alone.
/// Where none was, and a message comes that is none of the group, the commit is
/// not the whole answer: the transition is answered at once.
pub proof fn pending_proposals_defer_the_transition(
    state: &mut DriverState,
    session: &mut SigilSession,
    message: &[u8],
    frames: Vec<Vec<u8>>,
)
    requires
        call_ensures(DriverState::on_binary, (state, session, message), frames),
        message@.len() > 6,
        message@[2] == 27,
        old(session)@.can_commit(),
        old(session)@.group is Some,
    ensures
        old(session)@.group matches Some(group) ==> {
            let header = embedded_header(message@.skip(6));
            &&& group.contents().pending_proposals > 0 ==> frames@.len() <= 1
            &&& group.contents().pending_proposals == 0 && (header matches Some(found)
                ==> found.group_id != group.contents().group_id) ==> frames@.len() != 1
            &&& frames@.len() > 1 ==> frames@[1]@.len() == 5 && frames@[1]@[2] == 23
                && frames@[1]@[3] == message@[3] && frames@[1]@[4] == message@[4]
        },
{
    let texts = frame_bytes(frames@);
    assert(texts.len() == frames@.len());
    assert(frames@.len() > 1 ==> texts[1] == frames@[1]@);
    let before = (old(state)@, old(session)@);
    let after = (final(state)@, final(session)@);
    let group = before.1.group->0;
    let event = choose|event: Result<DaveEvent, SigilError>|
        {
            &&& #[trigger] dispatches_to(message@[2], message@, event)
            &&& event_handled(before, after, event, texts)
        };
    let data = message@.skip(3);
    assert(data[0] == message@[3] && data[1] == message@[4]);
    assert(data.skip(3) =~= message@.skip(6));
    if let Ok(DaveEvent::MlsProposals { transition_id, operation_type, proposals }) = event {
        lemma_wire_transition(transition_id, data);
        let (processing, r) = choose|processing: SigilSessionView, r: Result<bool, SigilError>|
            {
                &&& #[trigger] proposals_processed(before.1, processing, proposals@, r)
                &&& if r is Err {
                    texts.len() == 0 && after == (before.0, processing)
                } else {
                    batch_committed((before.0, processing), after, transition_id, texts)
                }
            };
        let outcomes = choose|outcomes: Seq<ProposalOutcome>|
            {
                &&& #[trigger] possible_outcomes(group.contents().group_id, proposals@, outcomes)
                &&& r->Ok_0 == empty_commit_needed(outcomes)
                &&& processing.group->0.only_stored(group, stored_count(outcomes))
            };
        if embedded_header(message@.skip(6)) matches Some(found) ==> found.group_id
            != group.contents().group_id {
            foreign_batch_needs_commit(group.contents().group_id, proposals@, outcomes, 0);
        }
        lemma_batch_frames((before.0, processing), after, transition_id, texts);
    }
}

proof fn lemma_batch_frames(
    before: (DriverView, SigilSessionView),
    after: (DriverView, SigilSessionView),
    transition_id: u64,
    frames: Seq<Seq<u8>>,
)
    requires
        batch_committed(before, after, transition_id, frames),
    ensures
        ({
            let pending = before.1.group matches Some(group)
                && group.contents().pending_proposals > 0;
            &&& pending ==> frames.len() <= 1
            &&& !pending ==> frames.len() != 1
        }),
        frames.len() > 1 ==> frames[1].len() == 5 && frames[1][2] == 23 && frames[1][3]
            == wire_transition(transition_id)[0] && frames[1][4] == wire_transition(
            transition_id,
        )[1],
{
    let pending = before.1.group matches Some(group) && group.contents().pending_proposals > 0;
    let (committing, r) = choose|
        committing: SigilSessionView,
        r: Result<(Vec<u8>, Option<Vec<u8>>), SigilError>,
    |
        {
            &&& #[trigger] committed(before.1, committing, r)
            &&& match r {
                Err(_) => frames.len() == 0 && after == (before.0, committing),
                Ok((commit, welcome)) => exists|own: bool|
                    {
                        &&& #[trigger] keys_refreshed(committing, after.1, own)
                        &&& (frames, after.0) == commit_reply(
                            before.0,
                            Seq::empty(),
                            transition_id,
                            commit@,
                            welcome_bytes(welcome),
                            pending,
                            own,
                        )
                    },
            }
        };
    if frames.len() > 1 {
        let id = wire_transition(transition_id);
        let second = next_seq(before.0.binary_seq);
        lemma_is_frame(second, 23, id);
        assert(frames[1] == dave_frame(second, 23, id));
        assert(id[0] == frames[1][3] && id[1] == frames[1][4]);
    }
}

/// Once a transition is answered with our own key at hand, DAVE is ready, and
/// stays so.
pub proof fn dave_gets_ready(
    state: &mut DriverState,
    frames: &mut Vec<Vec<u8>>,
    transition_id: u64,
    own: bool,
    ready: bool,
)
    requires
        call_ensures(DriverState::answer_transition, (state, frames, transition_id, own), ()),
        call_ensures(DriverState::is_dave_ready, (&*final(state),), ready),
    ensures
        ready <==> own || old(state)@.dave_ready,
{
}

/// `n` numbers behind a sequence number comes the one that is greater by `n`,
/// modulo 2^16.
pub proof fn sequence_numbers_count_up(seq: u16, n: nat)
    ensures
        seq_after(seq, n) == (seq + n) % 65536,
    decreases n,
{
    if n > 0 {
        sequence_numbers_count_up(seq, (n - 1) as nat);
        lemma_next_seq(seq_after(seq, (n - 1) as nat));
        let before = seq + n - 1;
        assert(before == 65536 * (before / 65536) + before % 65536);
    }
}

/// The user of a Speaking message is the number that its user ID is read as; one
/// that is no number changes nothing.
pub proof fn speakers_are_numbers(
    state: &mut DriverState,
    speaking: Speaking,
    session: &SigilSession,
    frames: Vec<Vec<u8>>,
    text: &str,
    parsed: Option<u64>,
)
    requires
        call_ensures(
            DriverState::on_text,
            (state, TextEvent::Speaking(speaking), session),
            frames,
        ),
        speaking.user_id matches Some(user_id) && user_id@ == text@,
        call_ensures(parse_u64, (text,), parsed),
    ensures
        parsed is None ==> final(state).speakers() == old(state).speakers(),
        parsed matches Some(user_id) ==> final(state).speakers().contains_key(speaking.ssrc)
            && final(state).speakers()[speaking.ssrc] == user_id,
{
}

} // verus!
