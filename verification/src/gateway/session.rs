//! Gateway-level DAVE session state machine.
//!
//! Tracks the MLS epoch lifecycle, manages the per-sender key ratchets,
//! and provides nonce management for frame encryption.

use std::collections::hash_map::Entry;
use std::collections::HashMap;
use vstd::prelude::*;
use crate::crypto::key_ratchet::KeyRatchet;
use crate::types::{Epoch, UserId};

verus! {

broadcast use vstd::std_specs::hash::group_hash_axioms;

/// The state of the DAVE gateway session.
#[derive(Debug, Clone, Copy, PartialEq, Eq, Structural)]
pub enum SessionState {
    /// No MLS group is active.
    Disconnected,
    /// MLS group is being negotiated (proposals pending).
    Negotiating { epoch: Epoch },
    /// MLS group is established and keys are ready.
    Established { epoch: Epoch },
}

/// What a gateway session holds.
#[verifier::ext_equal]
pub struct DaveSessionView {
    pub user_id: UserId,
    pub state: SessionState,
    pub send_nonce: u32,
    pub ratchets: Map<UserId, KeyRatchet>,
    /// The ratchets that were replaced when the session was last established.
    pub previous_ratchets: Map<UserId, KeyRatchet>,
}

/// Gateway-level DAVE session managing epoch transitions and nonce state.
///
/// This is a lightweight state machine that sits between the MLS group
/// (managed by `SigilSession`) and the mixing loop.
/// It tracks:
/// - Current session state (disconnected / negotiating / established)
/// - The monotonic 32-bit send nonce (auto-incrementing per frame)
/// - Per-sender key ratchets for generation advancement
pub struct DaveSession {
    /// Our Discord user ID.
    pub user_id: UserId,
    /// Current session state.
    pub state: SessionState,
    /// Monotonic 32-bit nonce counter for outgoing frames.
    /// Resets to 0 on each new epoch (new key material).
    send_nonce: u32,
    /// Per-sender key ratchets for the current epoch.
    ratchets: HashMap<UserId, KeyRatchet>,
    /// The ratchets that were replaced, for frames that come out of order.
    previous_ratchets: HashMap<UserId, KeyRatchet>,
}

impl View for DaveSession {
    type V = DaveSessionView;

    closed spec fn view(&self) -> DaveSessionView {
        DaveSessionView {
            user_id: self.user_id,
            state: self.state,
            send_nonce: self.send_nonce,
            ratchets: self.ratchets@,
            previous_ratchets: self.previous_ratchets@,
        }
    }
}

/// Every ratchet is well formed.
pub open spec fn ratchets_wf(ratchets: Map<UserId, KeyRatchet>) -> bool {
    forall|uid: UserId| #[trigger] ratchets.contains_key(uid) ==> ratchets[uid].wf()
}

/// The nonces of a fresh epoch, which starts at 0, are the frame numbers, so the
/// generation (the most significant byte) advances every 2^24 frames.
pub proof fn nonces_of_an_epoch(k: nat)
    requires
        k <= u32::MAX,
    ensures
        nonce_after(0, k) == k,
        nonce_after(0, k) / 0x100_0000 == k / 0x100_0000,
    decreases k,
{
    if k > 0 {
        nonces_of_an_epoch((k - 1) as nat);
    }
}

/// From 0 on the counter hands out no nonce twice within 2^32 frames. (What sets it
/// back to 0, such as establishing the session anew, starts it again.)
pub proof fn nonces_do_not_repeat(i: nat, j: nat)
    requires
        i < j <= u32::MAX,
    ensures
        nonce_after(0, i) != nonce_after(0, j),
{
    nonces_of_an_epoch(i);
    nonces_of_an_epoch(j);
}

/// The send nonce after `k` nonces have been handed out from `start` on.
pub open spec fn nonce_after(start: u32, k: nat) -> u32
    decreases k,
{
    if k == 0 {
        start
    } else {
        next_nonce_value(nonce_after(start, (k - 1) as nat))
    }
}

/// The nonce behind `n`: 0 behind the highest.
pub open spec fn next_nonce_value(n: u32) -> u32 {
    if n == u32::MAX {
        0
    } else {
        (n + 1) as u32
    }
}

impl DaveSession {
    /// Every key ratchet of the session is well formed.
    pub open spec fn wf(&self) -> bool {
        ratchets_wf(self@.ratchets)
    }

    /// Create a new disconnected session.
    pub fn new(user_id: UserId) -> (session: Self)
        ensures
            session.wf(),
            session@ == (DaveSessionView {
                user_id,
                state: SessionState::Disconnected,
                send_nonce: 0,
                ratchets: Map::empty(),
                previous_ratchets: Map::empty(),
            }),
    {
        Self {
            user_id,
            state: SessionState::Disconnected,
            send_nonce: 0,
            ratchets: HashMap::new(),
            previous_ratchets: HashMap::new(),
        }
    }

    /// Our Discord user ID.
    pub fn user_id(&self) -> (user_id: UserId)
        ensures
            user_id == self@.user_id,
    {
        self.user_id
    }

    /// The current session state.
    pub fn state(&self) -> (state: &SessionState)
        ensures
            *state == self@.state,
    {
        &self.state
    }

    /// Transition to negotiating state for a given epoch.
    pub fn begin_negotiation(&mut self, epoch: Epoch)
        ensures
            final(self)@ == (DaveSessionView {
                state: SessionState::Negotiating { epoch },
                ..old(self)@
            }),
    {
        self.state = SessionState::Negotiating { epoch };
    }

    /// Establish the session with new key ratchets.
    ///
    /// **CRITICAL**: Resets `send_nonce` to 0 because the key material
    /// has changed. The receiving side derives `generation = nonce >> 24`,
    /// so a fresh epoch must start at nonce 0 to align with generation 0
    /// of the new ratchet.
    ///
    /// New ratchets are merged in; those of senders that are not among them
    /// stay. The ratchets that are replaced become the previous ones.
    pub fn establish(&mut self, epoch: Epoch, ratchets: HashMap<UserId, KeyRatchet>)
        requires
            old(self).wf(),
            ratchets_wf(ratchets@),
        ensures
            final(self).wf(),
            final(self)@ == (DaveSessionView {
                user_id: old(self)@.user_id,
                state: SessionState::Established { epoch },
                send_nonce: 0,
                ratchets: old(self)@.ratchets.union_prefer_right(ratchets@),
                previous_ratchets: old(self)@.ratchets.restrict(ratchets@.dom()),
            }),
    {
        self.state = SessionState::Established { epoch };
        self.send_nonce = 0;
        self.previous_ratchets.clear();
        let mut senders: Vec<UserId> = Vec::new();
        for sender in iter: ratchets.keys()
            invariant
                senders@ =~= iter.seq().unref().take(iter.index()),
                iter.index() == iter.seq().len() ==> senders@ =~= iter.seq().unref(),
                iter.seq().unref().to_set() == ratchets@.dom(),
                iter.seq().no_duplicates(),
        {
            senders.push(*sender);
        }
        assert(senders@.to_set() == ratchets@.dom());
        assert(senders@.no_duplicates());
        let ghost all = ratchets@;
        let ghost before = self.ratchets@;
        let mut rest: HashMap<UserId, KeyRatchet> = ratchets;
        let mut i: usize = 0;
        while i < senders.len()
            invariant
                i <= senders@.len(),
                senders@.to_set() == all.dom(),
                senders@.no_duplicates(),
                rest@ == all.remove_keys(senders@.take(i as int).to_set()),
                self.ratchets@ == before.union_prefer_right(
                    all.restrict(senders@.take(i as int).to_set()),
                ),
                self.previous_ratchets@ == before.restrict(senders@.take(i as int).to_set()),
                self.state == (SessionState::Established { epoch }),
                self.send_nonce == 0,
                self.user_id == old(self).user_id,
            decreases senders@.len() - i,
        {
            let sender: UserId = senders[i];
            let ghost done = senders@.take(i as int).to_set();
            let ghost next = senders@.take(i + 1).to_set();
            proof {
                assert(senders@.to_set().contains(sender));
                assert(!done.contains(sender));
                assert(senders@.take(i + 1) =~= senders@.take(i as int).push(sender));
                senders@.take(i as int).lemma_push_to_set_commute(sender);
            }
            if let Some(ratchet) = rest.remove(&sender) {
                if let Some(replaced) = self.ratchets.insert(sender, ratchet) {
                    self.previous_ratchets.insert(sender, replaced);
                }
            }
            proof {
                assert(self.previous_ratchets@ =~= before.restrict(next));
                assert(rest@ =~= all.remove_keys(next));
                assert(self.ratchets@ =~= before.union_prefer_right(all.restrict(next)));
            }
            i = i + 1;
        }
        proof {
            assert(senders@.take(senders@.len() as int) =~= senders@);
            assert(all.restrict(senders@.to_set()) =~= all);
        }
    }

    /// Get the next nonce and auto-increment.
    ///
    /// The nonce is a monotonic 32-bit counter that wraps around.
    /// Generation is derived as `nonce >> 24`, meaning after 2^24
    /// frames (~5.6 hours at 50fps), the generation advances and
    /// the key ratchet produces a new AES key.
    pub fn next_nonce(&mut self) -> (n: u32)
        ensures
            n == old(self)@.send_nonce,
            final(self)@ == (DaveSessionView {
                send_nonce: next_nonce_value(old(self)@.send_nonce),
                ..old(self)@
            }),
    {
        let n: u32 = self.send_nonce;
        self.send_nonce = self.send_nonce.wrapping_add(1);
        n
    }

    /// Peek at the current nonce without incrementing.
    pub fn current_nonce(&self) -> (n: u32)
        ensures
            n == self@.send_nonce,
    {
        self.send_nonce
    }

    /// Reset the nonce to 0 (e.g., on epoch change or reconnect).
    pub fn reset_nonce(&mut self)
        ensures
            final(self)@ == (DaveSessionView { send_nonce: 0, ..old(self)@ }),
    {
        self.send_nonce = 0;
    }

    /// Install the key ratchet of a sender. State and nonce stay as they are.
    pub fn install_ratchet(&mut self, sender_id: UserId, ratchet: KeyRatchet)
        requires
            old(self).wf(),
            ratchet.wf(),
        ensures
            final(self).wf(),
            final(self)@ == (DaveSessionView {
                ratchets: old(self)@.ratchets.insert(sender_id, ratchet),
                ..old(self)@
            }),
    {
        self.ratchets.insert(sender_id, ratchet);
    }

    /// Get a mutable reference to a sender's key ratchet.
    pub fn ratchet_mut(&mut self, sender_id: UserId) -> (r: Option<&mut KeyRatchet>)
        ensures
            match r {
                Some(ratchet) => old(self)@.ratchets.contains_key(sender_id) && *ratchet == old(
                    self,
                )@.ratchets[sender_id] && final(self)@ == (DaveSessionView {
                    ratchets: old(self)@.ratchets.insert(sender_id, *final(ratchet)),
                    ..old(self)@
                }),
                None => !old(self)@.ratchets.contains_key(sender_id) && final(self)@ == old(self)@,
            },
    {
        match self.ratchets.entry(sender_id) {
            Entry::Occupied(entry) => Some(entry.into_mut()),
            Entry::Vacant(_) => None,
        }
    }

    /// Get a reference to a sender's key ratchet.
    pub fn ratchet(&self, sender_id: UserId) -> (r: Option<&KeyRatchet>)
        ensures
            match r {
                Some(ratchet) => self@.ratchets.contains_key(sender_id) && *ratchet
                    == self@.ratchets[sender_id],
                None => !self@.ratchets.contains_key(sender_id),
            },
    {
        self.ratchets.get(&sender_id)
    }

    /// Get a reference to the key ratchet of a sender that was replaced when
    /// the session was last established.
    pub fn previous_ratchet(&self, sender_id: UserId) -> (r: Option<&KeyRatchet>)
        ensures
            match r {
                Some(ratchet) => self@.previous_ratchets.contains_key(sender_id) && *ratchet
                    == self@.previous_ratchets[sender_id],
                None => !self@.previous_ratchets.contains_key(sender_id),
            },
    {
        self.previous_ratchets.get(&sender_id)
    }

    /// Check if a ratchet exists for the given sender.
    pub fn has_ratchet(&self, sender_id: UserId) -> (b: bool)
        ensures
            b == self@.ratchets.contains_key(sender_id),
    {
        self.ratchets.contains_key(&sender_id)
    }

    /// Full reset: go back to disconnected, clear all state.
    pub fn reset(&mut self)
        ensures
            final(self).wf(),
            final(self)@ == (DaveSessionView {
                user_id: old(self)@.user_id,
                state: SessionState::Disconnected,
                send_nonce: 0,
                ratchets: Map::empty(),
                previous_ratchets: Map::empty(),
            }),
    {
        self.state = SessionState::Disconnected;
        self.send_nonce = 0;
        self.ratchets.clear();
        self.previous_ratchets.clear();
    }
}

/// Two nonces in a row differ by one, modulo 2^32, and handing them out changes
/// nothing but the counter.
pub proof fn nonces_count_up(
    first: &mut DaveSession,
    second: &mut DaveSession,
    a: u32,
    b: u32,
    peeked: u32,
)
    requires
        call_ensures(DaveSession::next_nonce, (first,), a),
        *old(second) == *final(first),
        call_ensures(DaveSession::current_nonce, (&*final(first),), peeked),
        call_ensures(DaveSession::next_nonce, (second,), b),
    ensures
        b == (a + 1) % 4294967296,
        peeked == b,
        final(first)@.user_id == old(first)@.user_id,
        final(first)@.state == old(first)@.state,
        final(first)@.ratchets == old(first)@.ratchets,
        final(first)@.previous_ratchets == old(first)@.previous_ratchets,
{
}

/// A session that is established anew hands out the nonce 0 first, and so does
/// one whose nonce was reset, one that was reset, and a fresh one.
pub proof fn epochs_start_at_nonce_zero(
    user_id: UserId,
    fresh: DaveSession,
    established: &mut DaveSession,
    epoch: Epoch,
    ratchets: HashMap<UserId, KeyRatchet>,
    nonce_reset: &mut DaveSession,
    reset: &mut DaveSession,
    started: &mut DaveSession,
    n: u32,
)
    requires
        call_ensures(DaveSession::new, (user_id,), fresh),
        call_ensures(DaveSession::establish, (established, epoch, ratchets), ()),
        call_ensures(DaveSession::reset_nonce, (nonce_reset,), ()),
        call_ensures(DaveSession::reset, (reset,), ()),
        *old(started) == fresh || *old(started) == *final(established) || *old(started)
            == *final(nonce_reset) || *old(started) == *final(reset),
        call_ensures(DaveSession::next_nonce, (started,), n),
    ensures
        n == 0,
        final(nonce_reset)@.state == old(nonce_reset)@.state,
        final(nonce_reset)@.ratchets == old(nonce_reset)@.ratchets,
{
}

/// Behind an establishment every sender that was given has the ratchet that was
/// given for them, and the one that they had before as their previous; every
/// other keeps theirs, and has no previous one.
pub proof fn ratchets_are_replaced_per_sender(
    session: &mut DaveSession,
    epoch: Epoch,
    ratchets: HashMap<UserId, KeyRatchet>,
    sender: UserId,
)
    requires
        call_ensures(DaveSession::establish, (session, epoch, ratchets), ()),
    ensures
        final(session)@.state == (SessionState::Established { epoch }),
        final(session)@.user_id == old(session)@.user_id,
        ratchets@.contains_key(sender) ==> final(session)@.ratchets.contains_key(sender)
            && final(session)@.ratchets[sender] == ratchets@[sender],
        ratchets@.contains_key(sender) && old(session)@.ratchets.contains_key(sender)
            ==> final(session)@.previous_ratchets.contains_key(sender)
            && final(session)@.previous_ratchets[sender] == old(session)@.ratchets[sender],
        !ratchets@.contains_key(sender) ==> final(session)@.ratchets.contains_key(sender) == old(
            session,
        )@.ratchets.contains_key(sender) && !final(session)@.previous_ratchets.contains_key(sender),
        !ratchets@.contains_key(sender) && old(session)@.ratchets.contains_key(sender)
            ==> final(session)@.ratchets[sender] == old(session)@.ratchets[sender],
{
}

/// A ratchet that is installed is found under its sender, and under no other;
/// nonce and state stay.
pub proof fn installed_ratchet_is_found(
    session: &mut DaveSession,
    sender: UserId,
    ratchet: KeyRatchet,
    other: UserId,
    found: Option<&KeyRatchet>,
    has: bool,
)
    requires
        call_ensures(DaveSession::install_ratchet, (session, sender, ratchet), ()),
        call_ensures(DaveSession::ratchet, (&*final(session), sender), found),
        call_ensures(DaveSession::has_ratchet, (&*final(session), sender), has),
    ensures
        found matches Some(it) && *it == ratchet,
        has,
        other != sender ==> final(session)@.ratchets.contains_key(other) == old(
            session,
        )@.ratchets.contains_key(other) && final(session)@.ratchets[other] == old(
            session,
        )@.ratchets[other],
        final(session)@.send_nonce == old(session)@.send_nonce,
        final(session)@.state == old(session)@.state,
        final(session)@.user_id == old(session)@.user_id,
        final(session)@.previous_ratchets == old(session)@.previous_ratchets,
{
}

/// Negotiating an epoch keeps nonce and ratchets; a reset forgets all but the user.
pub proof fn negotiation_keeps_keys_and_reset_forgets_them(
    negotiating: &mut DaveSession,
    epoch: Epoch,
    reset: &mut DaveSession,
    sender: UserId,
)
    requires
        call_ensures(DaveSession::begin_negotiation, (negotiating, epoch), ()),
        call_ensures(DaveSession::reset, (reset,), ()),
    ensures
        final(negotiating)@.state == (SessionState::Negotiating { epoch }),
        final(negotiating)@.send_nonce == old(negotiating)@.send_nonce,
        final(negotiating)@.ratchets == old(negotiating)@.ratchets,
        final(negotiating)@.previous_ratchets == old(negotiating)@.previous_ratchets,
        final(negotiating)@.user_id == old(negotiating)@.user_id,
        final(reset)@.state == SessionState::Disconnected,
        final(reset)@.send_nonce == 0,
        !final(reset)@.ratchets.contains_key(sender),
        !final(reset)@.previous_ratchets.contains_key(sender),
        final(reset)@.user_id == old(reset)@.user_id,
{
}

/// An established session says in which epoch, and hands out for each sender that
/// was given their new ratchet, and as the previous one the one they had.
pub proof fn established_session_tells_epoch(
    session: &mut DaveSession,
    epoch: Epoch,
    ratchets: HashMap<UserId, KeyRatchet>,
    sender: UserId,
    state: &SessionState,
    found: Option<&KeyRatchet>,
    previous: Option<&KeyRatchet>,
)
    requires
        call_ensures(DaveSession::establish, (session, epoch, ratchets), ()),
        ratchets@.contains_key(sender),
        call_ensures(DaveSession::state, (&*final(session),), state),
        call_ensures(DaveSession::ratchet, (&*final(session), sender), found),
        call_ensures(DaveSession::previous_ratchet, (&*final(session), sender), previous),
    ensures
        *state == (SessionState::Established { epoch }),
        found matches Some(ratchet) && *ratchet == ratchets@[sender],
        previous is Some <==> old(session)@.ratchets.contains_key(sender),
        previous matches Some(ratchet) ==> *ratchet == old(session)@.ratchets[sender],
{
}

/// A ratchet that is changed in place is changed for its sender alone.
pub proof fn ratchet_changes_in_place(
    session: &mut DaveSession,
    sender: UserId,
    r: Option<&mut KeyRatchet>,
    other: UserId,
)
    requires
        call_ensures(DaveSession::ratchet_mut, (session, sender), r),
    ensures
        r is Some <==> old(session)@.ratchets.contains_key(sender),
        r is None ==> final(session)@ == old(session)@,
        r is Some ==> final(session)@.ratchets.contains_key(sender),
        other != sender ==> final(session)@.ratchets.contains_key(other) == old(
            session,
        )@.ratchets.contains_key(other) && final(session)@.ratchets[other] == old(
            session,
        )@.ratchets[other],
        final(session)@.send_nonce == old(session)@.send_nonce,
        final(session)@.state == old(session)@.state,
        final(session)@.user_id == old(session)@.user_id,
        final(session)@.previous_ratchets == old(session)@.previous_ratchets,
{
}

} // verus!
