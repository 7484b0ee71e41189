//! Full MLS group lifecycle for DAVE sessions.
//!
//! Manages group creation, joining via Welcome, processing proposals
//! and commits, exporting per-sender keys, and epoch tracking.

use openmls::prelude::{MlsGroup, MlsGroupCreateConfig, MlsMessageOut};
use openmls_basic_credential::SignatureKeyPair;
use openmls_rust_crypto::OpenMlsRustCrypto;
use vstd::prelude::*;
use vstd::string::*;
use crate::error::{mls_error, mls_failure, SigilError};
use crate::mls::backend::{
    self, authenticator_bytes, config_contents, embedded_group_id, embedded_header, encoded_header,
    encodes_welcome, exported_secret, group_contents, header_of, is_add_proposal, is_mls_message,
    is_welcome_message, message_bytes, staged_here, staged_target, CommitTarget, ConfigContents,
    CredentialWithKeyView, GroupContents, IncomingMessage, MessageFault, MessageHeader, MessageKind,
    Processed,
};
use crate::mls::credential::{
    be_value, eight_bytes_value, identity_bytes, identity_fits, identity_is_unique,
    identity_of_user, identity_round_trip, user_id_from_identity, user_of_identity, DaveIdentity,
};
use crate::mls::framing::{is_well_framed, well_framed};
use crate::types::{Epoch, UserId, KEY_LENGTH, SENDER_KEY_LABEL};

verus! {

/// Read a message of a group from its bytes.
fn read_message(data: &[u8]) -> (r: Result<IncomingMessage, MessageFault>)
    ensures
        r matches Ok(incoming) ==> embedded_header(data@) == Some(header_of(incoming.message))
            && header_of(incoming.message).group_id == incoming.group_id@,
        r matches Err(fault) ==> embedded_header(data@) is None && (fault is Malformed
            <==> !is_mls_message(data@)),
{
    if is_well_framed(data) {
        backend::read_message(data)
    } else {
        Err(MessageFault::Malformed("not framed as an MLS message".to_owned()))
    }
}

/// The group id in the first message that has one; empty entries and messages
/// without are passed over.
pub open spec fn first_group_id(proposals: Seq<Vec<u8>>) -> Option<Seq<u8>>
    decreases proposals.len(),
{
    if proposals.len() == 0 {
        None
    } else if proposals[0]@.len() > 0 && embedded_group_id(proposals[0]@) is Some {
        embedded_group_id(proposals[0]@)
    } else {
        first_group_id(proposals.skip(1))
    }
}

/// Parse the MLS group ID out of the first parseable non-empty proposal.
///
/// Discord's SFU creates the group ID and embeds it in every MLS message
/// header. It has to be read from the OP 27 payload and used when
/// constructing the local group; otherwise every message fails with a
/// group-ID mismatch error.
///
/// # Returns
///
/// The group ID from the first proposal that deserialises successfully,
/// or `None` if the slice is empty or no message can be parsed.
pub fn extract_group_id_from_proposals(proposals_bytes: &[Vec<u8>]) -> (r: Option<Vec<u8>>)
    ensures
        match first_group_id(proposals_bytes@) {
            Some(id) => r matches Some(found) && found@ == id,
            None => r is None,
        },
{
    let mut i: usize = 0;
    assert(proposals_bytes@.skip(0) =~= proposals_bytes@);
    while i < proposals_bytes.len()
        invariant
            i <= proposals_bytes@.len(),
            first_group_id(proposals_bytes@) == first_group_id(proposals_bytes@.skip(i as int)),
        decreases proposals_bytes@.len() - i,
    {
        assert(proposals_bytes@.skip(i as int).skip(1) =~= proposals_bytes@.skip(i + 1));
        let data = &proposals_bytes[i];
        if data.len() > 0 {
            if let Ok(incoming) = read_message(data.as_slice()) {
                return Some(incoming.group_id);
            }
        }
        i = i + 1;
    }
    None
}

/// What became of one entry of a proposal batch.
#[derive(Debug, Clone, Copy, PartialEq, Eq, Structural)]
pub enum ProposalOutcome {
    /// There was nothing in it.
    Empty,
    /// It is not a message of a group, such as one of Discord's own types.
    Unreadable,
    /// The group refused it.
    Rejected,
    /// The proposal now waits to be committed.
    Stored,
    /// The group accepted the proposal, but the store did not take it.
    NotStored,
    /// It was a commit.
    Commit,
    /// It was something else.
    Other,
}

impl ProposalOutcome {
    /// Something came that could not be handled.
    pub open spec fn unhandled(self) -> bool {
        self is Unreadable || self is Rejected
    }
}

/// What can become of an entry in the group with an id, going by its bytes.
pub open spec fn possible_outcome(
    group_id: Seq<u8>,
    data: Seq<u8>,
    outcome: ProposalOutcome,
) -> bool {
    if data.len() == 0 {
        outcome is Empty
    } else {
        match embedded_header(data) {
            None => outcome is Unreadable,
            Some(header) => if header.group_id != group_id {
                outcome is Rejected
            } else {
                match outcome {
                    ProposalOutcome::Empty | ProposalOutcome::Unreadable => false,
                    ProposalOutcome::Rejected => true,
                    ProposalOutcome::Stored | ProposalOutcome::NotStored => header.kind is Proposal,
                    ProposalOutcome::Commit => header.kind is Commit,
                    ProposalOutcome::Other => !(header.kind is Commit),
                }
            },
        }
    }
}

/// `outcomes` can be what became of the entries of a batch.
pub open spec fn possible_outcomes(
    group_id: Seq<u8>,
    proposals: Seq<Vec<u8>>,
    outcomes: Seq<ProposalOutcome>,
) -> bool {
    &&& outcomes.len() == proposals.len()
    &&& forall|i: int|
        0 <= i < proposals.len() ==> possible_outcome(
            group_id,
            proposals[i]@,
            #[trigger] outcomes[i],
        )
}

/// Something in a batch could not be handled.
pub open spec fn any_unhandled(outcomes: Seq<ProposalOutcome>) -> bool {
    exists|i: int| 0 <= i < outcomes.len() && (#[trigger] outcomes[i]).unhandled()
}

/// A batch calls for an empty commit: something came that could not be
/// handled, and nothing was stored.
pub open spec fn empty_commit_needed(outcomes: Seq<ProposalOutcome>) -> bool {
    any_unhandled(outcomes) && stored_count(outcomes) == 0
}

/// How many proposals a batch has put into the store.
pub open spec fn stored_count(outcomes: Seq<ProposalOutcome>) -> nat
    decreases outcomes.len(),
{
    if outcomes.len() == 0 {
        0
    } else if outcomes.last() is Stored {
        stored_count(outcomes.drop_last()) + 1
    } else {
        stored_count(outcomes.drop_last())
    }
}

/// A batch with something in it, none of which is a message of the group, calls
/// for an empty commit, and puts nothing into the store: under a wrong group ID
/// every message fails.
pub proof fn foreign_batch_needs_commit(
    group_id: Seq<u8>,
    proposals: Seq<Vec<u8>>,
    outcomes: Seq<ProposalOutcome>,
    k: int,
)
    requires
        possible_outcomes(group_id, proposals, outcomes),
        0 <= k < proposals.len() && proposals[k]@.len() > 0,
        forall|i: int| #![trigger proposals[i]]
            0 <= i < proposals.len() ==> embedded_group_id(proposals[i]@) != Some(group_id),
    ensures
        empty_commit_needed(outcomes),
        stored_count(outcomes) == 0,
{
    assert(possible_outcome(group_id, proposals[k]@, outcomes[k]));
    assert(outcomes[k].unhandled());
    assert forall|i: int| 0 <= i < outcomes.len() implies !((#[trigger] outcomes[i]) is Stored) by {
        assert(possible_outcome(group_id, proposals[i]@, outcomes[i]));
    }
    lemma_none_stored(outcomes);
}

/// An entry that is not empty and not a message of a group is told, whatever else
/// came with it.
pub proof fn unreadable_entry_is_told(
    group_id: Seq<u8>,
    proposals: Seq<Vec<u8>>,
    outcomes: Seq<ProposalOutcome>,
    k: int,
)
    requires
        possible_outcomes(group_id, proposals, outcomes),
        0 <= k < proposals.len() && proposals[k]@.len() > 0,
        embedded_header(proposals[k]@) is None,
    ensures
        any_unhandled(outcomes),
{
    assert(possible_outcome(group_id, proposals[k]@, outcomes[k]));
    assert(outcomes[k].unhandled());
}

/// A batch of nothing but empty entries calls for no commit.
pub proof fn padding_needs_no_commit(
    group_id: Seq<u8>,
    proposals: Seq<Vec<u8>>,
    outcomes: Seq<ProposalOutcome>,
)
    requires
        possible_outcomes(group_id, proposals, outcomes),
        forall|i: int| #![trigger proposals[i]]
            0 <= i < proposals.len() ==> proposals[i]@.len() == 0,
    ensures
        !any_unhandled(outcomes),
        stored_count(outcomes) == 0,
{
    assert forall|i: int| 0 <= i < outcomes.len() implies (#[trigger] outcomes[i]) is Empty by {
        assert(possible_outcome(group_id, proposals[i]@, outcomes[i]));
    }
    lemma_none_stored(outcomes);
}

proof fn lemma_none_stored(outcomes: Seq<ProposalOutcome>)
    requires
        forall|i: int| 0 <= i < outcomes.len() ==> !((#[trigger] outcomes[i]) is Stored),
    ensures
        stored_count(outcomes) == 0,
    decreases outcomes.len(),
{
    if outcomes.len() > 0 {
        assert forall|i: int| 0 <= i < outcomes.drop_last().len() implies !((
        #[trigger] outcomes.drop_last()[i]) is Stored) by {
            assert(outcomes.drop_last()[i] == outcomes[i]);
        }
        lemma_none_stored(outcomes.drop_last());
    }
}

/// Tell from what became of a batch whether something could not be handled.
pub fn has_unhandled(outcomes: &[ProposalOutcome]) -> (unhandled: bool)
    ensures
        unhandled == any_unhandled(outcomes@),
{
    let mut i: usize = 0;
    while i < outcomes.len()
        invariant
            i <= outcomes@.len(),
            forall|j: int| 0 <= j < i ==> !(#[trigger] outcomes@[j]).unhandled(),
        decreases outcomes@.len() - i,
    {
        match outcomes[i] {
            ProposalOutcome::Unreadable | ProposalOutcome::Rejected => {
                assert(outcomes@[i as int].unhandled());
                return true;
            },
            ProposalOutcome::Stored
            | ProposalOutcome::NotStored
            | ProposalOutcome::Commit
            | ProposalOutcome::Empty
            | ProposalOutcome::Other => {},
        }
        i = i + 1;
    }
    false
}

/// Decide from what became of a batch whether the caller has to answer it with
/// an empty commit.
///
/// If real proposals were stored, committing those covers the batch.
pub fn needs_empty_commit(outcomes: &[ProposalOutcome]) -> (needed: bool)
    ensures
        needed == empty_commit_needed(outcomes@),
{
    let mut stored: bool = false;
    let mut i: usize = 0;
    while i < outcomes.len()
        invariant
            i <= outcomes@.len(),
            stored == (stored_count(outcomes@.take(i as int)) > 0),
        decreases outcomes@.len() - i,
    {
        assert(outcomes@.take(i + 1).drop_last() =~= outcomes@.take(i as int));
        if let ProposalOutcome::Stored = outcomes[i] {
            stored = true;
        }
        i = i + 1;
    }
    assert(outcomes@.take(outcomes@.len() as int) =~= outcomes@);
    has_unhandled(outcomes) && !stored
}

/// The users that the members of a group stand for, in their order; a member
/// whose identity does not have eight bytes is left out.
pub open spec fn member_users(members: Seq<CredentialWithKeyView>) -> Seq<UserId>
    decreases members.len(),
{
    if members.len() == 0 {
        Seq::empty()
    } else {
        let before = member_users(members.drop_last());
        match user_of_identity(members.last().credential.content) {
            Some(user_id) => before.push(user_id),
            None => before,
        }
    }
}

/// A member with the credential of a user stands for that user.
pub proof fn member_is_listed(members: Seq<CredentialWithKeyView>, i: int, user_id: UserId)
    requires
        0 <= i < members.len(),
        members[i].credential.content == identity_bytes(user_id),
    ensures
        member_users(members).contains(user_id),
    decreases members.len(),
{
    identity_round_trip(user_id);
    let before = member_users(members.drop_last());
    if i == members.len() - 1 {
        let users = before.push(user_id);
        assert(users[before.len() as int] == user_id);
    } else {
        member_is_listed(members.drop_last(), i, user_id);
        let j = choose|j: int| 0 <= j < before.len() && before[j] == user_id;
        assert(member_users(members)[j] == user_id);
    }
}

/// The exporter context of a sender: the user ID in eight little-endian bytes.
pub open spec fn sender_context(sender_id: UserId) -> Seq<u8> {
    identity_bytes(sender_id).reverse()
}

/// The exporter context of a sender.
fn context_of_sender(sender_id: UserId) -> (context: Vec<u8>)
    ensures
        context@ == sender_context(sender_id),
{
    let identity = identity_of_user(sender_id);
    let mut context: Vec<u8> = Vec::new();
    let mut left: usize = identity.len();
    while left > 0
        invariant
            left <= identity@.len(),
            context@ == identity@.reverse().take(identity@.len() - left),
        decreases left,
    {
        left = left - 1;
        context.push(identity[left]);
        assert(context@ =~= identity@.reverse().take(identity@.len() - left));
    }
    assert(context@ =~= identity@.reverse());
    context
}

/// The key that a group exports for a sender; `None` if the export fails.
pub open spec fn sender_key(group: MlsGroup, sender_id: UserId) -> Option<Seq<u8>> {
    exported_secret(
        group,
        "Discord Secure Frames v0"@,
        sender_context(sender_id),
        KEY_LENGTH as nat,
    )
}

/// The exporter label is the text of the label bytes.
pub proof fn label_bytes()
    ensures
        "Discord Secure Frames v0".spec_bytes() == SENDER_KEY_LABEL@,
{
    reveal_strlit("Discord Secure Frames v0");
    let text = "Discord Secure Frames v0";
    assert(vstd::string::is_ascii(text));
    vstd::string::is_ascii_spec_bytes(text);
    assert(text.spec_bytes() =~= SENDER_KEY_LABEL@);
}

/// What a group holds once our own commit is merged.
pub open spec fn merged(before: GroupContents, target: CommitTarget) -> GroupContents {
    GroupContents {
        active: before.active && !target.removes_us,
        epoch: target.epoch,
        group_id: target.group_id,
        members: target.members,
        pending_proposals: 0,
        adds_pending: false,
        pending_commit: None,
        config: target.config,
    }
}

/// `target` is what a commit made in a group can lead to: the next epoch, with
/// us in it, and with members and configuration as they are unless a proposal is
/// pending.
pub open spec fn next_target(before: GroupContents, target: CommitTarget) -> bool {
    &&& before.active
    &&& !target.removes_us
    &&& target.epoch == before.epoch + 1
    &&& target.group_id == before.group_id
    &&& target.config.ciphersuite == before.config.ciphersuite
    &&& before.pending_proposals == 0 ==> target.members == before.members && target.config
        == before.config
}

/// A group that holds `contents` sends such messages for a commit: the first is a
/// commit of the group, and a Welcome goes with it exactly if a pending proposal
/// adds a member.
pub open spec fn commit_messages(
    contents: GroupContents,
    commit: Seq<u8>,
    welcome: Option<Seq<u8>>,
) -> bool {
    &&& encoded_header(commit) == Some(
        MessageHeader { group_id: contents.group_id, kind: MessageKind::Commit },
    )
    &&& welcome is Some <==> contents.adds_pending
    &&& welcome matches Some(welcome) ==> encodes_welcome(welcome)
}

/// What an incoming commit makes of a group, and `r`, what it yields. A message
/// that is no commit is taken without effect.
pub open spec fn commit_processed(
    before: DaveGroupView,
    after: DaveGroupView,
    commit: Seq<u8>,
    r: Result<(), SigilError>,
) -> bool {
    &&& after.user_id == before.user_id
    &&& match embedded_header(commit) {
        None => {
            &&& after == before
            &&& r matches Err(e)
            &&& if is_mls_message(commit) {
                mls_failure(e, "not a protocol message: "@)
            } else {
                mls_failure(e, "commit deserialize: "@)
            }
        },
        Some(header) => match r {
            Ok(_) => {
                &&& header.group_id == before.contents().group_id
                &&& before.contents().active
                &&& if header.kind is Commit {
                    &&& after.in_step()
                    &&& exists|target: CommitTarget|
                        {
                            &&& target.epoch == before.contents().epoch + 1
                            &&& target.group_id == before.contents().group_id
                            &&& target.config.ciphersuite == before.contents().config.ciphersuite
                            &&& #[trigger] after.took(before, target)
                        }
                } else {
                    after.only_stored(before, 0)
                }
            },
            Err(e) => {
                &&& after.current_epoch == before.current_epoch
                &&& {
                    ||| mls_failure(e, "process commit: "@) && after.only_stored(before, 0)
                    ||| mls_failure(e, "merge commit: "@) && header.kind is Commit
                        && header.group_id == before.contents().group_id
                }
            },
        },
    }
}

/// The bytes, if there are any.
pub open spec fn bytes_view(bytes: Option<Vec<u8>>) -> Option<Seq<u8>> {
    match bytes {
        Some(bytes) => Some(bytes@),
        None => None,
    }
}

/// Serialize a commit, and the Welcome that goes with it, if there is one.
///
/// # Errors
///
/// Returns [`SigilError::Mls`] if a message cannot be serialized.
pub fn serialize_commit(commit: &MlsMessageOut, welcome: &Option<MlsMessageOut>) -> (r: Result<
    (Vec<u8>, Option<Vec<u8>>),
    SigilError,
>)
    ensures
        match (message_bytes(*commit), *welcome) {
            (None, _) => r matches Err(e) && mls_failure(e, "commit serialize: "@),
            (Some(bytes), None) => r matches Ok((found, None)) && found@ == bytes,
            (Some(bytes), Some(welcome)) => match message_bytes(welcome) {
                None => r matches Err(e) && mls_failure(e, "welcome serialize: "@),
                Some(more) => r matches Ok((found, Some(found_more))) && found@ == bytes
                    && found_more@ == more,
            },
        },
{
    let commit_bytes = match backend::serialize_message(commit) {
        Ok(bytes) => bytes,
        Err(reason) => return Err(mls_error("commit serialize: ", reason)),
    };
    match welcome {
        Some(welcome) => match backend::serialize_message(welcome) {
            Ok(bytes) => Ok((commit_bytes, Some(bytes))),
            Err(reason) => Err(mls_error("welcome serialize: ", reason)),
        },
        None => Ok((commit_bytes, None)),
    }
}

/// What a [`DaveGroup`] holds.
pub struct DaveGroupView {
    pub mls: MlsGroup,
    pub current_epoch: Epoch,
    pub user_id: UserId,
}

impl DaveGroupView {
    /// What the underlying group holds.
    pub open spec fn contents(self) -> GroupContents {
        group_contents(self.mls)
    }

    /// The tracked epoch is the one that the underlying group is in.
    pub open spec fn in_step(self) -> bool {
        self.current_epoch == self.contents().epoch
    }

    /// At most the commit that waits to be merged is another than in `before`.
    pub open spec fn only_commit_differs(self, before: DaveGroupView) -> bool {
        &&& self.same_keys(before)
        &&& self.current_epoch == before.current_epoch
        &&& self.user_id == before.user_id
        &&& self.contents() == (GroupContents {
            pending_commit: self.contents().pending_commit,
            ..before.contents()
        })
    }

    /// The key of every sender is the same as in `before`.
    pub open spec fn same_keys(self, before: DaveGroupView) -> bool {
        forall|sender_id: UserId| #[trigger]
            sender_key(self.mls, sender_id) == sender_key(before.mls, sender_id)
    }

    /// Nothing but what is pending differs from `before`, where `stored` more
    /// proposals are.
    pub open spec fn only_stored(self, before: DaveGroupView, stored: nat) -> bool {
        &&& self.same_keys(before)
        &&& self.current_epoch == before.current_epoch
        &&& self.user_id == before.user_id
        &&& self.contents() == (GroupContents {
            pending_proposals: before.contents().pending_proposals + stored,
            adds_pending: self.contents().adds_pending,
            ..before.contents()
        })
        &&& before.contents().adds_pending ==> self.contents().adds_pending
        &&& stored == 0 ==> self.contents().adds_pending == before.contents().adds_pending
    }

    /// Where the commit of another member has led the group of `before`.
    pub open spec fn took(self, before: DaveGroupView, target: CommitTarget) -> bool {
        &&& self.contents() == (GroupContents {
            pending_proposals: self.contents().pending_proposals,
            adds_pending: self.contents().adds_pending,
            pending_commit: self.contents().pending_commit,
            ..merged(before.contents(), target)
        })
        &&& !target.removes_us ==> self.contents().pending_proposals == 0
            && !self.contents().adds_pending
        &&& before.contents().pending_commit is None ==> self.contents().pending_commit is None
    }

    /// A group that we have just joined.
    pub open spec fn is_joined(self) -> bool {
        &&& self.in_step()
        &&& self.contents().active
        &&& self.contents().pending_proposals == 0
        &&& !self.contents().adds_pending
        &&& self.contents().pending_commit is None
    }

    /// A fresh group of `identity` under `group_id`.
    pub open spec fn is_fresh(
        self,
        identity: CredentialWithKeyView,
        config: ConfigContents,
        group_id: Seq<u8>,
    ) -> bool {
        &&& self.in_step()
        &&& self.contents() == (GroupContents {
            active: true,
            epoch: 0,
            group_id,
            members: seq![identity],
            pending_proposals: 0,
            adds_pending: false,
            pending_commit: None,
            config,
        })
    }
}

/// An MLS group for a DAVE voice session.
///
/// Wraps the underlying `MlsGroup` and tracks the current epoch and
/// the local identity.
pub struct DaveGroup {
    /// The underlying OpenMLS group.
    mls_group: MlsGroup,
    /// The current MLS epoch number.
    pub current_epoch: Epoch,
    /// Our user ID (the keys are stored in the provider).
    identity_user_id: UserId,
}

impl View for DaveGroup {
    type V = DaveGroupView;

    closed spec fn view(&self) -> DaveGroupView {
        DaveGroupView {
            mls: self.mls_group,
            current_epoch: self.current_epoch,
            user_id: self.identity_user_id,
        }
    }
}

impl DaveGroup {
    /// Create a new MLS group as the initial member.
    ///
    /// `group_id` **must** be extracted from Discord's OP 27 proposal bytes
    /// via [`extract_group_id_from_proposals`] before calling this.  Passing
    /// an arbitrary or empty ID will cause every subsequent message to fail
    /// with a group-ID mismatch.
    ///
    /// # Errors
    ///
    /// Returns [`SigilError::Mls`] if group creation fails.
    pub fn create(
        identity: &DaveIdentity,
        provider: &OpenMlsRustCrypto,
        config: &MlsGroupCreateConfig,
        group_id: &[u8],
    ) -> (r: Result<Self, SigilError>)
        ensures
            match r {
                Ok(group) => group@.user_id == identity.user_id && group@.is_fresh(
                    identity.credential_with_key@,
                    config_contents(*config),
                    group_id@,
                ),
                Err(e) => mls_failure(e, "group creation: "@),
            },
    {
        let owner = &identity.credential_with_key;
        let mls_group = match backend::create_group(
            provider,
            &identity.signature_keys,
            config,
            group_id,
            owner.credential.credential_type,
            owner.credential.content.as_slice(),
            owner.signature_key.as_slice(),
        ) {
            Ok(group) => group,
            Err(reason) => return Err(mls_error("group creation: ", reason)),
        };
        let current_epoch: Epoch = backend::epoch_of(&mls_group);
        Ok(Self { mls_group, current_epoch, identity_user_id: identity.user_id })
    }

    /// Join an existing group via a serialized Welcome message.
    ///
    /// # Errors
    ///
    /// Returns [`SigilError::Mls`] if the bytes are not a Welcome message, or
    /// if the Welcome cannot be processed.
    pub fn join_from_welcome(
        identity: &DaveIdentity,
        provider: &OpenMlsRustCrypto,
        welcome_bytes: &[u8],
    ) -> (r: Result<Self, SigilError>)
        ensures
            if !is_mls_message(welcome_bytes@) {
                r matches Err(e) && mls_failure(e, "welcome deserialize: "@)
            } else if !is_welcome_message(welcome_bytes@) {
                r matches Err(SigilError::Mls(text)) && text@ == "message is not a Welcome"@
            } else {
                match r {
                    Ok(group) => group@.is_joined() && group@.user_id == identity.user_id,
                    Err(e) => mls_failure(e, "staged welcome: "@) || mls_failure(
                        e,
                        "welcome into group: "@,
                    ),
                }
            },
    {
        if !is_well_framed(welcome_bytes) {
            return Err(
                mls_error("welcome deserialize: ", "not framed as an MLS message".to_owned()),
            );
        }
        let welcome = match backend::read_welcome(welcome_bytes) {
            Ok(welcome) => welcome,
            Err(reason) => return Err(mls_error("welcome deserialize: ", reason)),
        };
        let welcome = match welcome {
            Some(welcome) => welcome,
            None => return Err(SigilError::Mls("message is not a Welcome".to_owned())),
        };
        let staged = match backend::stage_welcome(provider, welcome) {
            Ok(staged) => staged,
            Err(reason) => return Err(mls_error("staged welcome: ", reason)),
        };
        let mls_group = match backend::welcome_into_group(staged, provider) {
            Ok(group) => group,
            Err(reason) => return Err(mls_error("welcome into group: ", reason)),
        };
        let current_epoch: Epoch = backend::epoch_of(&mls_group);
        Ok(Self { mls_group, current_epoch, identity_user_id: identity.user_id })
    }

    /// Tear down and recreate the local MLS group using `group_id`.
    ///
    /// This is a last-resort recovery for when Discord's group ID does not
    /// match the one the group was created with. Prefer to extract the group
    /// ID with [`extract_group_id_from_proposals`] before
    /// [`create`](Self::create).
    ///
    /// After calling this, retry `process_proposals` with the same data.
    ///
    /// # Errors
    ///
    /// Returns [`SigilError::Mls`] if recreating the group fails; the group
    /// stays as it was.
    pub fn recreate_with_group_id(
        &mut self,
        identity: &DaveIdentity,
        provider: &OpenMlsRustCrypto,
        config: &MlsGroupCreateConfig,
        group_id: &[u8],
    ) -> (r: Result<(), SigilError>)
        ensures
            final(self)@.user_id == old(self)@.user_id,
            match r {
                Ok(_) => final(self)@.is_fresh(
                    identity.credential_with_key@,
                    config_contents(*config),
                    group_id@,
                ),
                Err(e) => mls_failure(e, "recreate group: "@) && final(self)@ == old(self)@,
            },
    {
        let owner = &identity.credential_with_key;
        let new_group = match backend::create_group(
            provider,
            &identity.signature_keys,
            config,
            group_id,
            owner.credential.credential_type,
            owner.credential.content.as_slice(),
            owner.signature_key.as_slice(),
        ) {
            Ok(group) => group,
            Err(reason) => return Err(mls_error("recreate group: ", reason)),
        };
        self.mls_group = new_group;
        self.current_epoch = backend::epoch_of(&self.mls_group);
        Ok(())
    }

    /// Merge our own pending commit so the local group state advances
    /// to the new epoch.
    ///
    /// # Errors
    ///
    /// Returns [`SigilError::Mls`] if the merge fails.
    pub fn merge_own_pending_commit(&mut self, provider: &OpenMlsRustCrypto) -> (r: Result<
        (),
        SigilError,
    >)
        ensures
            final(self)@.user_id == old(self)@.user_id,
            match r {
                Ok(_) => final(self)@.in_step() && match old(self)@.contents().pending_commit {
                    Some(target) => final(self)@.contents() == merged(
                        old(self)@.contents(),
                        target,
                    ),
                    None => final(self)@.contents() == old(self)@.contents(),
                },
                Err(e) => mls_failure(e, "merge_pending_commit: "@) && final(self)@.current_epoch
                    == old(self)@.current_epoch,
            },
            old(self)@.contents().pending_commit is None ==> (r is Ok <==> old(
                self,
            )@.contents().active) && final(self)@.mls == old(self)@.mls,
    {
        match backend::merge_pending_commit(&mut self.mls_group, provider) {
            Ok(_) => {},
            Err(reason) => return Err(mls_error("merge_pending_commit: ", reason)),
        }
        self.current_epoch = backend::epoch_of(&self.mls_group);
        Ok(())
    }

    /// Process incoming proposals from the delivery service.
    ///
    /// Each proposal is deserialized individually. One that cannot be
    /// (e.g., Discord's custom proposal type 16), or that the group refuses, is
    /// skipped instead of failing the entire batch. An accepted proposal is
    /// stored, so that [`has_pending_proposals`](Self::has_pending_proposals)
    /// is true and there is something to commit.
    ///
    /// # Return value
    ///
    /// Returns `Ok(true)` if something non-empty could not be deserialized or
    /// was refused. If nothing is pending then, the caller **must** respond with
    /// an empty commit via [`commit_empty`](Self::commit_empty) so that the MLS
    /// epoch advances and Discord delivers the epoch key.
    ///
    /// Returns `Ok(false)` when every entry was either processed or empty.
    pub fn process_proposals(
        &mut self,
        proposals_bytes: &[Vec<u8>],
        provider: &OpenMlsRustCrypto,
    ) -> (r: Result<bool, SigilError>)
        requires
            old(self)@.contents().epoch < u64::MAX,
        ensures
            r is Ok,
            exists|outcomes: Seq<ProposalOutcome>|
                {
                    &&& #[trigger] possible_outcomes(
                        old(self)@.contents().group_id,
                        proposals_bytes@,
                        outcomes,
                    )
                    &&& r->Ok_0 == any_unhandled(outcomes)
                    &&& final(self)@.only_stored(old(self)@, stored_count(outcomes))
                },
    {
        let outcomes = self.process_batch(proposals_bytes, provider);
        Ok(has_unhandled(outcomes.as_slice()))
    }

    /// Process the entries of a proposal batch, and tell what became of each.
    pub fn process_batch(
        &mut self,
        proposals_bytes: &[Vec<u8>],
        provider: &OpenMlsRustCrypto,
    ) -> (outcomes: Vec<ProposalOutcome>)
        requires
            old(self)@.contents().epoch < u64::MAX,
        ensures
            possible_outcomes(old(self)@.contents().group_id, proposals_bytes@, outcomes@),
            final(self)@.only_stored(old(self)@, stored_count(outcomes@)),
    {
        let mut outcomes: Vec<ProposalOutcome> = Vec::new();
        let mut i: usize = 0;
        while i < proposals_bytes.len()
            invariant
                i <= proposals_bytes@.len(),
                outcomes@.len() == i,
                forall|j: int|
                    0 <= j < i ==> possible_outcome(
                        old(self)@.contents().group_id,
                        proposals_bytes@[j]@,
                        #[trigger] outcomes@[j],
                    ),
                old(self)@.contents().epoch < u64::MAX,
                self@.only_stored(old(self)@, stored_count(outcomes@)),
            decreases proposals_bytes@.len() - i,
        {
            let outcome = self.process_one(proposals_bytes[i].as_slice(), provider);
            let ghost before = outcomes@;
            outcomes.push(outcome);
            assert(outcomes@.drop_last() =~= before);
            i = i + 1;
        }
        outcomes
    }

    /// Process one entry of a proposal batch.
    fn process_one(&mut self, data: &[u8], provider: &OpenMlsRustCrypto) -> (outcome:
        ProposalOutcome)
        requires
            old(self)@.contents().epoch < u64::MAX,
        ensures
            possible_outcome(old(self)@.contents().group_id, data@, outcome),
            final(self)@.only_stored(
                old(self)@,
                if outcome is Stored {
                    1
                } else {
                    0
                },
            ),
    {
        if data.len() == 0 {
            return ProposalOutcome::Empty;
        }
        let incoming = match read_message(data) {
            Ok(incoming) => incoming,
            Err(_) => return ProposalOutcome::Unreadable,
        };
        let processed = backend::process_message(&mut self.mls_group, provider, incoming.message);
        self.take_proposal(processed, provider)
    }

    /// Take what the group made of an entry of a proposal batch: a proposal is
    /// stored, so that it waits to be committed; a commit is not merged.
    pub fn take_proposal(
        &mut self,
        processed: Result<Processed, String>,
        provider: &OpenMlsRustCrypto,
    ) -> (outcome: ProposalOutcome)
        ensures
            match processed {
                Err(_) => outcome is Rejected,
                Ok(Processed::Proposal(_)) => outcome is Stored || outcome is NotStored,
                Ok(Processed::Commit(_)) => outcome is Commit,
                Ok(Processed::Other) => outcome is Other,
            },
            if outcome is Stored {
                &&& final(self)@.only_stored(old(self)@, 1)
                &&& processed matches Ok(Processed::Proposal(proposal))
                &&& final(self)@.contents().adds_pending == (old(self)@.contents().adds_pending
                    || is_add_proposal(*proposal))
            } else {
                final(self)@.only_stored(old(self)@, 0)
            },
    {
        match processed {
            Ok(Processed::Proposal(proposal)) => {
                match backend::store_pending_proposal(&mut self.mls_group, provider, proposal) {
                    Ok(_) => ProposalOutcome::Stored,
                    Err(_) => ProposalOutcome::NotStored,
                }
            },
            Ok(Processed::Commit(_)) => ProposalOutcome::Commit,
            Ok(Processed::Other) => ProposalOutcome::Other,
            Err(_) => ProposalOutcome::Rejected,
        }
    }

    /// Check if there are pending proposals waiting to be committed.
    pub fn has_pending_proposals(&self) -> (b: bool)
        ensures
            b == (self@.contents().pending_proposals > 0),
    {
        backend::any_pending_proposal(&self.mls_group)
    }

    /// Create a commit for pending proposals.
    ///
    /// Returns the serialized commit message and an optional Welcome message
    /// (present when the commit adds new members).
    ///
    /// # Errors
    ///
    /// Returns [`SigilError::Mls`] if commit creation fails.
    pub fn commit_pending(
        &mut self,
        provider: &OpenMlsRustCrypto,
        signer: &SignatureKeyPair,
    ) -> (r: Result<(Vec<u8>, Option<Vec<u8>>), SigilError>)
        requires
            old(self)@.contents().epoch < u64::MAX,
        ensures
            final(self)@.only_commit_differs(old(self)@),
            match r {
                Ok((commit, welcome)) => {
                    &&& final(self)@.contents().pending_commit matches Some(target)
                    &&& next_target(old(self)@.contents(), target)
                    &&& commit_messages(old(self)@.contents(), commit@, bytes_view(welcome))
                },
                Err(e) => mls_failure(e, "commit pending: "@) || mls_failure(
                    e,
                    "commit serialize: "@,
                ) || mls_failure(e, "welcome serialize: "@),
            },
    {
        let (commit, welcome) = match backend::commit_to_pending_proposals(
            &mut self.mls_group,
            provider,
            signer,
        ) {
            Ok(messages) => messages,
            Err(reason) => return Err(mls_error("commit pending: ", reason)),
        };
        serialize_commit(&commit, &welcome)
    }

    /// Create an **empty** commit (no pending proposals).
    ///
    /// Discord's DAVE handshake sends a custom proposal type (type 16) that
    /// OpenMLS cannot deserialize. It is skipped, so no proposals are stored.
    /// Discord still requires *a* commit so that:
    /// 1. The MLS epoch advances on both sides.
    /// 2. Discord knows that the proposal batch was processed.
    /// 3. Discord then delivers the epoch key, unblocking DAVE E2EE.
    ///
    /// Call this when `process_proposals` returns `Ok(true)` AND
    /// `has_pending_proposals()` is `false`.
    ///
    /// After sending the commit bytes over the wire the caller must also call
    /// `merge_own_pending_commit` to advance the local epoch.
    ///
    /// # Errors
    ///
    /// Returns [`SigilError::Mls`] if the empty commit cannot be created or
    /// serialized.
    pub fn commit_empty(
        &mut self,
        provider: &OpenMlsRustCrypto,
        signer: &SignatureKeyPair,
    ) -> (r: Result<Vec<u8>, SigilError>)
        requires
            old(self)@.contents().epoch < u64::MAX,
        ensures
            final(self)@.only_commit_differs(old(self)@),
            match r {
                Ok(commit) => {
                    &&& final(self)@.contents().pending_commit matches Some(target)
                    &&& next_target(old(self)@.contents(), target)
                    &&& encoded_header(commit@) == Some(
                        MessageHeader {
                            group_id: old(self)@.contents().group_id,
                            kind: MessageKind::Commit,
                        },
                    )
                },
                Err(e) => mls_failure(e, "empty commit: "@) || mls_failure(
                    e,
                    "empty commit serialize: "@,
                ),
            },
    {
        let (commit, _welcome) = match backend::commit_to_pending_proposals(
            &mut self.mls_group,
            provider,
            signer,
        ) {
            Ok(messages) => messages,
            Err(reason) => return Err(mls_error("empty commit: ", reason)),
        };
        match backend::serialize_message(&commit) {
            Ok(bytes) => Ok(bytes),
            Err(reason) => Err(mls_error("empty commit serialize: ", reason)),
        }
    }

    /// Process an incoming commit message and advance the epoch.
    ///
    /// # Errors
    ///
    /// Returns [`SigilError::Mls`] if the commit is invalid or processing fails.
    pub fn process_commit(
        &mut self,
        commit_bytes: &[u8],
        provider: &OpenMlsRustCrypto,
    ) -> (r: Result<(), SigilError>)
        requires
            old(self)@.contents().epoch < u64::MAX,
        ensures
            commit_processed(old(self)@, final(self)@, commit_bytes@, r),
    {
        let incoming = match read_message(commit_bytes) {
            Ok(incoming) => incoming,
            Err(MessageFault::Malformed(reason)) => return Err(
                mls_error("commit deserialize: ", reason),
            ),
            Err(MessageFault::NotProtocol(reason)) => return Err(
                mls_error("not a protocol message: ", reason),
            ),
        };
        match backend::process_message(&mut self.mls_group, provider, incoming.message) {
            Ok(processed) => {
                let ghost asked = self@;
                let ghost found = processed;
                let r = self.take_processed(processed, provider);
                proof {
                    if let Processed::Commit(commit) = found {
                        if r is Ok {
                            let target = staged_target(asked.mls, *commit);
                            assert(self@.took(old(self)@, target));
                        }
                    }
                }
                r
            },
            Err(reason) => Err(mls_error("process commit: ", reason)),
        }
    }

    /// Take what the group made of an incoming commit message: a commit is
    /// merged, and the tracked epoch advances with the group. Anything else is
    /// taken without effect.
    ///
    /// # Errors
    ///
    /// Returns [`SigilError::Mls`] if the commit cannot be merged.
    pub fn take_processed(&mut self, processed: Processed, provider: &OpenMlsRustCrypto) -> (r:
        Result<(), SigilError>)
        requires
            processed matches Processed::Commit(commit) ==> staged_here(old(self)@.mls, *commit),
        ensures
            final(self)@.user_id == old(self)@.user_id,
            match processed {
                Processed::Commit(commit) => match r {
                    Ok(_) => {
                        &&& final(self)@.in_step()
                        &&& final(self)@.took(old(self)@, staged_target(old(self)@.mls, *commit))
                    },
                    Err(e) => mls_failure(e, "merge commit: "@) && final(self)@.current_epoch
                        == old(self)@.current_epoch,
                },
                Processed::Proposal(_) | Processed::Other => r is Ok && final(self)@ == old(self)@,
            },
    {
        match processed {
            Processed::Commit(commit) => {
                match backend::merge_staged_commit(&mut self.mls_group, provider, commit) {
                    Ok(_) => {},
                    Err(reason) => return Err(mls_error("merge commit: ", reason)),
                }
                self.current_epoch = backend::epoch_of(&self.mls_group);
                Ok(())
            },
            Processed::Proposal(_) | Processed::Other => Ok(()),
        }
    }

    /// Export the per-sender encryption key for a given sender user ID.
    ///
    /// Uses MLS-Exporter with:
    /// - Label: `"Discord Secure Frames v0"`
    /// - Context: little-endian u64 sender ID
    /// - Length: 16 bytes
    ///
    /// # Errors
    ///
    /// Returns [`SigilError::Mls`] if the export fails.
    pub fn export_sender_key(
        &self,
        sender_id: UserId,
        provider: &OpenMlsRustCrypto,
    ) -> (r: Result<[u8; KEY_LENGTH], SigilError>)
        ensures
            match sender_key(self@.mls, sender_id) {
                Some(key) => r matches Ok(found) && found@ == key,
                None => r matches Err(e) && mls_failure(e, "export sender key: "@),
            },
            r is Ok <==> self@.contents().active,
    {
        proof {
            reveal_strlit("Discord Secure Frames v0");
        }
        let context = context_of_sender(sender_id);
        let exported = match backend::export_secret(
            &self.mls_group,
            provider,
            "Discord Secure Frames v0",
            context.as_slice(),
            KEY_LENGTH,
        ) {
            Ok(secret) => secret,
            Err(reason) => return Err(mls_error("export sender key: ", reason)),
        };
        let mut key: [u8; KEY_LENGTH] = [0u8; KEY_LENGTH];
        let mut i: usize = 0;
        while i < KEY_LENGTH
            invariant
                i <= KEY_LENGTH,
                exported@.len() == KEY_LENGTH,
                forall|j: int| 0 <= j < i ==> key@[j] == exported@[j],
            decreases KEY_LENGTH - i,
        {
            key[i] = exported[i];
            i = i + 1;
        }
        assert(key@ =~= exported@);
        Ok(key)
    }

    /// Returns the current MLS epoch number.
    pub fn epoch(&self) -> (epoch: Epoch)
        ensures
            epoch == self@.current_epoch,
    {
        self.current_epoch
    }

    /// Returns the epoch authenticator for the current epoch.
    pub fn epoch_authenticator(&self) -> (authenticator: &[u8])
        ensures
            authenticator@ == authenticator_bytes(self@.mls),
    {
        backend::epoch_authenticator_of(&self.mls_group)
    }

    /// Returns `true` if this member is the only member of the group.
    pub fn is_sole_member(&self) -> (b: bool)
        ensures
            b == (self@.contents().members.len() == 1),
    {
        backend::member_identities(&self.mls_group).len() == 1
    }

    /// Returns the Discord user ID associated with this group member.
    pub fn user_id(&self) -> (user_id: UserId)
        ensures
            user_id == self@.user_id,
    {
        self.identity_user_id
    }

    /// Returns a reference to the underlying OpenMLS group.
    pub fn mls_group(&self) -> (group: &MlsGroup)
        ensures
            *group == self@.mls,
    {
        &self.mls_group
    }

    /// Returns a mutable reference to the underlying OpenMLS group.
    pub fn mls_group_mut(&mut self) -> (group: &mut MlsGroup)
        ensures
            *group == old(self)@.mls,
            final(self)@ == (DaveGroupView { mls: *final(group), ..old(self)@ }),
    {
        &mut self.mls_group
    }

    /// Extract all Discord user IDs from the current MLS group members.
    ///
    /// Each member's Basic credential encodes the user ID as a big-endian u64.
    /// Members whose credentials cannot be decoded are silently skipped.
    pub fn member_user_ids(&self) -> (users: Vec<UserId>)
        ensures
            users@ == member_users(self@.contents().members),
    {
        let identities = backend::member_identities(&self.mls_group);
        let mut users: Vec<UserId> = Vec::new();
        let ghost members = self@.contents().members;
        let mut i: usize = 0;
        while i < identities.len()
            invariant
                i <= identities@.len(),
                identities@.len() == members.len(),
                forall|j: int|
                    0 <= j < identities@.len() ==> (#[trigger] identities@[j])@
                        == members[j].credential.content,
                users@ == member_users(members.take(i as int)),
            decreases identities@.len() - i,
        {
            assert(members.take(i + 1).drop_last() =~= members.take(i as int));
            if let Some(user_id) = user_id_from_identity(identities[i].as_slice()) {
                users.push(user_id);
            }
            i = i + 1;
        }
        assert(members.take(members.len() as int) =~= members);
        users
    }

    /// The group is in the last epoch there is, so that no further commit can
    /// be made or taken.
    pub fn is_exhausted(&self) -> (b: bool)
        ensures
            b == (self@.contents().epoch == u64::MAX),
    {
        backend::epoch_of(&self.mls_group) == u64::MAX
    }
}

/// A batch calls for an empty commit exactly if something in it could not be read
/// or was refused and nothing in it was stored.
pub proof fn empty_commit_answers_unhandled_batches(
    outcomes: &[ProposalOutcome],
    unhandled: bool,
    needed: bool,
)
    requires
        call_ensures(has_unhandled, (outcomes,), unhandled),
        call_ensures(needs_empty_commit, (outcomes,), needed),
    ensures
        unhandled <==> exists|i: int|
            0 <= i < outcomes@.len() && ((#[trigger] outcomes@[i]) == ProposalOutcome::Unreadable
                || outcomes@[i] == ProposalOutcome::Rejected),
        needed <==> unhandled && forall|i: int|
            0 <= i < outcomes@.len() ==> #[trigger] outcomes@[i] != ProposalOutcome::Stored,
{
    if unhandled {
        let i = choose|i: int| 0 <= i < outcomes@.len() && (#[trigger] outcomes@[i]).unhandled();
        assert(outcomes@[i] == ProposalOutcome::Unreadable || outcomes@[i]
            == ProposalOutcome::Rejected);
    }
    if exists|i: int|
        0 <= i < outcomes@.len() && ((#[trigger] outcomes@[i]) == ProposalOutcome::Unreadable
            || outcomes@[i] == ProposalOutcome::Rejected) {
        let i = choose|i: int|
            0 <= i < outcomes@.len() && ((#[trigger] outcomes@[i]) == ProposalOutcome::Unreadable
                || outcomes@[i] == ProposalOutcome::Rejected);
        assert(outcomes@[i].unhandled());
    }
    lemma_some_stored(outcomes@);
    if forall|i: int|
        0 <= i < outcomes@.len() ==> #[trigger] outcomes@[i] != ProposalOutcome::Stored {
        lemma_none_stored(outcomes@);
    }
}

proof fn lemma_some_stored(outcomes: Seq<ProposalOutcome>)
    ensures
        stored_count(outcomes) == 0 ==> forall|i: int|
            0 <= i < outcomes.len() ==> #[trigger] outcomes[i] != ProposalOutcome::Stored,
    decreases outcomes.len(),
{
    if outcomes.len() > 0 {
        lemma_some_stored(outcomes.drop_last());
        if stored_count(outcomes) == 0 {
            assert forall|i: int| 0 <= i < outcomes.len() implies #[trigger] outcomes[i]
                != ProposalOutcome::Stored by {
                if i < outcomes.len() - 1 {
                    assert(outcomes.drop_last()[i] == outcomes[i]);
                }
            }
        }
    }
}

/// The group ID of a batch is that of its first entry, if that is not empty and
/// framed as and encodes a message of a group, and else that of the rest.
pub proof fn first_message_names_the_group(
    proposals: &[Vec<u8>],
    r: Option<Vec<u8>>,
    rest: &[Vec<u8>],
    rest_r: Option<Vec<u8>>,
)
    requires
        call_ensures(extract_group_id_from_proposals, (proposals,), r),
        call_ensures(extract_group_id_from_proposals, (rest,), rest_r),
        proposals@.len() > 0 ==> rest@ == proposals@.skip(1),
    ensures
        proposals@.len() == 0 ==> r is None,
        proposals@.len() > 0 ==> {
            let first = proposals@[0]@;
            if first.len() > 0 && well_framed(first) && encoded_header(first) is Some {
                r matches Some(id) && id@ == encoded_header(first)->0.group_id
            } else {
                bytes_view(r) == bytes_view(rest_r)
            }
        },
{
}

/// The key of a sender is what the group exports under the label `Discord Secure
/// Frames v0`, with the sender's ID in eight bytes, the least significant first,
/// as context: 16 bytes. It is there exactly if we are a member.
pub proof fn sender_keys_are_exported(
    group: &DaveGroup,
    sender_id: UserId,
    provider: &OpenMlsRustCrypto,
    r: Result<[u8; KEY_LENGTH], SigilError>,
    context: Seq<u8>,
)
    requires
        call_ensures(DaveGroup::export_sender_key, (group, sender_id, provider), r),
        context.len() == 8,
        sender_id == context[0] + 256 * context[1] + 65536 * context[2] + 16777216 * context[3]
            + 4294967296 * context[4] + 1099511627776 * context[5] + 281474976710656 * context[6]
            + 72057594037927936 * context[7],
    ensures
        r is Ok <==> group@.contents().active,
        r matches Ok(key) ==> key@.len() == 16 && exported_secret(
            group@.mls,
            "Discord Secure Frames v0"@,
            context,
            16,
        ) == Some(key@),
{
    let identity = context.reverse();
    eight_bytes_value(identity);
    assert(identity.reverse() =~= context);
    identity_is_unique(identity, sender_id);
}

/// Every member whose identity has eight bytes is listed, as the user that those
/// spell with the most significant first; and every user that is listed is such a
/// member. Where all identities have eight bytes, the users stand in the order of
/// the members.
pub proof fn members_are_listed(group: &DaveGroup, users: Vec<UserId>, i: int, k: int)
    requires
        call_ensures(DaveGroup::member_user_ids, (group,), users),
        0 <= i < group@.contents().members.len(),
        0 <= k < users@.len(),
    ensures
        ({
            let id = group@.contents().members[i].credential.content;
            id.len() == 8 ==> users@.contains(
                (72057594037927936 * id[0] + 281474976710656 * id[1] + 1099511627776 * id[2]
                    + 4294967296 * id[3] + 16777216 * id[4] + 65536 * id[5] + 256 * id[6]
                    + id[7]) as u64,
            )
        }),
        exists|j: int|
            {
                &&& 0 <= j < group@.contents().members.len()
                &&& (#[trigger] group@.contents().members[j]).credential.content.len() == 8
                &&& be_value(group@.contents().members[j].credential.content) == users@[k]
            },
        (forall|j: int|
            0 <= j < group@.contents().members.len() ==> (
            #[trigger] group@.contents().members[j]).credential.content.len() == 8)
            ==> users@.len() == group@.contents().members.len() && be_value(
            group@.contents().members[k].credential.content,
        ) == users@[k],
{
    let members = group@.contents().members;
    let id = members[i].credential.content;
    if id.len() == 8 {
        eight_bytes_value(id);
        lemma_member_listed(members, i);
    }
    lemma_listed_member(members, k);
    if forall|j: int|
        0 <= j < members.len() ==> (#[trigger] members[j]).credential.content.len() == 8 {
        lemma_all_listed(members, k);
    }
}

proof fn lemma_member_listed(members: Seq<CredentialWithKeyView>, i: int)
    requires
        0 <= i < members.len(),
        members[i].credential.content.len() == 8,
    ensures
        member_users(members).contains(be_value(members[i].credential.content) as u64),
    decreases members.len(),
{
    let user = be_value(members[i].credential.content) as u64;
    let before = member_users(members.drop_last());
    let users = member_users(members);
    if i == members.len() - 1 {
        assert(users[users.len() - 1] == user);
    } else {
        lemma_member_listed(members.drop_last(), i);
        let j = choose|j: int| 0 <= j < before.len() && before[j] == user;
        assert(users[j] == user);
    }
}

proof fn lemma_listed_member(members: Seq<CredentialWithKeyView>, k: int)
    requires
        0 <= k < member_users(members).len(),
    ensures
        exists|j: int|
            {
                &&& 0 <= j < members.len()
                &&& (#[trigger] members[j]).credential.content.len() == 8
                &&& be_value(members[j].credential.content) == member_users(members)[k]
            },
    decreases members.len(),
{
    let shorter = members.drop_last();
    let before = member_users(shorter);
    if k < before.len() {
        lemma_listed_member(shorter, k);
        let j = choose|j: int|
            {
                &&& 0 <= j < shorter.len()
                &&& (#[trigger] shorter[j]).credential.content.len() == 8
                &&& be_value(shorter[j].credential.content) == before[k]
            };
        assert(members[j] == shorter[j]);
    } else {
        let last = members.len() - 1;
        identity_fits(members[last].credential.content);
        assert(members[last].credential.content.len() == 8);
    }
}

proof fn lemma_all_listed(members: Seq<CredentialWithKeyView>, k: int)
    requires
        forall|j: int|
            0 <= j < members.len() ==> (#[trigger] members[j]).credential.content.len() == 8,
    ensures
        member_users(members).len() == members.len(),
        0 <= k < members.len() ==> be_value(members[k].credential.content) == member_users(
            members,
        )[k],
    decreases members.len(),
{
    if members.len() > 0 {
        let shorter = members.drop_last();
        assert forall|j: int| 0 <= j < shorter.len() implies (
        #[trigger] shorter[j]).credential.content.len() == 8 by {
            assert(shorter[j] == members[j]);
        }
        lemma_all_listed(shorter, k);
        identity_fits(members.last().credential.content);
        assert(members[members.len() - 1].credential.content.len() == 8);
    }
}

/// Once our own commit is merged the group is one epoch on and tracked there,
/// under the same ID, and nothing is pending in it.
pub proof fn own_commit_advances_one_epoch(
    committing: &mut DaveGroup,
    provider: &OpenMlsRustCrypto,
    signer: &SignatureKeyPair,
    messages: (Vec<u8>, Option<Vec<u8>>),
    merging: &mut DaveGroup,
    r: Result<(), SigilError>,
)
    requires
        call_ensures(
            DaveGroup::commit_pending,
            (committing, provider, signer),
            Ok::<(Vec<u8>, Option<Vec<u8>>), SigilError>(messages),
        ),
        *old(merging) == *final(committing),
        call_ensures(DaveGroup::merge_own_pending_commit, (merging, provider), r),
    ensures
        final(committing)@.current_epoch == old(committing)@.current_epoch,
        final(committing)@.contents().epoch == old(committing)@.contents().epoch,
        encoded_header(messages.0@) == Some(
            MessageHeader {
                group_id: old(committing)@.contents().group_id,
                kind: MessageKind::Commit,
            },
        ),
        messages.1 is Some <==> old(committing)@.contents().adds_pending,
        r is Ok ==> {
            &&& final(merging)@.contents().epoch == old(committing)@.contents().epoch + 1
            &&& final(merging)@.current_epoch == old(committing)@.contents().epoch + 1
            &&& final(merging)@.contents().group_id == old(committing)@.contents().group_id
            &&& final(merging)@.contents().active
            &&& final(merging)@.contents().pending_proposals == 0
            &&& !final(merging)@.contents().adds_pending
            &&& final(merging)@.contents().pending_commit is None
        },
        r is Ok && old(committing)@.contents().pending_proposals == 0
            ==> final(merging)@.contents().members == old(committing)@.contents().members,
        final(merging)@.user_id == old(committing)@.user_id,
{
}

/// What became of a message goes with what the group made of it: a proposal waits
/// to be committed or is not taken, a commit is not merged, and the epoch stays.
pub proof fn proposals_wait_to_be_committed(
    group: &mut DaveGroup,
    processed: Result<Processed, String>,
    provider: &OpenMlsRustCrypto,
    outcome: ProposalOutcome,
)
    requires
        call_ensures(DaveGroup::take_proposal, (group, processed, provider), outcome),
    ensures
        processed is Err <==> outcome == ProposalOutcome::Rejected,
        processed matches Ok(Processed::Commit(_)) ==> outcome == ProposalOutcome::Commit,
        processed matches Ok(Processed::Other) ==> outcome == ProposalOutcome::Other,
        outcome == ProposalOutcome::Stored ==> (processed matches Ok(Processed::Proposal(_)))
            && final(group)@.contents().pending_proposals == old(
            group,
        )@.contents().pending_proposals + 1,
        outcome != ProposalOutcome::Stored ==> final(group)@.contents().pending_proposals == old(
            group,
        )@.contents().pending_proposals,
        final(group)@.contents().epoch == old(group)@.contents().epoch,
        final(group)@.current_epoch == old(group)@.current_epoch,
        final(group)@.contents().members == old(group)@.contents().members,
        final(group)@.contents().group_id == old(group)@.contents().group_id,
{
}

/// A fresh group is in epoch 0, under the ID that was asked for, with us as its
/// only member.
pub proof fn fresh_group_has_one_member(
    identity: &DaveIdentity,
    provider: &OpenMlsRustCrypto,
    config: &MlsGroupCreateConfig,
    group_id: &[u8],
    group: DaveGroup,
    sole: bool,
    epoch: Epoch,
    user_id: UserId,
)
    requires
        call_ensures(
            DaveGroup::create,
            (identity, provider, config, group_id),
            Ok::<DaveGroup, SigilError>(group),
        ),
        call_ensures(DaveGroup::is_sole_member, (&group,), sole),
        call_ensures(DaveGroup::epoch, (&group,), epoch),
        call_ensures(DaveGroup::user_id, (&group,), user_id),
    ensures
        sole,
        epoch == 0,
        user_id == identity.user_id,
        group@.contents().group_id == group_id@,
        group@.contents().members.len() == 1,
        group@.contents().members[0] == identity.credential_with_key@,
        group@.contents().active,
        group@.contents().pending_proposals == 0,
        group@.contents().config == config_contents(*config),
{
}

/// A group that is recreated is fresh, under the new ID and for the same user;
/// where that fails it stays as it was.
pub proof fn recreated_group_is_fresh(
    group: &mut DaveGroup,
    identity: &DaveIdentity,
    provider: &OpenMlsRustCrypto,
    config: &MlsGroupCreateConfig,
    group_id: &[u8],
    r: Result<(), SigilError>,
)
    requires
        call_ensures(
            DaveGroup::recreate_with_group_id,
            (group, identity, provider, config, group_id),
            r,
        ),
    ensures
        r is Err ==> final(group)@ == old(group)@,
        r is Ok ==> {
            &&& final(group)@.current_epoch == 0
            &&& final(group)@.contents().epoch == 0
            &&& final(group)@.contents().group_id == group_id@
            &&& final(group)@.contents().members.len() == 1
            &&& final(group)@.contents().members[0] == identity.credential_with_key@
            &&& final(group)@.contents().config == config_contents(*config)
            &&& final(group)@.contents().pending_proposals == 0
        },
        final(group)@.user_id == old(group)@.user_id,
{
}

/// An empty commit is a commit of the group. It leaves the group in its epoch
/// until it is merged, and leads it to the next.
pub proof fn empty_commit_leads_to_the_next_epoch(
    group: &mut DaveGroup,
    provider: &OpenMlsRustCrypto,
    signer: &SignatureKeyPair,
    commit: Vec<u8>,
)
    requires
        call_ensures(
            DaveGroup::commit_empty,
            (group, provider, signer),
            Ok::<Vec<u8>, SigilError>(commit),
        ),
    ensures
        encoded_header(commit@) == Some(
            MessageHeader {
                group_id: old(group)@.contents().group_id,
                kind: MessageKind::Commit,
            },
        ),
        final(group)@.contents().epoch == old(group)@.contents().epoch,
        final(group)@.current_epoch == old(group)@.current_epoch,
        final(group)@.contents().pending_commit matches Some(target) && target.epoch == old(
            group,
        )@.contents().epoch + 1 && target.group_id == old(group)@.contents().group_id
            && !target.removes_us,
{
}

/// A batch is told to hold something unhandled exactly if an entry came that
/// could not be read, or that the group refused: not for empty entries, and
/// always for one that is not empty and not framed as, or no encoding of, a
/// message of a group. The epoch and the members stay.
pub proof fn unhandled_entries_are_told(
    group: &mut DaveGroup,
    proposals: &[Vec<u8>],
    provider: &OpenMlsRustCrypto,
    r: Result<bool, SigilError>,
    k: int,
)
    requires
        call_ensures(DaveGroup::process_proposals, (group, proposals, provider), r),
    ensures
        r is Ok,
        (forall|i: int| #![trigger proposals@[i]]
            0 <= i < proposals@.len() ==> proposals@[i]@.len() == 0) ==> r->Ok_0 == false,
        0 <= k < proposals@.len() && proposals@[k]@.len() > 0 && (!well_framed(proposals@[k]@)
            || encoded_header(proposals@[k]@) is None) ==> r->Ok_0 == true,
        final(group)@.contents().epoch == old(group)@.contents().epoch,
        final(group)@.contents().members == old(group)@.contents().members,
        final(group)@.contents().group_id == old(group)@.contents().group_id,
        final(group)@.contents().pending_proposals >= old(group)@.contents().pending_proposals,
        final(group)@.contents().pending_proposals <= old(group)@.contents().pending_proposals
            + proposals@.len(),
{
    let group_id = old(group)@.contents().group_id;
    let outcomes = choose|outcomes: Seq<ProposalOutcome>|
        {
            &&& #[trigger] possible_outcomes(group_id, proposals@, outcomes)
            &&& r->Ok_0 == any_unhandled(outcomes)
            &&& final(group)@.only_stored(old(group)@, stored_count(outcomes))
        };
    lemma_stored_bound(outcomes);
    if forall|i: int| #![trigger proposals@[i]]
        0 <= i < proposals@.len() ==> proposals@[i]@.len() == 0 {
        padding_needs_no_commit(group_id, proposals@, outcomes);
    }
    if 0 <= k < proposals@.len() && proposals@[k]@.len() > 0 && embedded_header(
        proposals@[k]@,
    ) is None {
        unreadable_entry_is_told(group_id, proposals@, outcomes, k);
    }
}

proof fn lemma_stored_bound(outcomes: Seq<ProposalOutcome>)
    ensures
        stored_count(outcomes) <= outcomes.len(),
    decreases outcomes.len(),
{
    if outcomes.len() > 0 {
        lemma_stored_bound(outcomes.drop_last());
    }
}

/// Proposals are pending from the first that is stored until our commit is
/// merged, and a group is exhausted in epoch 2^64 - 1 and in no other.
pub proof fn pending_proposals_are_told(
    stored: &mut DaveGroup,
    processed: Result<Processed, String>,
    provider: &OpenMlsRustCrypto,
    outcome: ProposalOutcome,
    pending: bool,
    merging: &mut DaveGroup,
    target: CommitTarget,
    still_pending: bool,
    group: &DaveGroup,
    exhausted: bool,
)
    requires
        call_ensures(DaveGroup::take_proposal, (stored, processed, provider), outcome),
        call_ensures(DaveGroup::has_pending_proposals, (&*final(stored),), pending),
        old(merging)@.contents().pending_commit == Some(target),
        call_ensures(
            DaveGroup::merge_own_pending_commit,
            (merging, provider),
            Ok::<(), SigilError>(()),
        ),
        call_ensures(DaveGroup::has_pending_proposals, (&*final(merging),), still_pending),
        call_ensures(DaveGroup::is_exhausted, (group,), exhausted),
    ensures
        outcome == ProposalOutcome::Stored ==> pending,
        old(stored)@.contents().pending_proposals == 0 && outcome != ProposalOutcome::Stored
            ==> !pending,
        !still_pending,
        final(merging)@.current_epoch == target.epoch,
        final(merging)@.contents().members == target.members,
        exhausted <==> group@.contents().epoch == 18446744073709551615,
{
}

/// A batch is processed entry by entry: an empty entry is passed over, one that
/// is not framed as, or no encoding of, a message of a group cannot be read, and
/// one of another group is refused.
pub proof fn entries_are_processed_in_order(
    group: &mut DaveGroup,
    proposals: &[Vec<u8>],
    provider: &OpenMlsRustCrypto,
    outcomes: Vec<ProposalOutcome>,
    i: int,
)
    requires
        call_ensures(DaveGroup::process_batch, (group, proposals, provider), outcomes),
        0 <= i < proposals@.len(),
    ensures
        outcomes@.len() == proposals@.len(),
        outcomes@[i] == ProposalOutcome::Empty <==> proposals@[i]@.len() == 0,
        outcomes@[i] == ProposalOutcome::Unreadable <==> proposals@[i]@.len() > 0 && (
        !well_framed(proposals@[i]@) || encoded_header(proposals@[i]@) is None),
        outcomes@[i] == ProposalOutcome::Stored ==> (encoded_header(proposals@[i]@) matches Some(
            header,
        ) && header.kind is Proposal && header.group_id == old(group)@.contents().group_id),
        proposals@[i]@.len() > 0 && well_framed(proposals@[i]@) && (encoded_header(
            proposals@[i]@,
        ) matches Some(header) && header.group_id != old(group)@.contents().group_id)
            ==> outcomes@[i] == ProposalOutcome::Rejected,
        final(group)@.contents().epoch == old(group)@.contents().epoch,
        final(group)@.contents().members == old(group)@.contents().members,
{
    assert(possible_outcome(old(group)@.contents().group_id, proposals@[i]@, outcomes@[i]));
}

/// The messages of a commit are serialized one by one, and both have to be.
pub proof fn commit_and_welcome_are_serialized(
    commit: &MlsMessageOut,
    welcome: &Option<MlsMessageOut>,
    r: Result<(Vec<u8>, Option<Vec<u8>>), SigilError>,
)
    requires
        call_ensures(serialize_commit, (commit, welcome), r),
    ensures
        r is Ok <==> message_bytes(*commit) is Some && (*welcome matches Some(message)
            ==> message_bytes(message) is Some),
        r matches Ok((first, second)) ==> message_bytes(*commit) == Some(first@) && (
        second is Some <==> *welcome is Some) && (second matches Some(bytes) ==> message_bytes(
            welcome->0,
        ) == Some(bytes@)),
{
}

/// A Welcome that is taken makes us a member of its group, tracked in the group's
/// epoch, with nothing pending; what is no Welcome is refused.
pub proof fn joined_group_is_in_step(
    identity: &DaveIdentity,
    provider: &OpenMlsRustCrypto,
    welcome: &[u8],
    r: Result<DaveGroup, SigilError>,
)
    requires
        call_ensures(DaveGroup::join_from_welcome, (identity, provider, welcome), r),
    ensures
        !well_framed(welcome@) || !encodes_welcome(welcome@) ==> r is Err,
        r matches Ok(group) ==> group@.current_epoch == group@.contents().epoch
            && group@.contents().active && group@.contents().pending_proposals == 0
            && group@.contents().pending_commit is None && group@.user_id == identity.user_id,
{
}

/// Of what the group made of an incoming message only a commit has an effect: it
/// leads the group to where it was staged for, and the tracked epoch with it.
pub proof fn only_commits_are_merged(
    group: &mut DaveGroup,
    processed: Processed,
    provider: &OpenMlsRustCrypto,
    r: Result<(), SigilError>,
)
    requires
        call_ensures(DaveGroup::take_processed, (group, processed, provider), r),
    ensures
        !(processed is Commit) ==> r is Ok && final(group)@ == old(group)@,
        processed matches Processed::Commit(commit) ==> (r is Ok ==> {
            let target = staged_target(old(group)@.mls, *commit);
            &&& final(group)@.current_epoch == target.epoch
            &&& final(group)@.contents().epoch == target.epoch
            &&& final(group)@.contents().members == target.members
            &&& final(group)@.contents().group_id == target.group_id
            &&& target.removes_us ==> !final(group)@.contents().active
        }),
        r is Err ==> final(group)@.current_epoch == old(group)@.current_epoch,
{
}

} // verus!
