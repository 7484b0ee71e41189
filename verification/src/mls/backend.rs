//! The calls into OpenMLS.
//!
//! Every function here makes one step of OpenMLS and turns its errors into
//! their text. What a call reads and writes of a group is stated over
//! [`group_contents`].

use openmls::prelude::tls_codec::{
    Deserialize as TlsDeserialize, DeserializeBytes as TlsDeserializeBytes,
    Serialize as TlsSerialize,
};
use openmls::prelude::{
    Capabilities, Ciphersuite, Credential, CredentialType, CredentialWithKey, Extension,
    Extensions, ExternalSender, GroupId, KeyPackage, MlsGroup, MlsGroupCreateConfig,
    MlsGroupJoinConfig, MlsMessageBodyIn, MlsMessageIn, MlsMessageOut, OpenMlsProvider,
    ProcessedMessageContent, ProtocolMessage, QueuedProposal, SignaturePublicKey, StagedCommit,
    StagedWelcome, Welcome,
};
use openmls_basic_credential::SignatureKeyPair;
use openmls_rust_crypto::OpenMlsRustCrypto;
use std::io::Cursor;
use vstd::prelude::*;
use crate::mls::framing::well_framed;

verus! {

#[verifier::external_type_specification]
#[verifier::external_body]
pub struct ExOpenMlsRustCrypto(OpenMlsRustCrypto);

#[verifier::external_type_specification]
#[verifier::external_body]
pub struct ExSignatureKeyPair(SignatureKeyPair);

#[verifier::external_type_specification]
#[verifier::external_body]
pub struct ExMlsGroup(MlsGroup);

#[verifier::external_type_specification]
#[verifier::external_body]
pub struct ExMlsGroupCreateConfig(MlsGroupCreateConfig);

#[verifier::external_type_specification]
#[verifier::external_body]
pub struct ExProtocolMessage(ProtocolMessage);

#[verifier::external_type_specification]
#[verifier::external_body]
pub struct ExMlsMessageOut(MlsMessageOut);

#[verifier::external_type_specification]
#[verifier::external_body]
pub struct ExQueuedProposal(QueuedProposal);

#[verifier::external_type_specification]
#[verifier::external_body]
pub struct ExStagedCommit(StagedCommit);

#[verifier::external_type_specification]
#[verifier::external_body]
pub struct ExWelcome(Welcome);

#[verifier::external_type_specification]
#[verifier::external_body]
pub struct ExStagedWelcome(StagedWelcome);

#[verifier::external_type_specification]
#[verifier::external_body]
pub struct ExKeyPackage(KeyPackage);

/// A credential: its type number and its content.
pub struct CredentialView {
    pub credential_type: u16,
    pub content: Seq<u8>,
}

/// A credential together with the signature key that goes with it.
pub struct CredentialWithKeyView {
    pub credential: CredentialView,
    pub signature_key: Seq<u8>,
}

/// What a group is created with.
pub struct ConfigContents {
    pub ciphersuite: u16,
    pub external_senders: Seq<CredentialWithKeyView>,
}

/// What a commit leads to.
pub struct CommitTarget {
    pub epoch: u64,
    pub group_id: Seq<u8>,
    /// The members in the order of their leaves.
    pub members: Seq<CredentialWithKeyView>,
    pub config: ConfigContents,
    /// We are no member any more.
    pub removes_us: bool,
}

/// What a key package holds.
pub struct KeyPackageContents {
    pub ciphersuite: u16,
    /// The credential with key of its leaf.
    pub owner: CredentialWithKeyView,
    /// The ciphersuites among the capabilities of its leaf.
    pub supported: Seq<u16>,
    /// The credential types among the capabilities of its leaf.
    pub credentials: Seq<u16>,
}

/// What a message of a group carries.
#[derive(Debug, Clone, Copy, PartialEq, Eq, Structural)]
pub enum MessageKind {
    Application,
    Proposal,
    Commit,
}

/// What the header of a message of a group says.
pub struct MessageHeader {
    /// The id of the group that the message belongs to.
    pub group_id: Seq<u8>,
    pub kind: MessageKind,
}

/// What a group holds.
#[verifier::ext_equal]
pub struct GroupContents {
    /// We are a member.
    pub active: bool,
    pub epoch: u64,
    pub group_id: Seq<u8>,
    /// The members in the order of their leaves.
    pub members: Seq<CredentialWithKeyView>,
    /// How many proposals wait to be committed.
    pub pending_proposals: nat,
    /// One of them adds a member.
    pub adds_pending: bool,
    /// What our own commit leads to, while it waits to be merged.
    pub pending_commit: Option<CommitTarget>,
    pub config: ConfigContents,
}

/// What is inside an `MlsGroup`: what its methods `is_active`, `epoch`,
/// `group_id`, `members`, `pending_proposals`, `pending_commit`, `ciphersuite`
/// and `extensions` give.
pub uninterp spec fn group_contents(group: MlsGroup) -> GroupContents;

/// The ciphersuite and the external senders inside an `MlsGroupCreateConfig`.
pub uninterp spec fn config_contents(config: MlsGroupCreateConfig) -> ConfigContents;

/// What `MlsGroup::merge_staged_commit` makes of the epoch, the id, the members
/// and the configuration of a group, and what `StagedCommit::self_removed` gives.
pub uninterp spec fn staged_target(group: MlsGroup, commit: StagedCommit) -> CommitTarget;

/// The commit leads from where the group is to the next epoch.
pub open spec fn staged_here(group: MlsGroup, commit: StagedCommit) -> bool {
    &&& staged_target(group, commit).group_id == group_contents(group).group_id
    &&& staged_target(group, commit).epoch == group_contents(group).epoch + 1
}

/// What `QueuedProposal::proposal` gives is an Add proposal.
pub uninterp spec fn is_add_proposal(proposal: QueuedProposal) -> bool;

/// What `ProtocolMessage::group_id` and `ProtocolMessage::content_type` give.
pub uninterp spec fn header_of(message: ProtocolMessage) -> MessageHeader;

/// The bytes that `tls_serialize_detached` gives for an `MlsMessageOut`; `None` if
/// it fails.
pub uninterp spec fn message_bytes(message: MlsMessageOut) -> Option<Seq<u8>>;

/// The bytes that `SignatureKeyPair::public` gives.
pub uninterp spec fn public_key_bytes(keys: SignatureKeyPair) -> Seq<u8>;

/// The number of the scheme that `SignatureKeyPair::signature_scheme` gives.
pub uninterp spec fn signature_scheme(keys: SignatureKeyPair) -> u16;

/// What `MlsGroup::export_secret` gives for a label, a context and a length;
/// `None` if it fails.
pub uninterp spec fn exported_secret(
    group: MlsGroup,
    label: Seq<char>,
    context: Seq<u8>,
    length: nat,
) -> Option<Seq<u8>>;

/// Both groups export the same secrets.
pub open spec fn exports_alike(a: MlsGroup, b: MlsGroup) -> bool {
    forall|label: Seq<char>, context: Seq<u8>, length: nat| #[trigger]
        exported_secret(b, label, context, length) == exported_secret(a, label, context, length)
}

/// The bytes that `MlsGroup::epoch_authenticator` gives.
pub uninterp spec fn authenticator_bytes(group: MlsGroup) -> Seq<u8>;

/// What is inside a `KeyPackage`: what its methods `ciphersuite` and `leaf_node`
/// give.
pub uninterp spec fn key_package_contents(package: KeyPackage) -> KeyPackageContents;

/// The bytes that `tls_serialize_detached` gives for a `KeyPackage`; `None` if it
/// fails.
pub uninterp spec fn key_package_bytes(package: KeyPackage) -> Option<Seq<u8>>;

/// The bytes encode an MLS message, by `MlsMessageIn::tls_deserialize_exact_bytes`.
pub uninterp spec fn encodes_message(data: Seq<u8>) -> bool;

/// The header of the message that the bytes encode; `None` if they do not encode
/// a message with such a header (a public or a private message).
pub uninterp spec fn encoded_header(data: Seq<u8>) -> Option<MessageHeader>;

/// The bytes encode a Welcome message.
pub uninterp spec fn encodes_welcome(data: Seq<u8>) -> bool;

/// The bytes are framed as, and encode, an MLS message.
pub open spec fn is_mls_message(data: Seq<u8>) -> bool {
    well_framed(data) && encodes_message(data)
}

/// The bytes are framed as an MLS message, and encode a Welcome.
pub open spec fn is_welcome_message(data: Seq<u8>) -> bool {
    well_framed(data) && encodes_welcome(data)
}

/// The header of the message that the bytes are framed as and encode.
pub open spec fn embedded_header(data: Seq<u8>) -> Option<MessageHeader> {
    if well_framed(data) {
        encoded_header(data)
    } else {
        None
    }
}

/// The group id in that header.
pub open spec fn embedded_group_id(data: Seq<u8>) -> Option<Seq<u8>> {
    match embedded_header(data) {
        Some(header) => Some(header.group_id),
        None => None,
    }
}

/// The byte at `at`, if there is one, can begin the length of a vector: MLS does
/// not allow the two highest bits to be set both.
pub open spec fn allowed_prefix(data: Seq<u8>, at: int) -> bool {
    at < data.len() ==> data[at] < 0xC0
}

/// What `SignaturePublicKey::tls_deserialize` reads from the start of the
/// bytes: the key, and how many bytes it took.
pub uninterp spec fn leading_signature_key(data: Seq<u8>) -> Option<(Seq<u8>, nat)>;

/// What `Credential::tls_deserialize` reads from the start of the bytes: the
/// credential, and how many bytes it took.
pub uninterp spec fn leading_credential(data: Seq<u8>) -> Option<(CredentialView, nat)>;

/// A message of a group, read from its bytes.
pub struct IncomingMessage {
    /// The id of the group that the message belongs to.
    pub group_id: Vec<u8>,
    pub message: ProtocolMessage,
}

/// Why bytes are not a message of a group.
pub enum MessageFault {
    /// They do not encode an MLS message.
    Malformed(String),
    /// They encode an MLS message of another kind.
    NotProtocol(String),
}

/// What processing a message yields.
pub enum Processed {
    Proposal(Box<QueuedProposal>),
    Commit(Box<StagedCommit>),
    Other,
}

/// Calls `SignatureKeyPair::new` for the signature scheme of a ciphersuite.
/// Claimed: keys come out for ciphersuite 2, which are ECDSA keys on the curve
/// P-256 (scheme 0x0403). They are random: nothing else is claimed of them.
#[verifier::external_body]
pub(crate) fn new_signature_keys(ciphersuite: u16) -> (r: Result<SignatureKeyPair, String>)
    ensures
        ciphersuite == 2 ==> r is Ok,
        r matches Ok(keys) ==> (ciphersuite == 2 ==> signature_scheme(keys) == 0x0403),
{
    let suite = Ciphersuite::try_from(ciphersuite).map_err(|e| e.to_string())?;
    SignatureKeyPair::new(suite.signature_algorithm()).map_err(|e| e.to_string())
}

/// Calls `SignatureKeyPair::store`. Claimed: the provider, which stores in memory,
/// takes the keys.
#[verifier::external_body]
pub(crate) fn store_signature_keys(
    keys: &SignatureKeyPair,
    provider: &OpenMlsRustCrypto,
) -> (r: Result<(), String>)
    ensures
        r is Ok,
{
    keys.store(provider.storage()).map_err(|e| e.to_string())
}

/// Calls `SignatureKeyPair::public`.
#[verifier::external_body]
pub(crate) fn public_key(keys: &SignatureKeyPair) -> (key: Vec<u8>)
    ensures
        key@ == public_key_bytes(*keys),
{
    keys.public().to_vec()
}

/// Calls `ExternalSender::new`, `Extensions::single` and
/// `MlsGroupCreateConfig::builder`. Claimed: a config comes out for ciphersuite
/// 2, and it holds the ciphersuite and the one external sender.
#[verifier::external_body]
pub(crate) fn create_config(
    ciphersuite: u16,
    credential_type: u16,
    content: &[u8],
    signature_key: &[u8],
) -> (r: Result<MlsGroupCreateConfig, String>)
    ensures
        ciphersuite == 2 ==> r is Ok,
        r matches Ok(config) ==> config_contents(config) == (ConfigContents {
            ciphersuite,
            external_senders: seq![
                CredentialWithKeyView {
                    credential: CredentialView { credential_type, content: content@ },
                    signature_key: signature_key@,
                },
            ],
        }),
{
    let suite = Ciphersuite::try_from(ciphersuite).map_err(|e| e.to_string())?;
    let credential = Credential::new(CredentialType::from(credential_type), content.to_vec());
    let sender = ExternalSender::new(SignaturePublicKey::from(signature_key), credential);
    let extensions = Extensions::single(Extension::ExternalSenders(vec![sender]));
    let builder = MlsGroupCreateConfig::builder().ciphersuite(suite);
    let extensions = extensions.map_err(|e| e.to_string())?;
    Ok(builder.with_group_context_extensions(extensions).build())
}

/// Calls `MlsGroup::new_with_group_id`. Claimed: a group that comes out has the
/// given id, is in epoch 0 with the given credential as its only member, has
/// nothing pending, and is configured as asked. Whether one comes out is up to
/// the provider's store (it refuses an id that it already holds).
#[verifier::external_body]
pub(crate) fn create_group(
    provider: &OpenMlsRustCrypto,
    keys: &SignatureKeyPair,
    config: &MlsGroupCreateConfig,
    group_id: &[u8],
    credential_type: u16,
    content: &[u8],
    signature_key: &[u8],
) -> (r: Result<MlsGroup, String>)
    ensures
        r matches Ok(group) ==> group_contents(group) == (GroupContents {
            active: true,
            epoch: 0,
            group_id: group_id@,
            members: seq![
                CredentialWithKeyView {
                    credential: CredentialView { credential_type, content: content@ },
                    signature_key: signature_key@,
                },
            ],
            pending_proposals: 0,
            adds_pending: false,
            pending_commit: None,
            config: config_contents(*config),
        }),
{
    let credential = Credential::new(CredentialType::from(credential_type), content.to_vec());
    let owner = CredentialWithKey { credential, signature_key: signature_key.into() };
    MlsGroup::new_with_group_id(provider, keys, config, GroupId::from_slice(group_id), owner)
        .map_err(|e| e.to_string())
}

/// Calls `MlsGroup::epoch`.
#[verifier::external_body]
pub(crate) fn epoch_of(group: &MlsGroup) -> (epoch: u64)
    ensures
        epoch == group_contents(*group).epoch,
{
    group.epoch().as_u64()
}

/// Calls `MlsGroup::members` and takes the content of each one's credential.
#[verifier::external_body]
pub(crate) fn member_identities(group: &MlsGroup) -> (identities: Vec<Vec<u8>>)
    ensures
        identities@.len() == group_contents(*group).members.len(),
        forall|i: int|
            0 <= i < identities@.len() ==> (#[trigger] identities@[i])@ == group_contents(
                *group,
            ).members[i].credential.content,
{
    group.members().map(|member| member.credential.serialized_content().to_vec()).collect()
}

/// Calls `MlsGroup::pending_proposals` and asks for the first.
#[verifier::external_body]
pub(crate) fn any_pending_proposal(group: &MlsGroup) -> (any: bool)
    ensures
        any == (group_contents(*group).pending_proposals > 0),
{
    group.pending_proposals().next().is_some()
}

/// Calls `MlsMessageIn::tls_deserialize_exact_bytes`,
/// `MlsMessageIn::try_into_protocol_message` and `ProtocolMessage::group_id`.
/// Claimed: which of the three outcomes comes depends on the bytes alone, and so
/// does the header of a message that comes out. It is not to be called on bytes
/// that are not framed as a message is: OpenMLS panics on some of them, on most
/// of these with debug assertions only.
#[verifier::external_body]
pub(crate) fn read_message(data: &[u8]) -> (r: Result<IncomingMessage, MessageFault>)
    requires
        well_framed(data@),
    ensures
        r matches Ok(incoming) ==> encoded_header(data@) == Some(header_of(incoming.message))
            && header_of(incoming.message).group_id == incoming.group_id@,
        r matches Err(fault) ==> encoded_header(data@) is None && (fault is Malformed
            <==> !encodes_message(data@)),
{
    let message = MlsMessageIn::tls_deserialize_exact_bytes(data)
        .map_err(|e| MessageFault::Malformed(e.to_string()))?
        .try_into_protocol_message()
        .map_err(|e| MessageFault::NotProtocol(e.to_string()))?;
    Ok(IncomingMessage { group_id: message.group_id().as_slice().to_vec(), message })
}

/// Calls `MlsGroup::process_message`. Claimed: it changes nothing of what the
/// group holds, nor the secrets that it exports; it refuses every message if we
/// are no member, and a message with another group id in any case; it yields a
/// commit exactly for a message that carries one, and a proposal only for one
/// that carries a proposal (that of a newcomer counts as something else); a commit
/// that it stages leads to the next epoch of the group and keeps id and
/// ciphersuite. Whether it accepts a message of the group is up to the group's
/// secrets and the provider. It is not to be called in the last epoch there is.
#[verifier::external_body]
pub(crate) fn process_message(
    group: &mut MlsGroup,
    provider: &OpenMlsRustCrypto,
    message: ProtocolMessage,
) -> (r: Result<Processed, String>)
    requires
        group_contents(*old(group)).epoch < u64::MAX,
    ensures
        group_contents(*final(group)) == group_contents(*old(group)),
        exports_alike(*old(group), *final(group)),
        r is Ok ==> group_contents(*old(group)).active,
        r is Ok ==> header_of(message).group_id == group_contents(*old(group)).group_id,
        r matches Ok(processed) ==> (processed is Commit <==> header_of(message).kind is Commit),
        r matches Ok(Processed::Proposal(_)) ==> header_of(message).kind is Proposal,
        r matches Ok(Processed::Commit(commit)) ==> staged_here(*final(group), *commit)
            && staged_target(*final(group), *commit).config.ciphersuite == group_contents(
            *old(group),
        ).config.ciphersuite,
{
    let processed = group.process_message(provider, message).map_err(|e| e.to_string())?;
    Ok(match processed.into_content() {
        ProcessedMessageContent::ProposalMessage(proposal) => Processed::Proposal(proposal),
        ProcessedMessageContent::StagedCommitMessage(commit) => Processed::Commit(commit),
        ProcessedMessageContent::ApplicationMessage(_) => Processed::Other,
        ProcessedMessageContent::ExternalJoinProposalMessage(_) => Processed::Other,
    })
}

/// Calls `MlsGroup::store_pending_proposal`. Claimed: on success one more
/// proposal is pending, the given one, on failure none; nothing else changes, nor do the
/// secrets that the group exports. Whether the provider's store takes the
/// proposal is up to the store.
#[verifier::external_body]
pub(crate) fn store_pending_proposal(
    group: &mut MlsGroup,
    provider: &OpenMlsRustCrypto,
    proposal: Box<QueuedProposal>,
) -> (r: Result<(), String>)
    ensures
        exports_alike(*old(group), *final(group)),
        r is Err ==> group_contents(*final(group)) == group_contents(*old(group)),
        r is Ok ==> group_contents(*final(group)) == (GroupContents {
            pending_proposals: group_contents(*old(group)).pending_proposals + 1,
            adds_pending: group_contents(*old(group)).adds_pending || is_add_proposal(*proposal),
            ..group_contents(*old(group))
        }),
{
    group.store_pending_proposal(provider.storage(), *proposal).map_err(|e| e.to_string())
}

/// Calls `MlsGroup::commit_to_pending_proposals`. Claimed: on success our commit
/// to the next epoch waits to be merged, which does not remove us and keeps id
/// and ciphersuite; whether or not it succeeds, nothing else that the group holds
/// changes, nor do the secrets that it exports. If we are no member it fails. The
/// first message that comes out is a commit of the group; the second is a
/// Welcome, which there is exactly if a pending proposal adds a member. Without
/// a pending proposal the commit leaves members and configuration as they are.
/// It is not to be called in the last epoch there is.
#[verifier::external_body]
pub(crate) fn commit_to_pending_proposals(
    group: &mut MlsGroup,
    provider: &OpenMlsRustCrypto,
    signer: &SignatureKeyPair,
) -> (r: Result<(MlsMessageOut, Option<MlsMessageOut>), String>)
    requires
        group_contents(*old(group)).epoch < u64::MAX,
    ensures
        group_contents(*final(group)) == (GroupContents {
            pending_commit: group_contents(*final(group)).pending_commit,
            ..group_contents(*old(group))
        }),
        exports_alike(*old(group), *final(group)),
        r is Ok ==> group_contents(*old(group)).active,
        r is Ok ==> (group_contents(*final(group)).pending_commit matches Some(target)
            && target.epoch == group_contents(*old(group)).epoch + 1 && target.group_id
            == group_contents(*old(group)).group_id && !target.removes_us && target.config.ciphersuite == group_contents(*old(group)).config.ciphersuite),
        r is Ok && group_contents(*old(group)).pending_proposals == 0 ==> group_contents(
            *final(group),
        ).pending_commit == Some(
            CommitTarget {
                epoch: (group_contents(*old(group)).epoch + 1) as u64,
                group_id: group_contents(*old(group)).group_id,
                members: group_contents(*old(group)).members,
                config: group_contents(*old(group)).config,
                removes_us: false,
            },
        ),
        r matches Ok((commit, welcome)) ==> (message_bytes(commit) matches Some(bytes)
            ==> encoded_header(bytes) == Some(
            MessageHeader {
                group_id: group_contents(*old(group)).group_id,
                kind: MessageKind::Commit,
            },
        )),
        r matches Ok((commit, welcome)) ==> (welcome is Some <==> group_contents(
            *old(group),
        ).adds_pending),
        r matches Ok((commit, Some(welcome))) ==> (message_bytes(welcome) matches Some(bytes)
            ==> encodes_welcome(bytes)),
{
    let result = group.commit_to_pending_proposals(provider, signer);
    let (commit, welcome, _group_info) = result.map_err(|e| e.to_string())?;
    Ok((commit, welcome))
}

/// Calls `tls_serialize_detached` on a message.
#[verifier::external_body]
pub(crate) fn serialize_message(message: &MlsMessageOut) -> (r: Result<Vec<u8>, String>)
    ensures
        r matches Ok(bytes) ==> message_bytes(*message) == Some(bytes@),
        r is Err ==> message_bytes(*message) is None,
{
    message.tls_serialize_detached().map_err(|e| e.to_string())
}

/// Calls `MlsGroup::merge_pending_commit`. Claimed: where it succeeds and our
/// commit was waiting, the group holds what the commit leads to and nothing is
/// pending any more. Where none was waiting, it succeeds exactly if we are a
/// member, and nothing changes. Of another failed merge nothing is claimed.
#[verifier::external_body]
pub(crate) fn merge_pending_commit(
    group: &mut MlsGroup,
    provider: &OpenMlsRustCrypto,
) -> (r: Result<(), String>)
    ensures
        r is Ok ==> match group_contents(*old(group)).pending_commit {
            Some(target) => group_contents(*final(group)) == (GroupContents {
                active: group_contents(*old(group)).active && !target.removes_us,
                epoch: target.epoch,
                group_id: target.group_id,
                members: target.members,
                pending_proposals: 0,
                adds_pending: false,
                pending_commit: None,
                config: target.config,
            }),
            None => group_contents(*final(group)) == group_contents(*old(group)),
        },
        group_contents(*old(group)).pending_commit is None ==> (r is Ok <==> group_contents(
            *old(group),
        ).active) && *final(group) == *old(group),
{
    group.merge_pending_commit(provider).map_err(|e| format!("{:?}", e))
}

/// Calls `MlsGroup::merge_staged_commit`. Claimed: where it succeeds, the group
/// has the epoch, the id, the members and the configuration that the commit leads
/// to, and we are a member unless the commit removes us; if it does not, no
/// proposal is pending any more. A commit of ours is not waiting unless one was.
/// Of a failed merge nothing is claimed. It is not to be called with a commit
/// from elsewhere.
#[verifier::external_body]
pub(crate) fn merge_staged_commit(
    group: &mut MlsGroup,
    provider: &OpenMlsRustCrypto,
    commit: Box<StagedCommit>,
) -> (r: Result<(), String>)
    requires
        staged_here(*old(group), *commit),
    ensures
        r is Ok ==> group_contents(*final(group)) == (GroupContents {
            active: group_contents(*old(group)).active && !staged_target(
                *old(group),
                *commit,
            ).removes_us,
            epoch: staged_target(*old(group), *commit).epoch,
            group_id: staged_target(*old(group), *commit).group_id,
            members: staged_target(*old(group), *commit).members,
            config: staged_target(*old(group), *commit).config,
            ..group_contents(*final(group))
        }),
        r is Ok && !staged_target(*old(group), *commit).removes_us ==> group_contents(
            *final(group),
        ).pending_proposals == 0 && !group_contents(*final(group)).adds_pending,
        r is Ok && group_contents(*old(group)).pending_commit is None ==> group_contents(
            *final(group),
        ).pending_commit is None,
{
    group.merge_staged_commit(provider, *commit).map_err(|e| e.to_string())
}

/// Calls `MlsGroup::export_secret`. Claimed: the outcome depends on the group,
/// the label, the context and the length alone, and a secret has the length
/// asked for. Where the label is no longer than 64 and the length between 1 and
/// 64, one comes out exactly if we are a member.
#[verifier::external_body]
pub(crate) fn export_secret(
    group: &MlsGroup,
    provider: &OpenMlsRustCrypto,
    label: &str,
    context: &[u8],
    length: usize,
) -> (r: Result<Vec<u8>, String>)
    ensures
        r is Err ==> exported_secret(*group, label@, context@, length as nat) is None,
        r matches Ok(secret) ==> exported_secret(*group, label@, context@, length as nat) == Some(
            secret@,
        ) && secret@.len() == length,
        label@.len() <= 64 && 0 < length <= 64 ==> (r is Ok <==> group_contents(*group).active),
{
    group.export_secret(provider.crypto(), label, context, length).map_err(|e| e.to_string())
}

/// Calls `MlsGroup::epoch_authenticator`.
#[verifier::external_body]
pub(crate) fn epoch_authenticator_of(group: &MlsGroup) -> (authenticator: &[u8])
    ensures
        authenticator@ == authenticator_bytes(*group),
{
    group.epoch_authenticator().as_slice()
}

/// Calls `MlsMessageIn::tls_deserialize_exact_bytes` and
/// `MlsMessageIn::extract`. Claimed: which of the three outcomes comes depends
/// on the bytes alone. It is not to be called on bytes that are not framed as a
/// message is, as [`read_message`].
#[verifier::external_body]
pub(crate) fn read_welcome(data: &[u8]) -> (r: Result<Option<Welcome>, String>)
    requires
        well_framed(data@),
    ensures
        r is Ok <==> encodes_message(data@),
        r matches Ok(welcome) ==> (welcome is Some <==> encodes_welcome(data@)),
{
    let message = MlsMessageIn::tls_deserialize_exact_bytes(data).map_err(|e| e.to_string())?;
    match message.extract() {
        MlsMessageBodyIn::Welcome(welcome) => Ok(Some(welcome)),
        _ => Ok(None),
    }
}

/// Calls `StagedWelcome::new_from_welcome`. Whether the welcome is for us is up
/// to the provider's store.
#[verifier::external_body]
pub(crate) fn stage_welcome(
    provider: &OpenMlsRustCrypto,
    welcome: Welcome,
) -> (r: Result<StagedWelcome, String>) {
    let config = MlsGroupJoinConfig::default();
    StagedWelcome::new_from_welcome(provider, &config, welcome, None).map_err(|e| e.to_string())
}

/// Calls `StagedWelcome::into_group`. Claimed: we are a member of the group that
/// comes out, and neither a proposal nor a commit of ours is waiting in it.
#[verifier::external_body]
pub(crate) fn welcome_into_group(
    staged: StagedWelcome,
    provider: &OpenMlsRustCrypto,
) -> (r: Result<MlsGroup, String>)
    ensures
        r matches Ok(group) ==> group_contents(group).active && group_contents(
            group,
        ).pending_proposals == 0 && !group_contents(group).adds_pending && group_contents(
            group,
        ).pending_commit is None,
{
    staged.into_group(provider).map_err(|e| e.to_string())
}

/// Calls `KeyPackage::builder`. Claimed: the package is for the given
/// ciphersuite, which is the only one among the capabilities of its leaf, whose
/// only credential type is Basic (1), and the leaf holds the given credential and
/// key. Its other keys are random.
#[verifier::external_body]
pub(crate) fn build_key_package(
    ciphersuite: u16,
    provider: &OpenMlsRustCrypto,
    keys: &SignatureKeyPair,
    credential_type: u16,
    content: &[u8],
    signature_key: &[u8],
) -> (r: Result<KeyPackage, String>)
    ensures
        r matches Ok(package) ==> key_package_contents(package) == (KeyPackageContents {
            ciphersuite,
            owner: CredentialWithKeyView {
                credential: CredentialView { credential_type, content: content@ },
                signature_key: signature_key@,
            },
            supported: seq![ciphersuite],
            credentials: seq![1u16],
        }),
{
    let suite = Ciphersuite::try_from(ciphersuite).map_err(|e| e.to_string())?;
    let credential = Credential::new(CredentialType::from(credential_type), content.to_vec());
    let owner = CredentialWithKey { credential, signature_key: signature_key.into() };
    let capabilities = Capabilities::new(None, Some(&[suite]), None, None, None);
    let builder = KeyPackage::builder().key_package_extensions(Extensions::default());
    let builder = builder.leaf_node_capabilities(capabilities);
    let bundle = builder.build(suite, provider, keys, owner).map_err(|e| e.to_string())?;
    Ok(bundle.key_package().clone())
}

/// Calls `tls_serialize_detached` on a key package.
#[verifier::external_body]
pub(crate) fn serialize_key_package(package: &KeyPackage) -> (r: Result<Vec<u8>, String>)
    ensures
        r matches Ok(bytes) ==> key_package_bytes(*package) == Some(bytes@),
        r is Err ==> key_package_bytes(*package) is None,
{
    package.tls_serialize_detached().map_err(|e| e.to_string())
}

/// Calls `SignaturePublicKey::tls_deserialize` on the bytes. Claimed: the
/// outcome depends on the bytes alone, and no more is read than there is. It is
/// not to be called on a length prefix that MLS does not allow: with debug
/// assertions `tls_codec` panics on it.
#[verifier::external_body]
pub(crate) fn read_signature_key(data: &[u8]) -> (r: Result<(Vec<u8>, usize), String>)
    requires
        allowed_prefix(data@, 0),
    ensures
        r is Err ==> leading_signature_key(data@) is None,
        r matches Ok((key, taken)) ==> leading_signature_key(data@) == Some((key@, taken as nat))
            && taken <= data@.len(),
{
    let mut cursor = Cursor::new(data);
    let key = SignaturePublicKey::tls_deserialize(&mut cursor).map_err(|e| e.to_string())?;
    Ok((key.as_slice().to_vec(), cursor.position() as usize))
}

/// Calls `Credential::tls_deserialize` on the bytes. Claimed: the outcome
/// depends on the bytes alone, and no more is read than there is. It is not to be
/// called on a length prefix that MLS does not allow: with debug assertions
/// `tls_codec` panics on it.
#[verifier::external_body]
pub(crate) fn read_credential(data: &[u8]) -> (r: Result<(u16, Vec<u8>, usize), String>)
    requires
        allowed_prefix(data@, 2),
    ensures
        r is Err ==> leading_credential(data@) is None,
        r matches Ok((credential_type, content, taken)) ==> leading_credential(data@) == Some(
            (CredentialView { credential_type, content: content@ }, taken as nat),
        ) && taken <= data@.len(),
{
    let mut cursor = Cursor::new(data);
    let credential = Credential::tls_deserialize(&mut cursor).map_err(|e| e.to_string())?;
    let content = credential.serialized_content().to_vec();
    Ok((credential.credential_type().into(), content, cursor.position() as usize))
}

} // verus!
