//! DAVE voice gateway opcodes 21-31.
//!
//! Defines the opcode enum and the payload structs of all DAVE-specific voice
//! gateway messages.

use vstd::prelude::*;

verus! {

/// DAVE voice gateway opcodes (21-31).
///
/// ## Transport Types
///
/// How each opcode travels:
/// - **JSON text**: OP 21, 22, 23, 24, 31
/// - **Binary**: OP 25, 26, 27, 28, 29, 30
#[derive(Debug, Clone, Copy, PartialEq, Eq, Structural)]
pub enum DaveOpcode {
    /// Server -> Client: prepare for a protocol transition (JSON).
    PrepareTransition,
    /// Server -> Client: execute a previously announced transition (JSON).
    ExecuteTransition,
    /// Client -> Server: signal readiness for a transition (JSON).
    ReadyForTransition,
    /// Server -> Client: prepare for a new epoch (JSON).
    PrepareEpoch,
    /// Server -> Client: external sender package (binary).
    MlsExternalSender,
    /// Client -> Server: key package (binary).
    MlsKeyPackage,
    /// Server -> Client: proposals to append or revoke (binary).
    MlsProposals,
    /// Client -> Server: commit + optional welcome (binary).
    MlsCommitWelcome,
    /// Server -> Client: announce commit with transition ID (binary).
    MlsAnnounceCommitTransition,
    /// Server -> Client: welcome message for pending member (binary).
    MlsWelcome,
    /// Client -> Server: report invalid commit/welcome (JSON).
    MlsInvalidCommitWelcome,
}

/// The number of an opcode on the wire.
pub open spec fn opcode_number(op: DaveOpcode) -> u8 {
    match op {
        DaveOpcode::PrepareTransition => 21,
        DaveOpcode::ExecuteTransition => 22,
        DaveOpcode::ReadyForTransition => 23,
        DaveOpcode::PrepareEpoch => 24,
        DaveOpcode::MlsExternalSender => 25,
        DaveOpcode::MlsKeyPackage => 26,
        DaveOpcode::MlsProposals => 27,
        DaveOpcode::MlsCommitWelcome => 28,
        DaveOpcode::MlsAnnounceCommitTransition => 29,
        DaveOpcode::MlsWelcome => 30,
        DaveOpcode::MlsInvalidCommitWelcome => 31,
    }
}

impl DaveOpcode {
    /// The opcode's number on the wire.
    pub fn to_u8(&self) -> (v: u8)
        ensures
            v == opcode_number(*self),
    {
        match self {
            Self::PrepareTransition => 21,
            Self::ExecuteTransition => 22,
            Self::ReadyForTransition => 23,
            Self::PrepareEpoch => 24,
            Self::MlsExternalSender => 25,
            Self::MlsKeyPackage => 26,
            Self::MlsProposals => 27,
            Self::MlsCommitWelcome => 28,
            Self::MlsAnnounceCommitTransition => 29,
            Self::MlsWelcome => 30,
            Self::MlsInvalidCommitWelcome => 31,
        }
    }

    /// Try to convert a raw `u8` to a [`DaveOpcode`].
    ///
    /// Returns `None` if the value is not a recognized DAVE opcode.
    pub fn from_u8(v: u8) -> (r: Option<Self>)
        ensures
            r matches Some(op) ==> opcode_number(op) == v,
            r is Some <==> 21 <= v <= 31,
    {
        match v {
            21 => Some(Self::PrepareTransition),
            22 => Some(Self::ExecuteTransition),
            23 => Some(Self::ReadyForTransition),
            24 => Some(Self::PrepareEpoch),
            25 => Some(Self::MlsExternalSender),
            26 => Some(Self::MlsKeyPackage),
            27 => Some(Self::MlsProposals),
            28 => Some(Self::MlsCommitWelcome),
            29 => Some(Self::MlsAnnounceCommitTransition),
            30 => Some(Self::MlsWelcome),
            31 => Some(Self::MlsInvalidCommitWelcome),
            _ => None,
        }
    }

    /// Returns `true` if this opcode is sent from the server to the client.
    pub fn is_server_to_client(&self) -> (b: bool)
        ensures
            b == (*self != DaveOpcode::ReadyForTransition && *self != DaveOpcode::MlsKeyPackage
                && *self != DaveOpcode::MlsCommitWelcome && *self
                != DaveOpcode::MlsInvalidCommitWelcome),
    {
        match self {
            Self::PrepareTransition
            | Self::ExecuteTransition
            | Self::PrepareEpoch
            | Self::MlsExternalSender
            | Self::MlsProposals
            | Self::MlsAnnounceCommitTransition
            | Self::MlsWelcome => true,
            _ => false,
        }
    }

    /// Returns `true` if this opcode uses binary WebSocket transport.
    ///
    /// Binary opcodes: 25, 26, 27, 28, 29, 30.
    /// JSON opcodes: 21, 22, 23, 24, 31.
    pub fn is_binary(&self) -> (b: bool)
        ensures
            b == (25 <= opcode_number(*self) <= 30),
    {
        match self {
            Self::MlsExternalSender
            | Self::MlsKeyPackage
            | Self::MlsProposals
            | Self::MlsCommitWelcome
            | Self::MlsAnnounceCommitTransition
            | Self::MlsWelcome => true,
            _ => false,
        }
    }
}

/// No two opcodes share a number.
pub proof fn opcode_numbers_are_distinct(a: DaveOpcode, b: DaveOpcode)
    requires
        opcode_number(a) == opcode_number(b),
    ensures
        a == b,
{
}

/// Payload for [`DaveOpcode::PrepareTransition`] (opcode 21, JSON).
#[derive(Debug, Clone)]
pub struct PrepareTransition {
    /// The protocol version for this transition.
    pub protocol_version: u16,
    /// Unique transition identifier. 0 = (re)initialization.
    pub transition_id: u64,
}

/// Payload for [`DaveOpcode::ExecuteTransition`] (opcode 22, JSON).
#[derive(Debug, Clone)]
pub struct ExecuteTransition {
    /// The previously announced transition ID to execute.
    pub transition_id: u64,
}

/// Payload for [`DaveOpcode::ReadyForTransition`] (opcode 23, JSON).
#[derive(Debug, Clone)]
pub struct ReadyForTransition {
    /// The transition ID the client is ready to execute.
    pub transition_id: u64,
}

/// Payload for [`DaveOpcode::PrepareEpoch`] (opcode 24, JSON).
///
/// JSON format: `{ "protocol_version": u16, "epoch": u64 }`
///
/// When `epoch == 1`, the client should generate and send a fresh
/// MLS KeyPackage (OP 26, binary).
#[derive(Debug, Clone)]
pub struct PrepareEpoch {
    /// The protocol version for the upcoming epoch.
    pub protocol_version: u16,
    /// The epoch identifier. 1 = new MLS group creation.
    pub epoch: u64,
}

/// Payload for [`DaveOpcode::MlsExternalSender`] (opcode 25, binary).
///
/// The actual credential + public key are parsed from the raw bytes when the
/// external sender is set on the session.
#[derive(Debug, Clone)]
pub struct MlsExternalSenderPayload {
    /// Raw credential bytes from the external sender.
    pub credential: Vec<u8>,
    /// Raw signature public key bytes.
    pub signature_key: Vec<u8>,
}

/// Payload for [`DaveOpcode::MlsKeyPackage`] (opcode 26, binary).
#[derive(Debug, Clone)]
pub struct MlsKeyPackagePayload {
    /// TLS-serialized MLS KeyPackage message.
    pub key_package_bytes: Vec<u8>,
}

/// Payload for [`DaveOpcode::MlsProposals`] (opcode 27, binary).
#[derive(Debug, Clone)]
pub struct MlsProposalsPayload {
    /// 0 = append, 1 = revoke.
    pub operation_type: u8,
    /// Raw proposal message bytes.
    pub data: Vec<u8>,
}

/// Payload for [`DaveOpcode::MlsCommitWelcome`] (opcode 28, binary).
#[derive(Debug, Clone)]
pub struct MlsCommitWelcomePayload {
    /// TLS-serialized MLS Commit message.
    pub commit_bytes: Vec<u8>,
    /// Optional TLS-serialized MLS Welcome message.
    pub welcome_bytes: Option<Vec<u8>>,
}

/// Payload for [`DaveOpcode::MlsAnnounceCommitTransition`] (opcode 29, binary).
///
/// Wire format: [seq(2)][op(1)][transition_id(2 LE uint16)][commit...]
///
/// Note: transition_id is uint16 on the wire, stored as u64 here
/// for consistency with the JSON opcodes.
#[derive(Debug, Clone)]
pub struct MlsAnnounceCommitTransition {
    /// Transition ID for the commit transition.
    pub transition_id: u64,
    /// TLS-serialized MLS Commit message.
    pub commit_bytes: Vec<u8>,
}

/// Payload for [`DaveOpcode::MlsWelcome`] (opcode 30, binary).
///
/// Wire format: [seq(2)][op(1)][transition_id(2 LE uint16)][welcome...]
///
/// Note: transition_id is uint16 on the wire, stored as u64 here
/// for consistency with the JSON opcodes.
#[derive(Debug, Clone)]
pub struct MlsWelcomePayload {
    /// Transition ID for the group transition.
    pub transition_id: u64,
    /// TLS-serialized MLS Welcome message.
    pub welcome_bytes: Vec<u8>,
}

/// Payload for [`DaveOpcode::MlsInvalidCommitWelcome`] (opcode 31, JSON).
#[derive(Debug, Clone)]
pub struct MlsInvalidCommitWelcome {
    /// Transition ID in which the invalid message was received.
    pub transition_id: u64,
}

/// The opcodes have the numbers 21 to 31 in the order in which they are declared,
/// and each is found again under its number.
pub proof fn opcodes_run_from_21_to_31(op: DaveOpcode, number: u8, found: Option<DaveOpcode>)
    requires
        call_ensures(DaveOpcode::to_u8, (&op,), number),
        call_ensures(DaveOpcode::from_u8, (number,), found),
    ensures
        found == Some(op),
        number == 21 <==> op == DaveOpcode::PrepareTransition,
        number == 22 <==> op == DaveOpcode::ExecuteTransition,
        number == 23 <==> op == DaveOpcode::ReadyForTransition,
        number == 24 <==> op == DaveOpcode::PrepareEpoch,
        number == 25 <==> op == DaveOpcode::MlsExternalSender,
        number == 26 <==> op == DaveOpcode::MlsKeyPackage,
        number == 27 <==> op == DaveOpcode::MlsProposals,
        number == 28 <==> op == DaveOpcode::MlsCommitWelcome,
        number == 29 <==> op == DaveOpcode::MlsAnnounceCommitTransition,
        number == 30 <==> op == DaveOpcode::MlsWelcome,
        number == 31 <==> op == DaveOpcode::MlsInvalidCommitWelcome,
        21 <= number <= 31,
{
    if let Some(other) = found {
        opcode_numbers_are_distinct(op, other);
    }
}

/// Numbers outside 21 to 31 belong to no opcode. Those from 25 to 30 travel in
/// binary; 23, 26, 28 and 31 go from the client to the server, and the others
/// come from it.
pub proof fn opcode_directions(
    op: DaveOpcode,
    number: u8,
    binary: bool,
    from_server: bool,
    any: u8,
    found: Option<DaveOpcode>,
)
    requires
        call_ensures(DaveOpcode::to_u8, (&op,), number),
        call_ensures(DaveOpcode::is_binary, (&op,), binary),
        call_ensures(DaveOpcode::is_server_to_client, (&op,), from_server),
        call_ensures(DaveOpcode::from_u8, (any,), found),
    ensures
        any < 21 || any > 31 ==> found is None,
        binary <==> number == 25 || number == 26 || number == 27 || number == 28 || number == 29
            || number == 30,
        from_server <==> number != 23 && number != 26 && number != 28 && number != 31,
{
}

} // verus!
