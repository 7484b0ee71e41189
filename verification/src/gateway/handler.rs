//! DAVE voice gateway event dispatcher.
//!
//! Parses raw binary payloads from the voice gateway into structured
//! [`DaveEvent`] variants for the driver to act on.
//!
//! ## Opcode Transport Types
//!
//! How each opcode travels:
//! - **JSON text**: OP 21, 22, 23, 24, 31
//! - **Binary**: OP 25, 26, 27, 28, 29, 30
//!
//! Only binary opcodes are dispatched through this module. JSON opcodes
//! (21, 22, 24) are handled with the driver's text messages.

use vstd::prelude::*;
use vstd::slice::slice_to_vec;
use vstd::string::*;
use crate::error::SigilError;
use crate::gateway::opcodes::{
    MlsAnnounceCommitTransition, MlsExternalSenderPayload, MlsWelcomePayload,
};
use crate::text::{counted_text, decimal};

verus! {

/// A parsed DAVE gateway event ready for driver consumption.
#[derive(Debug, Clone)]
pub enum DaveEvent {
    /// OP 25: External sender credential (binary).
    MlsExternalSender(MlsExternalSenderPayload),
    /// OP 27: One or more proposals (binary). Each inner `Vec<u8>` is one
    ///        complete TLS-serialized MLS message.
    ///
    /// `transition_id` must be echoed back in the OP 28 CommitWelcome
    /// response so Discord can correlate the commit with the proposal batch.
    MlsProposals {
        /// The transition ID from the OP 27 payload — echo in OP 28.
        transition_id: u64,
        operation_type: u8,
        proposals: Vec<Vec<u8>>,
    },
    /// OP 29: Commit with transition ID (binary).
    MlsAnnounceCommitTransition(MlsAnnounceCommitTransition),
    /// OP 30: Welcome for a pending member (binary).
    MlsWelcome(MlsWelcomePayload),
}

/// A payload without its `[seq(2)][op(1)]` header. The header is there if the
/// third byte is the opcode.
pub open spec fn without_header(payload: Seq<u8>, opcode: u8) -> Seq<u8> {
    if payload.len() >= 3 && payload[2] == opcode {
        payload.skip(3)
    } else {
        payload
    }
}

/// The number in two little-endian bytes.
pub open spec fn le_u16(data: Seq<u8>) -> u64 {
    (data[0] + 256 * data[1]) as u64
}

/// The event of an external sender payload: all of it.
pub open spec fn external_sender_event(
    data: Seq<u8>,
    r: Result<DaveEvent, SigilError>,
) -> bool {
    if data.len() == 0 {
        r matches Err(SigilError::Mls(text)) && text@ == "MlsExternalSender payload is empty"@
    } else {
        r matches Ok(DaveEvent::MlsExternalSender(payload)) && payload.credential@ == data
            && payload.signature_key@.len() == 0
    }
}

/// The event of a proposals payload: `[transition_id(2 LE)][operation(1)]`, and
/// what follows is one message, if there is anything.
pub open spec fn proposals_event(data: Seq<u8>, r: Result<DaveEvent, SigilError>) -> bool {
    if data.len() < 3 {
        r matches Err(SigilError::Mls(text)) && text@ == "MlsProposals payload too short: "@
            + decimal(data.len()) + " bytes (need ≥3)"@
    } else {
        &&& r matches Ok(DaveEvent::MlsProposals { transition_id, operation_type, proposals })
        &&& transition_id == le_u16(data)
        &&& operation_type == data[2]
        &&& if data.len() == 3 {
            proposals@.len() == 0
        } else {
            proposals@.len() == 1 && proposals@[0]@ == data.skip(3)
        }
    }
}

/// The event of an announced commit: `[transition_id(2 LE)][commit...]`.
pub open spec fn announce_commit_event(
    data: Seq<u8>,
    r: Result<DaveEvent, SigilError>,
) -> bool {
    if data.len() < 2 {
        r matches Err(SigilError::Mls(text)) && text@
            == "AnnounceCommitTransition payload too short: "@ + decimal(data.len()) + " bytes"@
    } else if data.len() == 2 {
        r matches Err(SigilError::Mls(text)) && text@
            == "AnnounceCommitTransition has empty commit data"@
    } else {
        r matches Ok(DaveEvent::MlsAnnounceCommitTransition(payload)) && payload.transition_id
            == le_u16(data) && payload.commit_bytes@ == data.skip(2)
    }
}

/// The event of a welcome: `[transition_id(2 LE)][welcome...]`.
pub open spec fn welcome_event(data: Seq<u8>, r: Result<DaveEvent, SigilError>) -> bool {
    if data.len() < 2 {
        r matches Err(SigilError::Mls(text)) && text@ == "MlsWelcome payload too short: "@
            + decimal(data.len()) + " bytes"@
    } else if data.len() == 2 {
        r matches Err(SigilError::Mls(text)) && text@ == "MlsWelcome has empty welcome data"@
    } else {
        r matches Ok(DaveEvent::MlsWelcome(payload)) && payload.transition_id == le_u16(data)
            && payload.welcome_bytes@ == data.skip(2)
    }
}

/// `r` is what a binary message dispatches to.
pub open spec fn dispatches_to(
    opcode: u8,
    payload: Seq<u8>,
    r: Result<DaveEvent, SigilError>,
) -> bool {
    let data = without_header(payload, opcode);
    if opcode == 25 {
        external_sender_event(data, r)
    } else if opcode == 27 {
        proposals_event(data, r)
    } else if opcode == 29 {
        announce_commit_event(data, r)
    } else if opcode == 30 {
        welcome_event(data, r)
    } else {
        r == Err::<DaveEvent, SigilError>(SigilError::UnknownOpcode(opcode))
    }
}

/// A driver that strips the header and one that leaves it get the same event,
/// as long as the third byte of the stripped payload is not the opcode.
pub proof fn header_may_be_stripped(
    opcode: u8,
    seq: Seq<u8>,
    data: Seq<u8>,
    r: Result<DaveEvent, SigilError>,
)
    requires
        seq.len() == 2,
        data.len() >= 3 ==> data[2] != opcode,
    ensures
        dispatches_to(opcode, seq.push(opcode) + data, r) == dispatches_to(opcode, data, r),
{
    assert((seq.push(opcode) + data).skip(3) =~= data);
}

/// Dispatch a raw voice gateway binary message to a [`DaveEvent`].
///
/// Binary layout common prefix: `[seq_be(2)][opcode(1)][payload...]`
///
/// Only binary opcodes (25, 27, 29, 30) are handled here. JSON opcodes
/// (21, 22, 24) are handled with the driver's text messages.
///
/// # Errors
///
/// Returns [`SigilError::UnknownOpcode`] for unrecognized opcodes, or
/// [`SigilError::Mls`] for malformed payloads.
pub fn dispatch(opcode: u8, payload: &[u8]) -> (r: Result<DaveEvent, SigilError>)
    ensures
        dispatches_to(opcode, payload@, r),
{
    match opcode {
        25 => parse_mls_external_sender(payload),
        27 => parse_mls_proposals(payload),
        29 => parse_mls_announce_commit(payload),
        30 => parse_mls_welcome(payload),
        _ => Err(SigilError::UnknownOpcode(opcode)),
    }
}

fn parse_mls_external_sender(payload: &[u8]) -> (r: Result<DaveEvent, SigilError>)
    ensures
        external_sender_event(without_header(payload@, 25), r),
{
    let data = skip_header_if_present(payload, 25);
    if data.len() == 0 {
        return Err(SigilError::Mls("MlsExternalSender payload is empty".to_owned()));
    }
    Ok(
        DaveEvent::MlsExternalSender(
            MlsExternalSenderPayload { credential: slice_to_vec(data), signature_key: Vec::new() },
        ),
    )
}

fn parse_mls_proposals(payload: &[u8]) -> (r: Result<DaveEvent, SigilError>)
    ensures
        proposals_event(without_header(payload@, 27), r),
{
    let data = skip_header_if_present(payload, 27);
    if data.len() < 3 {
        return Err(
            SigilError::Mls(
                counted_text(
                    "MlsProposals payload too short: ",
                    data.len() as u64,
                    " bytes (need ≥3)",
                ),
            ),
        );
    }
    let transition_id: u64 = data[0] as u64 + 256 * data[1] as u64;
    let operation_type: u8 = data[2];
    let mut proposals: Vec<Vec<u8>> = Vec::new();
    if data.len() > 3 {
        let blob = &data[3..data.len()];
        assert(blob@ =~= data@.skip(3));
        proposals.push(slice_to_vec(blob));
    }
    Ok(DaveEvent::MlsProposals { transition_id, operation_type, proposals })
}

fn parse_mls_announce_commit(payload: &[u8]) -> (r: Result<DaveEvent, SigilError>)
    ensures
        announce_commit_event(without_header(payload@, 29), r),
{
    let data = skip_header_if_present(payload, 29);
    if data.len() < 2 {
        return Err(
            SigilError::Mls(
                counted_text(
                    "AnnounceCommitTransition payload too short: ",
                    data.len() as u64,
                    " bytes",
                ),
            ),
        );
    }
    if data.len() == 2 {
        return Err(SigilError::Mls("AnnounceCommitTransition has empty commit data".to_owned()));
    }
    let transition_id: u64 = data[0] as u64 + 256 * data[1] as u64;
    let commit = &data[2..data.len()];
    assert(commit@ =~= data@.skip(2));
    let commit_bytes = slice_to_vec(commit);
    Ok(
        DaveEvent::MlsAnnounceCommitTransition(
            MlsAnnounceCommitTransition { transition_id, commit_bytes },
        ),
    )
}

fn parse_mls_welcome(payload: &[u8]) -> (r: Result<DaveEvent, SigilError>)
    ensures
        welcome_event(without_header(payload@, 30), r),
{
    let data = skip_header_if_present(payload, 30);
    if data.len() < 2 {
        return Err(
            SigilError::Mls(
                counted_text("MlsWelcome payload too short: ", data.len() as u64, " bytes"),
            ),
        );
    }
    if data.len() == 2 {
        return Err(SigilError::Mls("MlsWelcome has empty welcome data".to_owned()));
    }
    let transition_id: u64 = data[0] as u64 + 256 * data[1] as u64;
    let welcome = &data[2..data.len()];
    assert(welcome@ =~= data@.skip(2));
    let welcome_bytes = slice_to_vec(welcome);
    Ok(DaveEvent::MlsWelcome(MlsWelcomePayload { transition_id, welcome_bytes }))
}

/// If the payload still contains the [seq(2)][op(1)] header, skip it.
///
/// The driver may or may not strip the header before calling dispatch,
/// so both cases are handled: the header is recognized by byte 2 being
/// the expected opcode.
fn skip_header_if_present(payload: &[u8], expected_op: u8) -> (data: &[u8])
    ensures
        data@ == without_header(payload@, expected_op),
{
    if payload.len() >= 3 && payload[2] == expected_op {
        let data = &payload[3..payload.len()];
        assert(data@ =~= payload@.skip(3));
        data
    } else {
        payload
    }
}

/// With its header of three bytes, the last of them the opcode, a message of at
/// least one byte more for the external sender, of three for proposals, and of
/// three for a commit or a welcome becomes an event. Transition IDs stand in
/// bytes 3 and 4, the less significant first; what follows is handed on as it is.
/// Less than that is an error, and so is any other opcode.
pub proof fn messages_become_events(
    opcode: u8,
    payload: &[u8],
    r: Result<DaveEvent, SigilError>,
)
    requires
        call_ensures(dispatch, (opcode, payload), r),
    ensures
        opcode != 25 && opcode != 27 && opcode != 29 && opcode != 30 ==> r == Err::<
            DaveEvent,
            SigilError,
        >(SigilError::UnknownOpcode(opcode)),
        payload@.len() >= 3 && payload@[2] == opcode ==> {
            &&& opcode == 25 ==> if payload@.len() == 3 {
                r is Err
            } else {
                r matches Ok(DaveEvent::MlsExternalSender(found)) && found.credential@
                    == payload@.skip(3) && found.signature_key@.len() == 0
            }
            &&& opcode == 27 ==> if payload@.len() < 6 {
                r is Err
            } else {
                &&& r matches Ok(
                    DaveEvent::MlsProposals { transition_id, operation_type, proposals },
                )
                &&& transition_id == payload@[3] + 256 * payload@[4]
                &&& operation_type == payload@[5]
                &&& payload@.len() == 6 ==> proposals@.len() == 0
                &&& payload@.len() > 6 ==> proposals@.len() == 1 && proposals@[0]@
                    == payload@.skip(6)
            }
            &&& opcode == 29 ==> if payload@.len() < 6 {
                r is Err
            } else {
                r matches Ok(DaveEvent::MlsAnnounceCommitTransition(found))
                    && found.transition_id == payload@[3] + 256 * payload@[4]
                    && found.commit_bytes@ == payload@.skip(5)
            }
            &&& opcode == 30 ==> if payload@.len() < 6 {
                r is Err
            } else {
                r matches Ok(DaveEvent::MlsWelcome(found)) && found.transition_id == payload@[3]
                    + 256 * payload@[4] && found.welcome_bytes@ == payload@.skip(5)
            }
        },
{
    if payload@.len() >= 3 && payload@[2] == opcode {
        let data = payload@.skip(3);
        assert(data.len() >= 1 ==> data[0] == payload@[3]);
        assert(data.len() >= 2 ==> data[1] == payload@[4]);
        assert(data.len() >= 3 ==> data[2] == payload@[5]);
        assert(data.len() >= 2 ==> data.skip(2) =~= payload@.skip(5));
        assert(data.len() >= 3 ==> data.skip(3) =~= payload@.skip(6));
    }
}

/// Without its header a message becomes the same event as with any header of its
/// opcode, as long as its own third byte is not the opcode.
pub proof fn header_may_be_missing(
    opcode: u8,
    bare: &[u8],
    whole: &[u8],
    seq: Seq<u8>,
    r: Result<DaveEvent, SigilError>,
)
    requires
        call_ensures(dispatch, (opcode, bare), r),
        seq.len() == 2,
        whole@ == seq.push(opcode) + bare@,
        bare@.len() >= 3 ==> bare@[2] != opcode,
    ensures
        dispatches_to(opcode, whole@, r),
{
    header_may_be_stripped(opcode, seq, bare@, r);
}

/// A message without a header, that is with fewer than three bytes or with
/// another third byte than the opcode, is read from its first byte on in the same
/// way.
pub proof fn bare_messages_become_events(
    opcode: u8,
    payload: &[u8],
    r: Result<DaveEvent, SigilError>,
)
    requires
        call_ensures(dispatch, (opcode, payload), r),
        payload@.len() < 3 || payload@[2] != opcode,
    ensures
        opcode == 25 ==> if payload@.len() == 0 {
            r is Err
        } else {
            r matches Ok(DaveEvent::MlsExternalSender(found)) && found.credential@ == payload@
                && found.signature_key@.len() == 0
        },
        opcode == 27 ==> if payload@.len() < 3 {
            r is Err
        } else {
            &&& r matches Ok(DaveEvent::MlsProposals { transition_id, operation_type, proposals })
            &&& transition_id == payload@[0] + 256 * payload@[1]
            &&& operation_type == payload@[2]
            &&& payload@.len() == 3 ==> proposals@.len() == 0
            &&& payload@.len() > 3 ==> proposals@.len() == 1 && proposals@[0]@ == payload@.skip(3)
        },
        opcode == 29 ==> if payload@.len() < 3 {
            r is Err
        } else {
            r matches Ok(DaveEvent::MlsAnnounceCommitTransition(found)) && found.transition_id
                == payload@[0] + 256 * payload@[1] && found.commit_bytes@ == payload@.skip(2)
        },
        opcode == 30 ==> if payload@.len() < 3 {
            r is Err
        } else {
            r matches Ok(DaveEvent::MlsWelcome(found)) && found.transition_id == payload@[0] + 256
                * payload@[1] && found.welcome_bytes@ == payload@.skip(2)
        },
{
}

} // verus!
