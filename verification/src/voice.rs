//! The voice connection: gateway handshake and socket loop, RTP transport,
//! mixing, receiving, and the choice of what to play.

pub mod driver;
pub mod gateway;
pub mod manager;
pub mod mixer;
pub mod receiver;
pub mod source;
pub mod track;
pub mod udp;

use vstd::prelude::*;

verus! {

/// Whether the driver offers DAVE E2EE to its users.
///
/// - `true`  = DAVE enabled (E2EE) - Only works with Discord Canary/PTB clients
/// - `false` = DAVE disabled (regular audio) - Works with ALL Discord clients
pub const ENABLE_DAVE: bool = false;

} // verus!
