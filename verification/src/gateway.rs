//! DAVE voice gateway opcode handling and session state machine.
//!
//! - [`opcodes::DaveOpcode`] — opcodes 21–31 of the DAVE protocol
//! - [`session::DaveSession`] — session state machine with nonce management
//! - [`handler`] — raw opcode dispatch to high-level events

pub mod handler;
pub mod opcodes;
pub mod session;

pub use opcodes::DaveOpcode;
pub use session::{DaveSession, SessionState};
