//! Two data owners and a coordinator jointly compute
//! `(x_a + x_b) * (y_a + y_b) mod p` with additive masking.
//!
//! The library holds the verified parts of the protocol: prime-field
//! arithmetic, the decimal line framing of the wire, the encoding of a
//! party's private natural numbers, and the decision logic of each role as a
//! state machine. Sockets, timers and prompts are left to the caller, which
//! performs the actions the machines ask for and hands back what happened.
use vstd::prelude::*;

pub mod coordinator;
pub mod error;
pub mod field;
pub mod party;
pub mod secret;
pub mod session;
pub mod wire;
