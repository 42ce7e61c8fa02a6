//! Authentication core of a game backend: signed session tokens with an
//! access/refresh pair, password checking, and a human-verification challenge
//! that gates account creation.
//!
//! Every decision of the protocol is a verified function from plain values to
//! plain values. Storage and HTTP plumbing live outside this crate and hand
//! their results in as arguments.

pub mod api;
pub mod challenge;
pub mod claims;
pub mod clock;
pub mod codec;
pub mod credentials;
pub mod errors;
pub mod gate;
pub mod hex;
pub mod session;
