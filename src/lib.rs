//! Two-party ephemeral Diffie-Hellman key agreement followed by one
//! stream-cipher encrypted message in each direction.
//!
//! The library holds the arithmetic, the keystream, the wire format and the
//! per-role session state machine; a driver performs the socket and console
//! work that the state machine asks for. A small module of helpers for a
//! byte-level file patch tool stands beside them.

pub mod exchange;
pub mod hex;
pub mod hextool;
pub mod keystream;
pub mod modexp;
pub mod session;
pub mod wire;
