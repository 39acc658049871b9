//! A verifiable random function over the ristretto255 group with SHA-512.
//!
//! The holder of a secret key turns a message into a proof; anyone who has the
//! public key checks the proof and derives from it a pseudorandom output that
//! is fixed by the key and the message.

pub mod bytes;
pub mod error;
pub mod evidence;
pub mod group;
pub mod hash;
pub mod keys;
pub mod vrf;
pub mod wire;
