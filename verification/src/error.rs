//! The ways in which an operation of this library fails.

use vstd::prelude::*;

verus! {

/// Why an operation gave no result. A proof that does not verify is not an
/// error: verification answers `false`.
#[derive(Clone, Copy, Debug, PartialEq, Eq, Structural)]
pub enum VrfError {
    /// An encoding has the wrong length, or is not the canonical encoding of anything.
    MalformedInput,
    /// A key of the right length that is no key: a secret scalar that is zero
    /// or not below the group order, or a public key that encodes no group element.
    InvalidKey,
    /// Key generation was given fewer random bytes than it needs.
    InsufficientEntropy,
}

} // verus!
