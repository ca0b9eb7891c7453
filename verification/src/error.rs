//! The ways in which an operation of this crate can fail.

use vstd::prelude::*;

verus! {

/// Why an operation failed.
#[derive(Clone, Copy, Debug, PartialEq, Eq, Structural)]
pub enum SignatureError {
    /// The bytes are not the canonical encoding of a scalar or group element.
    DeserializeError,
    /// The signature does not satisfy the verification equation.
    InvalidSignature,
    /// The random number generator could not produce output.
    RngFailure,
}

} // verus!
