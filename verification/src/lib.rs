//! Schnorr signatures over an abstract prime-order group.
//!
//! A [`Ciphersuite`] fixes the group, its scalar field and a
//! domain-separation tag. A [`SigningKey`] is a nonzero scalar `x`, and its
//! [`VerifyingKey`] is `x` times the generator. A [`Signature`] on a message
//! is a commitment `R`, which is a fresh nonce `k` times the generator, and a
//! response `z = k + c * x`, where the challenge `c` is the hash of the
//! commitment, the verifying key and the message. It is valid if `z` times
//! the generator equals `R` plus `c` times the verifying key.

pub mod algebra;
pub mod blake2b;
pub mod challenge;
pub mod entropy;
pub mod error;
pub mod hash;
pub mod signature;
pub mod signing_key;
pub mod toy;
pub mod verifying_key;

pub use crate::algebra::{Ciphersuite, Element, Field, Group, Scalar};
pub use crate::challenge::challenge;
pub use crate::entropy::random_nonzero;
pub use crate::error::SignatureError;
pub use crate::hash::HStar;
pub use crate::signature::Signature;
pub use crate::signing_key::SigningKey;
pub use crate::verifying_key::VerifyingKey;
