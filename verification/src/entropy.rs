//! Sampling scalars with a caller-supplied random number generator.

use crate::algebra::{le_value, Ciphersuite, Field, FieldOf, Scalar};
use crate::error::SignatureError;
use rand_core::{CryptoRng, RngCore};
use vstd::prelude::*;

verus! {

/// How many draws [`random_nonzero`] makes before it gives the generator up.
///
/// A uniform draw reduces to zero with probability `1/q`. Even in a field of
/// two elements a working generator runs into this limit with probability
/// `2^-128`; one that does is broken, and its output must not be used.
pub const MAX_DRAWS: u32 = 128;

#[verifier::external_type_specification]
#[verifier::external_body]
pub struct ExRngError(rand_core::Error);

/// Calls `rand_core::RngCore::try_fill_bytes` on a fresh buffer of 64 bytes.
///
/// Trusted, and promises nothing: whether the generator succeeds and which
/// bytes it gives are up to the generator.
#[verifier::external_body]
pub(crate) fn try_fill_wide<R: RngCore + CryptoRng>(rng: &mut R) -> (r: Result<
    [u8; 64],
    rand_core::Error,
>) {
    let mut buf = [0u8; 64];
    match rng.try_fill_bytes(&mut buf) {
        Ok(()) => Ok(buf),
        Err(e) => Err(e),
    }
}

/// The scalar that the draw `bytes` reduces to, unless that scalar is zero.
pub fn nonzero_from_wide<C: Ciphersuite>(bytes: &[u8; 64]) -> (r: Option<Scalar<C>>)
    ensures
        match r {
            Some(s) => FieldOf::<C>::value(s) == le_value(bytes@) % FieldOf::<C>::order()
                && FieldOf::<C>::value(s) != 0,
            None => le_value(bytes@) % FieldOf::<C>::order() == 0,
        },
{
    let scalar = <FieldOf<C>>::from_bytes_wide(bytes);
    let zero = <FieldOf<C>>::zero();
    if <FieldOf<C>>::equal(&scalar, &zero) {
        None
    } else {
        Some(scalar)
    }
}

/// What follows from one draw, after `earlier` draws that all reduced to
/// zero: the outcome of the sampling, or `None` where another draw is to be
/// made.
///
/// A draw that failed (`drawn` is `None`) ends the sampling with
/// [`SignatureError::RngFailure`]; it is never retried. A draw that does not
/// reduce to zero ends it with the scalar that the draw reduces to. A draw
/// that reduces to zero is thrown away: another one is made, unless this
/// was the last of the [`MAX_DRAWS`] that a generator is given, in which
/// case the generator is reported as failed.
pub fn after_draw<C: Ciphersuite>(earlier: u32, drawn: Option<&[u8; 64]>) -> (next: Option<
    Result<Scalar<C>, SignatureError>,
>)
    ensures
        match drawn {
            None => next == Some(Err::<Scalar<C>, SignatureError>(SignatureError::RngFailure)),
            Some(bytes) => if le_value(bytes@) % FieldOf::<C>::order() != 0 {
                next matches Some(Ok(s)) && FieldOf::<C>::value(s) == le_value(bytes@)
                    % FieldOf::<C>::order()
            } else if earlier + 1 < MAX_DRAWS {
                next is None
            } else {
                next == Some(Err::<Scalar<C>, SignatureError>(SignatureError::RngFailure))
            },
        },
{
    match drawn {
        None => Some(Err(SignatureError::RngFailure)),
        Some(bytes) => match nonzero_from_wide::<C>(bytes) {
            Some(scalar) => Some(Ok(scalar)),
            None => if earlier < MAX_DRAWS - 1 {
                None
            } else {
                Some(Err(SignatureError::RngFailure))
            },
        },
    }
}

/// Draws a scalar that is not zero.
///
/// Each draw takes 64 bytes from `rng`, and [`after_draw`] decides what
/// follows from it: a draw that reduces to zero modulo the order of the
/// field is thrown away and another one is made, the first draw that does
/// not is the result, and a failure of the generator is reported at once
/// and never retried. A generator whose first [`MAX_DRAWS`] draws all reduce
/// to zero is reported as failed too.
pub fn random_nonzero<C: Ciphersuite, R: RngCore + CryptoRng>(rng: &mut R) -> (r: Result<
    Scalar<C>,
    SignatureError,
>)
    ensures
        match r {
            Ok(s) => 0 < FieldOf::<C>::value(s) < FieldOf::<C>::order(),
            Err(e) => e == SignatureError::RngFailure,
        },
{
    let mut draws: u32 = 0;
    loop
        invariant
            draws < MAX_DRAWS,
        decreases MAX_DRAWS - draws,
    {
        let next = match try_fill_wide(rng) {
            Ok(bytes) => after_draw::<C>(draws, Some(&bytes)),
            Err(_) => after_draw::<C>(draws, None),
        };
        match next {
            Some(outcome) => {
                proof {
                    if let Ok(scalar) = outcome {
                        FieldOf::<C>::lemma_value_in_range(scalar);
                    }
                }
                return outcome;
            },
            None => {
                draws = draws + 1;
            },
        }
    }
}

} // verus!
