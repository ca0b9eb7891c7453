//! The Fiat-Shamir challenge that binds a signature to its commitment, its
//! key and its message.

use crate::algebra::{Ciphersuite, Element, Field, FieldOf, Group, GroupOf, Scalar};
use crate::hash::{hash_to_scalar, HStar};
use vstd::prelude::*;

verus! {

/// The challenge for the commitment of index `r`, the verifying key of index
/// `p` and the message `msg`: the hash, under the ciphersuite's tag, of the
/// canonical encoding of the commitment, then that of the key, then the
/// message.
pub open spec fn spec_challenge<C: Ciphersuite>(r: nat, p: nat, msg: Seq<u8>) -> nat {
    hash_to_scalar::<FieldOf<C>>(
        C::tag(),
        GroupOf::<C>::encoding(r) + GroupOf::<C>::encoding(p) + msg,
    )
}

/// Generates the challenge as is required for Schnorr signatures.
#[allow(non_snake_case)]
pub fn challenge<C: Ciphersuite>(R: &Element<C>, verifying_key: &Element<C>, msg: &[u8]) -> (c:
    Scalar<C>)
    ensures
        FieldOf::<C>::value(c) == spec_challenge::<C>(
            GroupOf::<C>::index(*R),
            GroupOf::<C>::index(*verifying_key),
            msg@,
        ),
{
    let commitment = <GroupOf<C>>::serialize(R);
    let key = <GroupOf<C>>::serialize(verifying_key);
    let hasher = HStar::<C>::default().update(commitment.as_slice()).update(key.as_slice()).update(
        msg,
    );
    assert(hasher.input() == commitment@ + key@ + msg@);
    hasher.finalize()
}

} // verus!
