//! Hashing a sequence of byte strings to a scalar.

use crate::algebra::{le_value, Ciphersuite, Field, FieldOf, Scalar};
use crate::blake2b::{
    blake2b_512, state_digest_len, state_finalize, state_input, state_new, state_personal,
    state_update, DIGEST_BYTES,
};
use std::marker::PhantomData;
use vstd::prelude::*;

verus! {

/// The residue that hashing `input` under the tag `personal` yields in the
/// field `F`: the 64-byte BLAKE2b digest, read as a little-endian integer
/// and reduced modulo the order of the field.
pub open spec fn hash_to_scalar<F: Field>(personal: Seq<u8>, input: Seq<u8>) -> nat {
    le_value(blake2b_512(personal, input)) % F::order()
}

/// Provides H^star, the hash-to-scalar function of a ciphersuite.
///
/// A hasher is made once, fed with [`HStar::update`] any number of times, and
/// used up by [`HStar::finalize`].
pub struct HStar<C: Ciphersuite> {
    state: blake2b_simd::State,
    suite: PhantomData<C>,
}

impl<C: Ciphersuite> HStar<C> {
    #[verifier::type_invariant]
    spec fn is_wide(self) -> bool {
        state_digest_len(self.state) == DIGEST_BYTES
    }

    /// The domain-separation tag that the hasher was made with.
    pub closed spec fn personal(self) -> Seq<u8> {
        state_personal(self.state)
    }

    /// Everything that the hasher has been fed so far, in order.
    pub closed spec fn input(self) -> Seq<u8> {
        state_input(self.state)
    }

    /// A hasher with the domain-separation tag `personal` that has been fed
    /// nothing yet.
    pub fn new(personal: &[u8; 16]) -> (h: Self)
        ensures
            h.personal() == personal@,
            h.input() == Seq::<u8>::empty(),
    {
        HStar { state: state_new(personal), suite: PhantomData }
    }

    /// Add `data` to the hash, and return `Self` for chaining.
    pub fn update(self, data: &[u8]) -> (h: Self)
        ensures
            h.personal() == self.personal(),
            h.input() == self.input() + data@,
    {
        proof {
            use_type_invariant(&self);
        }
        let mut state = self.state;
        state_update(&mut state, data);
        HStar { state, suite: PhantomData }
    }

    /// Consume `self` to compute the hash output.
    pub fn finalize(self) -> (s: Scalar<C>)
        ensures
            FieldOf::<C>::value(s) == hash_to_scalar::<FieldOf<C>>(self.personal(), self.input()),
    {
        proof {
            use_type_invariant(&self);
        }
        let digest = state_finalize(&self.state);
        <FieldOf<C>>::from_bytes_wide(&digest)
    }
}

impl<C: Ciphersuite> Default for HStar<C> {
    /// A hasher with the ciphersuite's own tag that has been fed nothing yet.
    fn default() -> (h: Self)
        ensures
            h.personal() == C::tag(),
            h.input() == Seq::<u8>::empty(),
    {
        let tag = C::domain_tag();
        HStar::new(&tag)
    }
}

} // verus!
