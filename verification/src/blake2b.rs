//! The BLAKE2b hash function, computed by the `blake2b_simd` crate.
//!
//! Verus does not look inside `blake2b_simd`. What this crate relies on is
//! written down here as contracts that are taken on trust: an incremental
//! hasher remembers the parameters it was made with, absorbs its input in
//! order, and its digest depends on nothing else.

use vstd::prelude::*;

verus! {

/// Number of bytes in a full-width BLAKE2b digest.
pub const DIGEST_BYTES: usize = 64;

#[verifier::external_type_specification]
#[verifier::external_body]
pub struct ExState(blake2b_simd::State);

/// The digest length, in bytes, that an incremental hasher was created for.
pub uninterp spec fn state_digest_len(state: blake2b_simd::State) -> nat;

/// The personalization that an incremental hasher was created with.
pub uninterp spec fn state_personal(state: blake2b_simd::State) -> Seq<u8>;

/// All the bytes that an incremental hasher has absorbed, oldest first.
pub uninterp spec fn state_input(state: blake2b_simd::State) -> Seq<u8>;

/// The 64-byte BLAKE2b digest of `input` under the personalization
/// `personal`, with no key, no salt and no tree parameters.
pub uninterp spec fn blake2b_512(personal: Seq<u8>, input: Seq<u8>) -> Seq<u8>;

/// Calls `blake2b_simd::Params::new`, sets `hash_length` to 64 and
/// `personal` to the given bytes, and calls `to_state`.
///
/// Trusted: the fresh hasher is one for 64-byte digests, carries the
/// personalization and has absorbed nothing. A digest of 64 bytes and a
/// personalization of 16 bytes are the longest that `Params` accepts, so
/// neither call panics.
#[verifier::external_body]
pub(crate) fn state_new(personal: &[u8; 16]) -> (state: blake2b_simd::State)
    ensures
        state_digest_len(state) == DIGEST_BYTES,
        state_personal(state) == personal@,
        state_input(state) == Seq::<u8>::empty(),
{
    blake2b_simd::Params::new().hash_length(64).personal(personal).to_state()
}

/// Calls `blake2b_simd::State::update`.
///
/// Trusted: the bytes of `data` are appended to what the hasher has
/// absorbed, and its parameters stay.
#[verifier::external_body]
pub(crate) fn state_update(state: &mut blake2b_simd::State, data: &[u8])
    ensures
        state_digest_len(*final(state)) == state_digest_len(*old(state)),
        state_personal(*final(state)) == state_personal(*old(state)),
        state_input(*final(state)) == state_input(*old(state)) + data@,
{
    state.update(data);
}

/// Calls `blake2b_simd::State::finalize` and copies the digest out of
/// `Hash::as_array`, which is only for digests of 64 bytes.
///
/// Trusted: the digest is the BLAKE2b hash of everything absorbed, under the
/// hasher's personalization.
#[verifier::external_body]
pub(crate) fn state_finalize(state: &blake2b_simd::State) -> (digest: [u8; 64])
    requires
        state_digest_len(*state) == DIGEST_BYTES,
    ensures
        digest@ == blake2b_512(state_personal(*state), state_input(*state)),
{
    *state.finalize().as_array()
}

} // verus!
