//! Schnorr signature verifying keys

use crate::algebra::{
    add_mod, decode_element, generator_mul, lemma_element_decoding_is_canonical,
    lemma_element_round_trip, lemma_generator_mul, lemma_scalar_decoding_is_canonical, mul_mod,
    Ciphersuite, Element, Field, FieldOf, Group, GroupOf,
};
use crate::challenge::{challenge, spec_challenge};
use crate::error::SignatureError;
use crate::signature::{decode_signature, Signature};
use vstd::prelude::*;

verus! {

/// A valid verifying key for Schnorr signatures over a [`Ciphersuite::Group`].
pub struct VerifyingKey<C: Ciphersuite> {
    pub(crate) element: Element<C>,
}

/// Whether `sig` is a valid signature on `msg` under the verifying key of
/// index `p`: with `c` the challenge for the commitment, the key and the
/// message, `z` times the generator must be the commitment plus `c` times
/// the key.
pub open spec fn spec_verify<C: Ciphersuite>(p: nat, msg: Seq<u8>, sig: (nat, nat)) -> bool {
    let q = FieldOf::<C>::order();
    let c = spec_challenge::<C>(sig.0, p, msg);
    generator_mul::<GroupOf<C>>(sig.1) == add_mod(sig.0, mul_mod(p, c, q), q)
}

impl<C: Ciphersuite> VerifyingKey<C> {
    /// The index of the key's group element.
    pub closed spec fn view(self) -> nat {
        GroupOf::<C>::index(self.element)
    }

    /// The verifying key that is the group element `element`.
    pub fn new(element: Element<C>) -> (key: Self)
        ensures
            key@ == GroupOf::<C>::index(element),
    {
        VerifyingKey { element }
    }

    /// The group element of the key.
    pub fn to_element(&self) -> (element: Element<C>)
        ensures
            GroupOf::<C>::index(element) == self@,
    {
        self.element
    }

    /// Deserialize from bytes
    pub fn from_bytes(bytes: &[u8]) -> (r: Result<VerifyingKey<C>, SignatureError>)
        ensures
            match r {
                Ok(key) => decode_element::<GroupOf<C>>(bytes@) == Some(key@),
                Err(e) => e == SignatureError::DeserializeError && decode_element::<GroupOf<C>>(
                    bytes@,
                ) is None,
            },
    {
        proof {
            lemma_element_decoding_is_canonical::<GroupOf<C>>(bytes@);
        }
        match <GroupOf<C>>::deserialize(bytes) {
            Err(_) => Err(SignatureError::DeserializeError),
            Ok(element) => {
                proof {
                    GroupOf::<C>::lemma_index_in_range(element);
                    lemma_element_round_trip::<GroupOf<C>>(GroupOf::<C>::index(element));
                }
                Ok(VerifyingKey { element })
            },
        }
    }

    /// Serialize `VerifyingKey` to bytes
    pub fn to_bytes(&self) -> (bytes: Vec<u8>)
        ensures
            bytes@ == GroupOf::<C>::encoding(self@),
    {
        <GroupOf<C>>::serialize(&self.element)
    }

    /// Verify a purported `signature` over `msg` made by this verification
    /// key.
    pub fn verify(&self, msg: &[u8], signature: &Signature<C>) -> (r: Result<(), SignatureError>)
        ensures
            r is Ok <==> spec_verify::<C>(self@, msg@, signature@),
            r matches Err(e) ==> e == SignatureError::InvalidSignature,
    {
        let c = challenge::<C>(&signature.R, &self.element, msg);
        let generator = <GroupOf<C>>::generator();
        let left = <GroupOf<C>>::scalar_mul(&generator, &signature.z);
        let right = <GroupOf<C>>::add(&signature.R, &<GroupOf<C>>::scalar_mul(&self.element, &c));
        if <GroupOf<C>>::equal(&left, &right) {
            Ok(())
        } else {
            Err(SignatureError::InvalidSignature)
        }
    }

    /// Verify a purported signature, given in its encoding, over `msg` made
    /// by this verification key. Bytes that do not encode a signature are
    /// rejected like a signature that does not verify.
    pub fn verify_encoded(&self, msg: &[u8], signature: &[u8]) -> (r: Result<(), SignatureError>)
        ensures
            r is Ok <==> (decode_signature::<C>(signature@) matches Some(sig) && spec_verify::<C>(
                self@,
                msg@,
                sig,
            )),
            r matches Err(e) ==> e == SignatureError::InvalidSignature,
    {
        match Signature::<C>::from_bytes(signature) {
            Err(_) => Err(SignatureError::InvalidSignature),
            Ok(sig) => self.verify(msg, &sig),
        }
    }
}

impl<C: Ciphersuite> Clone for VerifyingKey<C> {
    fn clone(&self) -> (key: Self)
        ensures
            key@ == self@,
    {
        VerifyingKey { element: self.element }
    }
}

impl<C: Ciphersuite> Copy for VerifyingKey<C> {

}

/// A signature that is valid stops being valid when its response is
/// replaced by any other scalar.
pub proof fn lemma_response_is_unique<C: Ciphersuite>(
    p: nat,
    msg: Seq<u8>,
    r: nat,
    z: nat,
    other: nat,
)
    requires
        z < FieldOf::<C>::order(),
        other < FieldOf::<C>::order(),
        other != z,
        spec_verify::<C>(p, msg, (r, z)),
    ensures
        !spec_verify::<C>(p, msg, (r, other)),
{
    lemma_generator_mul::<GroupOf<C>>(z);
    lemma_generator_mul::<GroupOf<C>>(other);
}

/// In the encoding of a signature that is valid, no other bytes can stand in
/// the place of the response: whatever differs there from the encoding of
/// the response, be it by one bit, either fails to decode or decodes to a
/// signature that is not valid.
pub proof fn lemma_response_encoding_is_unique<C: Ciphersuite>(
    p: nat,
    msg: Seq<u8>,
    r: nat,
    z: nat,
    other: Seq<u8>,
)
    requires
        r < FieldOf::<C>::order(),
        z < FieldOf::<C>::order(),
        other != FieldOf::<C>::encoding(z),
        spec_verify::<C>(p, msg, (r, z)),
    ensures
        !(decode_signature::<C>(GroupOf::<C>::encoding(r) + other) matches Some(sig)
            && spec_verify::<C>(p, msg, sig)),
{
    let head = GroupOf::<C>::encoding(r);
    let bytes = head + other;
    GroupOf::<C>::lemma_encoding_len(r);
    assert(bytes.subrange(0, head.len() as int) == head);
    assert(bytes.subrange(head.len() as int, bytes.len() as int) == other);
    lemma_element_round_trip::<GroupOf<C>>(r);
    lemma_scalar_decoding_is_canonical::<FieldOf<C>>(other);
    if let Some(sig) = decode_signature::<C>(bytes) {
        lemma_response_is_unique::<C>(p, msg, r, z, sig.1);
    }
}

} // verus!
