//! Schnorr signatures and their encoding.

use crate::algebra::{
    decode_element, decode_scalar, lemma_element_decoding_is_canonical, lemma_element_round_trip,
    lemma_scalar_decoding_is_canonical, lemma_scalar_round_trip, Ciphersuite, Element, Field,
    FieldOf, Group, GroupOf, Scalar,
};
use crate::error::SignatureError;
use vstd::prelude::*;

verus! {

/// A Schnorr signature: the commitment `R` and the response `z`.
///
/// Any pair is a signature; whether it is a valid one is for
/// [`VerifyingKey::verify`](crate::verifying_key::VerifyingKey::verify) to
/// say.
#[allow(non_snake_case)]
pub struct Signature<C: Ciphersuite> {
    /// The commitment to the nonce.
    pub R: Element<C>,
    /// The response to the challenge.
    pub z: Scalar<C>,
}

/// The encoding of the signature with commitment index `sig.0` and response
/// `sig.1`: the encoding of the commitment followed by that of the response.
pub open spec fn encode_signature<C: Ciphersuite>(sig: (nat, nat)) -> Seq<u8> {
    GroupOf::<C>::encoding(sig.0) + FieldOf::<C>::encoding(sig.1)
}

/// The signature that `bytes` encode, if they encode one: the first bytes,
/// as many as encode a group element, must decode to the commitment and all
/// the others to the response.
pub open spec fn decode_signature<C: Ciphersuite>(bytes: Seq<u8>) -> Option<(nat, nat)> {
    let n = GroupOf::<C>::encoded_len() as int;
    if bytes.len() < n {
        None
    } else {
        match (
            decode_element::<GroupOf<C>>(bytes.subrange(0, n)),
            decode_scalar::<FieldOf<C>>(bytes.subrange(n, bytes.len() as int)),
        ) {
            (Some(r), Some(z)) => Some((r, z)),
            _ => None,
        }
    }
}

impl<C: Ciphersuite> Signature<C> {
    /// The index of the commitment and the residue of the response.
    pub open spec fn view(self) -> (nat, nat) {
        (GroupOf::<C>::index(self.R), FieldOf::<C>::value(self.z))
    }

    /// The encoding of the signature: that of `R` followed by that of `z`.
    pub fn to_bytes(&self) -> (bytes: Vec<u8>)
        ensures
            bytes@ == encode_signature::<C>(self@),
    {
        let mut bytes = <GroupOf<C>>::serialize(&self.R);
        let mut response = <FieldOf<C>>::serialize(&self.z);
        bytes.append(&mut response);
        bytes
    }

    /// The signature that `bytes` encode. Fails unless `bytes` are the
    /// encoding of a group element followed by that of a scalar.
    pub fn from_bytes(bytes: &[u8]) -> (r: Result<Signature<C>, SignatureError>)
        ensures
            match r {
                Ok(sig) => decode_signature::<C>(bytes@) == Some(sig@),
                Err(e) => e == SignatureError::DeserializeError && decode_signature::<C>(bytes@)
                    is None,
            },
    {
        let n = <GroupOf<C>>::encoded_size();
        if bytes.len() < n {
            return Err(SignatureError::DeserializeError);
        }
        let (head, tail) = bytes.split_at(n);
        proof {
            lemma_element_decoding_is_canonical::<GroupOf<C>>(head@);
            lemma_scalar_decoding_is_canonical::<FieldOf<C>>(tail@);
        }
        match <GroupOf<C>>::deserialize(head) {
            Err(_) => Err(SignatureError::DeserializeError),
            Ok(commitment) => match <FieldOf<C>>::deserialize(tail) {
                Err(_) => Err(SignatureError::DeserializeError),
                Ok(response) => {
                    proof {
                        GroupOf::<C>::lemma_index_in_range(commitment);
                        FieldOf::<C>::lemma_value_in_range(response);
                        lemma_element_round_trip::<GroupOf<C>>(GroupOf::<C>::index(commitment));
                        lemma_scalar_round_trip::<FieldOf<C>>(FieldOf::<C>::value(response));
                    }
                    Ok(Signature { R: commitment, z: response })
                },
            },
        }
    }
}

impl<C: Ciphersuite> Clone for Signature<C> {
    fn clone(&self) -> (signature: Self)
        ensures
            signature@ == self@,
    {
        Signature { R: self.R, z: self.z }
    }
}

impl<C: Ciphersuite> Copy for Signature<C> {

}

/// Decoding the encoding of a signature gives that signature back.
pub proof fn lemma_signature_round_trip<C: Ciphersuite>(sig: (nat, nat))
    requires
        sig.0 < FieldOf::<C>::order(),
        sig.1 < FieldOf::<C>::order(),
    ensures
        decode_signature::<C>(encode_signature::<C>(sig)) == Some(sig),
{
    let head = GroupOf::<C>::encoding(sig.0);
    let tail = FieldOf::<C>::encoding(sig.1);
    let bytes = encode_signature::<C>(sig);
    GroupOf::<C>::lemma_encoding_len(sig.0);
    assert(bytes.subrange(0, head.len() as int) == head);
    assert(bytes.subrange(head.len() as int, bytes.len() as int) == tail);
    lemma_element_round_trip::<GroupOf<C>>(sig.0);
    lemma_scalar_round_trip::<FieldOf<C>>(sig.1);
}

} // verus!
