//! Schnorr signature signing keys

use crate::algebra::{
    add_mod, decode_scalar, generator_mul, lemma_generator_mul,
    lemma_scalar_decoding_is_canonical, lemma_scalar_round_trip, mul_mod, Ciphersuite, Field,
    FieldOf, Group, GroupOf, Scalar,
};
use crate::challenge::{challenge, spec_challenge};
use crate::entropy::random_nonzero;
use crate::error::SignatureError;
use crate::signature::Signature;
use crate::verifying_key::{spec_verify, VerifyingKey};
use rand_core::{CryptoRng, RngCore};
use vstd::arithmetic::mul::lemma_mul_is_commutative;
use vstd::prelude::*;

verus! {

/// A signing key for a Schnorr signature on a [`Ciphersuite::Group`].
///
/// The scalar of a signing key is never zero.
pub struct SigningKey<C: Ciphersuite> {
    pub(crate) scalar: Scalar<C>,
}

/// The signing key that `bytes` encode, if they encode one: the scalar that
/// they decode to, unless it is zero.
pub open spec fn decode_signing_key<C: Ciphersuite>(bytes: Seq<u8>) -> Option<nat> {
    match decode_scalar::<FieldOf<C>>(bytes) {
        Some(x) => if x == 0 {
            None
        } else {
            Some(x)
        },
        None => None,
    }
}

/// The signature that the signing key `x` makes on `msg` with the nonce `k`:
/// the commitment is `k` times the generator and the response is `k + c * x`,
/// where `c` is the challenge for the commitment, the verifying key of `x`
/// and the message.
pub open spec fn spec_sign<C: Ciphersuite>(x: nat, k: nat, msg: Seq<u8>) -> (nat, nat) {
    let q = FieldOf::<C>::order();
    let r = generator_mul::<GroupOf<C>>(k);
    let c = spec_challenge::<C>(r, generator_mul::<GroupOf<C>>(x), msg);
    (r, add_mod(k, mul_mod(c, x, q), q))
}

impl<C: Ciphersuite> SigningKey<C> {
    #[verifier::type_invariant]
    spec fn is_nonzero(self) -> bool {
        FieldOf::<C>::value(self.scalar) != 0
    }

    /// The residue of the key's scalar.
    pub closed spec fn view(self) -> nat {
        FieldOf::<C>::value(self.scalar)
    }

    /// Generate a new signing key.
    ///
    /// The scalar is drawn by [`random_nonzero`]: what follows from each draw
    /// of the generator is decided by
    /// [`after_draw`](crate::entropy::after_draw).
    pub fn new<R: RngCore + CryptoRng>(mut rng: R) -> (r: Result<SigningKey<C>, SignatureError>)
        ensures
            match r {
                Ok(key) => 0 < key@ < FieldOf::<C>::order(),
                Err(e) => e == SignatureError::RngFailure,
            },
    {
        match random_nonzero::<C, R>(&mut rng) {
            Ok(scalar) => Ok(SigningKey { scalar }),
            Err(e) => Err(e),
        }
    }

    /// The signing key with the scalar `scalar`, unless `scalar` is zero.
    pub fn from_scalar(scalar: Scalar<C>) -> (r: Option<SigningKey<C>>)
        ensures
            match r {
                Some(key) => key@ == FieldOf::<C>::value(scalar) && key@ != 0,
                None => FieldOf::<C>::value(scalar) == 0,
            },
    {
        if <FieldOf<C>>::equal(&scalar, &<FieldOf<C>>::zero()) {
            None
        } else {
            Some(SigningKey { scalar })
        }
    }

    /// The scalar of the key.
    pub fn to_scalar(&self) -> (scalar: Scalar<C>)
        ensures
            FieldOf::<C>::value(scalar) == self@,
            self@ != 0,
    {
        proof {
            use_type_invariant(self);
        }
        self.scalar
    }

    /// Deserialize from bytes
    pub fn from_bytes(bytes: &[u8]) -> (r: Result<SigningKey<C>, SignatureError>)
        ensures
            match r {
                Ok(key) => decode_signing_key::<C>(bytes@) == Some(key@),
                Err(e) => e == SignatureError::DeserializeError && decode_signing_key::<C>(bytes@)
                    is None,
            },
    {
        proof {
            lemma_scalar_decoding_is_canonical::<FieldOf<C>>(bytes@);
        }
        match <FieldOf<C>>::deserialize(bytes) {
            Err(_) => Err(SignatureError::DeserializeError),
            Ok(scalar) => {
                proof {
                    FieldOf::<C>::lemma_value_in_range(scalar);
                    lemma_scalar_round_trip::<FieldOf<C>>(FieldOf::<C>::value(scalar));
                }
                match Self::from_scalar(scalar) {
                    Some(key) => Ok(key),
                    None => Err(SignatureError::DeserializeError),
                }
            },
        }
    }

    /// Serialize `SigningKey` to bytes
    pub fn to_bytes(&self) -> (bytes: Vec<u8>)
        ensures
            bytes@ == FieldOf::<C>::encoding(self@),
    {
        <FieldOf<C>>::serialize(&self.scalar)
    }

    /// Create a signature `msg` using this `SigningKey`.
    ///
    /// The nonce is drawn by [`random_nonzero`], and the signature is made
    /// from it by [`SigningKey::sign_with_nonce`].
    pub fn sign<R: RngCore + CryptoRng>(&self, mut rng: R, msg: &[u8]) -> (r: Result<
        Signature<C>,
        SignatureError,
    >)
        ensures
            match r {
                Ok(signature) => exists|k: nat|
                    0 < k < FieldOf::<C>::order() && signature@ == #[trigger] spec_sign::<C>(
                        self@,
                        k,
                        msg@,
                    ),
                Err(e) => e == SignatureError::RngFailure,
            },
    {
        match random_nonzero::<C, R>(&mut rng) {
            Ok(k) => Ok(self.sign_with_nonce(&k, msg)),
            Err(e) => Err(e),
        }
    }

    /// Create a signature `msg` using this `SigningKey` and the nonce `k`.
    ///
    /// This is the deterministic part of [`SigningKey::sign`]. A nonce must
    /// be drawn afresh for every signature and never be told to anyone: two
    /// signatures with one nonce give the key away.
    #[allow(non_snake_case)]
    pub fn sign_with_nonce(&self, k: &Scalar<C>, msg: &[u8]) -> (signature: Signature<C>)
        ensures
            signature@ == spec_sign::<C>(self@, FieldOf::<C>::value(*k), msg@),
    {
        let R = <GroupOf<C>>::scalar_mul(&<GroupOf<C>>::generator(), k);

        // Generate Schnorr challenge
        let c = challenge::<C>(&R, &VerifyingKey::<C>::from(self).to_element(), msg);

        let z = <FieldOf<C>>::add(k, &<FieldOf<C>>::mul(&c, &self.scalar));

        Signature { R, z }
    }
}

impl<C: Ciphersuite> From<&SigningKey<C>> for VerifyingKey<C> {
    /// The verifying key of a signing key: its scalar times the generator.
    fn from(signing_key: &SigningKey<C>) -> (key: Self)
        ensures
            key@ == generator_mul::<GroupOf<C>>(signing_key@),
    {
        VerifyingKey::new(
            <GroupOf<C>>::scalar_mul(&<GroupOf<C>>::generator(), &signing_key.scalar),
        )
    }
}

impl<C: Ciphersuite> vstd::std_specs::convert::FromSpecImpl<&SigningKey<C>> for VerifyingKey<C> {
    /// No function of the signing key alone gives the element of its verifying
    /// key, only the element's index; what `from` returns is stated by its
    /// own `ensures`.
    open spec fn obeys_from_spec() -> bool {
        false
    }

    open spec fn from_spec(signing_key: &SigningKey<C>) -> Self {
        arbitrary()
    }
}

impl<C: Ciphersuite> From<SigningKey<C>> for VerifyingKey<C> {
    /// The verifying key of a signing key: its scalar times the generator.
    fn from(signing_key: SigningKey<C>) -> (key: Self)
        ensures
            key@ == generator_mul::<GroupOf<C>>(signing_key@),
    {
        VerifyingKey::<C>::from(&signing_key)
    }
}

impl<C: Ciphersuite> vstd::std_specs::convert::FromSpecImpl<SigningKey<C>> for VerifyingKey<C> {
    /// No function of the signing key alone gives the element of its verifying
    /// key, only the element's index; what `from` returns is stated by its
    /// own `ensures`.
    open spec fn obeys_from_spec() -> bool {
        false
    }

    open spec fn from_spec(signing_key: SigningKey<C>) -> Self {
        arbitrary()
    }
}

/// Every signature that a signing key makes is valid under its verifying
/// key, whatever the nonce and the message.
pub proof fn lemma_sign_then_verify<C: Ciphersuite>(x: nat, k: nat, msg: Seq<u8>)
    requires
        x < FieldOf::<C>::order(),
        k < FieldOf::<C>::order(),
    ensures
        spec_verify::<C>(generator_mul::<GroupOf<C>>(x), msg, spec_sign::<C>(x, k, msg)),
{
    let q = FieldOf::<C>::order();
    let p = generator_mul::<GroupOf<C>>(x);
    let signature = spec_sign::<C>(x, k, msg);
    let c = spec_challenge::<C>(signature.0, p, msg);
    lemma_generator_mul::<GroupOf<C>>(x);
    lemma_generator_mul::<GroupOf<C>>(k);
    lemma_generator_mul::<GroupOf<C>>(signature.1);
    lemma_mul_is_commutative(c as int, x as int);
}

} // verus!
