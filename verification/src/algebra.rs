//! The scalar field and the prime-order group that the scheme is built on.
//!
//! Nothing here fixes a curve. A [`Ciphersuite`] names a [`Group`], the group
//! names its scalar [`Field`], and every other module is generic over that
//! choice.
//!
//! # The model
//!
//! A scalar stands for a residue in `0..q`, where `q` is the order of the
//! field; [`Field::value`] gives that residue. The group is cyclic of the same
//! order `q`, so each element is `i` times the generator for exactly one `i`
//! in `0..q`; [`Group::index`] gives that `i`. The index is a mathematical
//! fiction (computing it is the discrete logarithm problem) and exists only
//! in contracts. In this model the group law is addition of indices modulo
//! `q`, and multiplying an element by a scalar multiplies its index by the
//! scalar's residue modulo `q`.
//!
//! The methods of the traits in this module are contracts that an
//! implementation has to meet. The crate's own code is proved against the
//! contracts alone, so what is proved of it holds for an implementation
//! exactly as far as that implementation keeps them.

use crate::error::SignatureError;
use vstd::arithmetic::div_mod::lemma_small_mod;
use vstd::prelude::*;

verus! {

/// Number of bytes that are reduced to a scalar by [`Field::from_bytes_wide`].
pub const WIDE_BYTES: usize = 64;

/// Sum of two residues modulo `q`.
pub open spec fn add_mod(a: nat, b: nat, q: nat) -> nat {
    (a + b) % q
}

/// Product of two residues modulo `q`.
pub open spec fn mul_mod(a: nat, b: nat, q: nat) -> nat {
    (a * b) % q
}

/// Whether `n` is a prime number.
pub open spec fn is_prime(n: nat) -> bool {
    n >= 2 && forall|d: nat| 1 < d < n ==> #[trigger] (n % d) != 0
}

/// The natural number that `bytes` spell in little-endian order.
pub open spec fn le_value(bytes: Seq<u8>) -> nat
    decreases bytes.len(),
{
    if bytes.len() == 0 {
        0
    } else {
        bytes[0] as nat + 256 * le_value(bytes.drop_first())
    }
}

/// A finite field of prime order, the scalars of a [`Group`].
pub trait Field: Sized {
    /// An element of the field.
    type Scalar: Copy;

    /// The number of elements of the field.
    spec fn order() -> nat;

    /// The residue in `0..order()` that `s` stands for.
    spec fn value(s: Self::Scalar) -> nat;

    /// The length in bytes of every canonical encoding.
    spec fn encoded_len() -> nat;

    /// The canonical encoding of the residue `v`, for `v` in `0..order()`.
    spec fn encoding(v: nat) -> Seq<u8>;

    /// The order is prime.
    proof fn lemma_order_is_prime()
        ensures
            is_prime(Self::order()),
    ;

    /// Every scalar stands for a residue below the order.
    proof fn lemma_value_in_range(s: Self::Scalar)
        ensures
            Self::value(s) < Self::order(),
    ;

    /// Encodings have the fixed length, and a wide reduction consumes at
    /// least twice as many bytes as an encoding holds.
    proof fn lemma_encoding_len(v: nat)
        requires
            v < Self::order(),
        ensures
            Self::encoding(v).len() == Self::encoded_len(),
            0 < Self::encoded_len(),
            2 * Self::encoded_len() <= WIDE_BYTES,
    ;

    /// Distinct residues have distinct encodings.
    proof fn lemma_encoding_injective(a: nat, b: nat)
        requires
            a < Self::order(),
            b < Self::order(),
            Self::encoding(a) == Self::encoding(b),
        ensures
            a == b,
    ;

    /// The additive identity.
    fn zero() -> (s: Self::Scalar)
        ensures
            Self::value(s) == 0,
    ;

    /// Field addition.
    fn add(a: &Self::Scalar, b: &Self::Scalar) -> (s: Self::Scalar)
        ensures
            Self::value(s) == add_mod(Self::value(*a), Self::value(*b), Self::order()),
    ;

    /// Field multiplication.
    fn mul(a: &Self::Scalar, b: &Self::Scalar) -> (s: Self::Scalar)
        ensures
            Self::value(s) == mul_mod(Self::value(*a), Self::value(*b), Self::order()),
    ;

    /// Whether two scalars stand for the same residue.
    fn equal(a: &Self::Scalar, b: &Self::Scalar) -> (same: bool)
        ensures
            same == (Self::value(*a) == Self::value(*b)),
    ;

    /// Reads `bytes` as a little-endian integer and reduces it modulo the
    /// order.
    fn from_bytes_wide(bytes: &[u8; 64]) -> (s: Self::Scalar)
        ensures
            Self::value(s) == le_value(bytes@) % Self::order(),
    ;

    /// The length in bytes of every canonical encoding.
    fn encoded_size() -> (n: usize)
        ensures
            n == Self::encoded_len(),
    ;

    /// The canonical encoding of `s`.
    fn serialize(s: &Self::Scalar) -> (bytes: Vec<u8>)
        ensures
            bytes@ == Self::encoding(Self::value(*s)),
    ;

    /// The scalar that `bytes` canonically encode. Fails on every other
    /// input.
    fn deserialize(bytes: &[u8]) -> (r: Result<Self::Scalar, SignatureError>)
        ensures
            match r {
                Ok(s) => Self::encoding(Self::value(s)) == bytes@,
                Err(e) => e == SignatureError::DeserializeError && forall|v: nat|
                    v < Self::order() ==> #[trigger] Self::encoding(v) != bytes@,
            },
    ;
}

/// A cyclic group of prime order with a fixed generator.
pub trait Group: Sized {
    /// The field of scalars; its order is the order of the group.
    type Field: Field;

    /// An element of the group.
    type Element: Copy;

    /// The `i` in `0..order` for which `e` is `i` times the generator.
    spec fn index(e: Self::Element) -> nat;

    /// The length in bytes of every canonical encoding.
    spec fn encoded_len() -> nat;

    /// The canonical encoding of the element of index `i`, for `i` below the
    /// order.
    spec fn encoding(i: nat) -> Seq<u8>;

    /// Every element has an index below the order.
    proof fn lemma_index_in_range(e: Self::Element)
        ensures
            Self::index(e) < <Self::Field as Field>::order(),
    ;

    /// Encodings have the fixed length.
    proof fn lemma_encoding_len(i: nat)
        requires
            i < <Self::Field as Field>::order(),
        ensures
            Self::encoding(i).len() == Self::encoded_len(),
    ;

    /// Distinct elements have distinct encodings.
    proof fn lemma_encoding_injective(i: nat, j: nat)
        requires
            i < <Self::Field as Field>::order(),
            j < <Self::Field as Field>::order(),
            Self::encoding(i) == Self::encoding(j),
        ensures
            i == j,
    ;

    /// The fixed generator.
    fn generator() -> (g: Self::Element)
        ensures
            Self::index(g) == 1,
    ;

    /// The neutral element.
    fn identity() -> (e: Self::Element)
        ensures
            Self::index(e) == 0,
    ;

    /// The group law.
    fn add(a: &Self::Element, b: &Self::Element) -> (e: Self::Element)
        ensures
            Self::index(e) == add_mod(
                Self::index(*a),
                Self::index(*b),
                <Self::Field as Field>::order(),
            ),
    ;

    /// `s` times `e`.
    fn scalar_mul(e: &Self::Element, s: &<Self::Field as Field>::Scalar) -> (r: Self::Element)
        ensures
            Self::index(r) == mul_mod(
                Self::index(*e),
                <Self::Field as Field>::value(*s),
                <Self::Field as Field>::order(),
            ),
    ;

    /// Whether two values are the same element of the group.
    fn equal(a: &Self::Element, b: &Self::Element) -> (same: bool)
        ensures
            same == (Self::index(*a) == Self::index(*b)),
    ;

    /// The length in bytes of every canonical encoding.
    fn encoded_size() -> (n: usize)
        ensures
            n == Self::encoded_len(),
    ;

    /// The canonical encoding of `e`.
    fn serialize(e: &Self::Element) -> (bytes: Vec<u8>)
        ensures
            bytes@ == Self::encoding(Self::index(*e)),
    ;

    /// The element that `bytes` canonically encode. Fails on every other
    /// input.
    fn deserialize(bytes: &[u8]) -> (r: Result<Self::Element, SignatureError>)
        ensures
            match r {
                Ok(e) => Self::encoding(Self::index(e)) == bytes@,
                Err(e) => e == SignatureError::DeserializeError && forall|i: nat|
                    i < <Self::Field as Field>::order() ==> #[trigger] Self::encoding(i) != bytes@,
            },
    ;
}

/// The parameters of one instance of the scheme: a group and the tag that
/// separates its hashes from those of every other protocol.
pub trait Ciphersuite: Sized {
    /// The group in which keys and commitments live.
    type Group: Group;

    /// The domain-separation tag.
    spec fn tag() -> Seq<u8>;

    /// The domain-separation tag.
    fn domain_tag() -> (tag: [u8; 16])
        ensures
            tag@ == Self::tag(),
    ;
}

/// The group of a ciphersuite.
pub type GroupOf<C> = <C as Ciphersuite>::Group;

/// The scalar field of a ciphersuite.
pub type FieldOf<C> = <<C as Ciphersuite>::Group as Group>::Field;

/// A scalar of a ciphersuite.
pub type Scalar<C> = <<<C as Ciphersuite>::Group as Group>::Field as Field>::Scalar;

/// A group element of a ciphersuite.
pub type Element<C> = <<C as Ciphersuite>::Group as Group>::Element;

/// The residue that `bytes` canonically encode, if they encode one.
pub open spec fn decode_scalar<F: Field>(bytes: Seq<u8>) -> Option<nat> {
    if exists|v: nat| v < F::order() && #[trigger] F::encoding(v) == bytes {
        Some(choose|v: nat| v < F::order() && #[trigger] F::encoding(v) == bytes)
    } else {
        None
    }
}

/// The index of the element that `bytes` canonically encode, if they encode
/// one.
pub open spec fn decode_element<G: Group>(bytes: Seq<u8>) -> Option<nat> {
    if exists|i: nat| i < G::Field::order() && #[trigger] G::encoding(i) == bytes {
        Some(choose|i: nat| i < G::Field::order() && #[trigger] G::encoding(i) == bytes)
    } else {
        None
    }
}

/// The index of `s` times the generator.
pub open spec fn generator_mul<G: Group>(s: nat) -> nat {
    mul_mod(1, s, G::Field::order())
}

/// Decoding the canonical encoding of a scalar gives that scalar back.
pub proof fn lemma_scalar_round_trip<F: Field>(v: nat)
    requires
        v < F::order(),
    ensures
        decode_scalar::<F>(F::encoding(v)) == Some(v),
{
    let bytes = F::encoding(v);
    assert(exists|w: nat| w < F::order() && #[trigger] F::encoding(w) == bytes);
    F::lemma_encoding_injective(decode_scalar::<F>(bytes).unwrap(), v);
}

/// Decoding the canonical encoding of a group element gives that element
/// back.
pub proof fn lemma_element_round_trip<G: Group>(i: nat)
    requires
        i < G::Field::order(),
    ensures
        decode_element::<G>(G::encoding(i)) == Some(i),
{
    let bytes = G::encoding(i);
    assert(exists|j: nat| j < G::Field::order() && #[trigger] G::encoding(j) == bytes);
    G::lemma_encoding_injective(decode_element::<G>(bytes).unwrap(), i);
}

/// Bytes decode to a scalar only if they are the canonical encoding of a
/// residue below the order; in particular they then have the fixed length.
pub proof fn lemma_scalar_decoding_is_canonical<F: Field>(bytes: Seq<u8>)
    ensures
        decode_scalar::<F>(bytes) matches Some(v) ==> v < F::order() && F::encoding(v) == bytes
            && bytes.len() == F::encoded_len(),
        (forall|v: nat| v < F::order() ==> #[trigger] F::encoding(v) != bytes) ==> decode_scalar::<
            F,
        >(bytes) is None,
{
    if let Some(v) = decode_scalar::<F>(bytes) {
        F::lemma_encoding_len(v);
    }
}

/// Bytes decode to a group element only if they are the canonical encoding
/// of an element of the group; in particular they then have the fixed length.
pub proof fn lemma_element_decoding_is_canonical<G: Group>(bytes: Seq<u8>)
    ensures
        decode_element::<G>(bytes) matches Some(i) ==> i < G::Field::order() && G::encoding(i)
            == bytes && bytes.len() == G::encoded_len(),
        (forall|i: nat| i < G::Field::order() ==> #[trigger] G::encoding(i) != bytes)
            ==> decode_element::<G>(bytes) is None,
{
    if let Some(i) = decode_element::<G>(bytes) {
        G::lemma_encoding_len(i);
    }
}

/// Multiplying the generator by a residue below the order gives the element
/// whose index is that residue.
pub proof fn lemma_generator_mul<G: Group>(s: nat)
    requires
        s < G::Field::order(),
    ensures
        generator_mul::<G>(s) == s,
{
    assert(1 * s == s);
    lemma_small_mod(s, G::Field::order());
}

} // verus!
