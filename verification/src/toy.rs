//! A ciphersuite over a group of seven elements, for examples and
//! known-answer tests. It is far too small to give any security.
//!
//! The group is the subgroup of order 7 of the nonzero integers modulo 43
//! under multiplication. It is generated by 4, whose powers are 4, 16, 21,
//! 41, 35, 11 and 1. The scalars are the integers modulo 7. A scalar and a
//! group element are each encoded in one byte, which holds the residue.

use crate::algebra::{le_value, Ciphersuite, Field, Group};
use crate::error::SignatureError;
use vstd::arithmetic::div_mod::{
    lemma_add_mod_noop, lemma_add_mod_noop_right, lemma_mul_mod_noop_right,
};
use vstd::prelude::*;

verus! {

/// The order of the group and of its scalar field.
pub const ORDER: u8 = 7;

/// The modulus of the integers in which the group lives.
pub const MODULUS: u8 = 43;

/// The residue of the generator.
pub const GENERATOR: u8 = 4;

/// Whether `residue` is one of the seven elements of the group.
pub open spec fn in_group(residue: u8) -> bool {
    residue == 1 || residue == 4 || residue == 16 || residue == 21 || residue == 41 || residue
        == 35 || residue == 11
}

/// The exponent below 7 to which the generator must be raised to give
/// `residue`, for a residue in the group.
pub open spec fn discrete_log(residue: u8) -> nat {
    if residue == 4 {
        1
    } else if residue == 16 {
        2
    } else if residue == 21 {
        3
    } else if residue == 41 {
        4
    } else if residue == 35 {
        5
    } else if residue == 11 {
        6
    } else {
        0
    }
}

/// The generator raised to the power `i`, for `i` below 7.
pub open spec fn generator_power(i: nat) -> u8 {
    if i == 1 {
        4
    } else if i == 2 {
        16
    } else if i == 3 {
        21
    } else if i == 4 {
        41
    } else if i == 5 {
        35
    } else if i == 6 {
        11
    } else {
        1
    }
}

/// An integer modulo 7.
#[derive(Clone, Copy, Debug)]
pub struct ToyScalar {
    residue: u8,
}

/// An element of the group of order 7.
#[derive(Clone, Copy, Debug)]
pub struct ToyElement {
    residue: u8,
}

impl ToyScalar {
    #[verifier::type_invariant]
    spec fn is_reduced(self) -> bool {
        self.residue < ORDER
    }
}

impl ToyElement {
    #[verifier::type_invariant]
    spec fn is_member(self) -> bool {
        in_group(self.residue)
    }
}

/// The integers modulo 7.
pub struct ToyField;

/// The subgroup of order 7 of the nonzero integers modulo 43.
pub struct ToyGroup;

/// The toy group with the tag `Schnorr_ToyGroup`.
pub struct ToySuite;

/// The product of two elements of the group is in the group, and its
/// discrete logarithm is the sum of theirs modulo 7.
proof fn lemma_product(a: u8, b: u8)
    requires
        in_group(a),
        in_group(b),
    ensures
        (a * b) % 43 < 256,
        in_group(((a * b) % 43) as u8),
        discrete_log(((a * b) % 43) as u8) == (discrete_log(a) + discrete_log(b)) % 7,
{
    if a == 1 {
        assert(a * b == 1 * b);
    } else if a == 4 {
        assert(a * b == 4 * b);
    } else if a == 16 {
        assert(a * b == 16 * b);
    } else if a == 21 {
        assert(a * b == 21 * b);
    } else if a == 41 {
        assert(a * b == 41 * b);
    } else if a == 35 {
        assert(a * b == 35 * b);
    } else {
        assert(a * b == 11 * b);
    }
}

/// The little-endian value of the bytes of `bytes` from `i` on is that of
/// the bytes after the `i`-th, shifted by one byte, plus the `i`-th.
proof fn lemma_le_value_step(bytes: Seq<u8>, i: int)
    requires
        0 <= i < bytes.len(),
    ensures
        le_value(bytes.subrange(i, bytes.len() as int)) == bytes[i] as nat + 256 * le_value(
            bytes.subrange(i + 1, bytes.len() as int),
        ),
{
    let tail = bytes.subrange(i, bytes.len() as int);
    assert(tail.drop_first() == bytes.subrange(i + 1, bytes.len() as int));
}

impl Field for ToyField {
    type Scalar = ToyScalar;

    open spec fn order() -> nat {
        7
    }

    closed spec fn value(s: ToyScalar) -> nat {
        (s.residue % ORDER) as nat
    }

    open spec fn encoded_len() -> nat {
        1
    }

    open spec fn encoding(v: nat) -> Seq<u8> {
        seq![v as u8]
    }

    proof fn lemma_order_is_prime() {
        assert forall|d: nat| 1 < d < 7 implies #[trigger] (7nat % d) != 0 by {
            if d == 2 {
            } else if d == 3 {
            } else if d == 4 {
            } else if d == 5 {
            } else {
                assert(d == 6);
            }
        }
    }

    proof fn lemma_value_in_range(s: ToyScalar) {
    }

    proof fn lemma_encoding_len(v: nat) {
    }

    proof fn lemma_encoding_injective(a: nat, b: nat) {
        assert(Self::encoding(a)[0] == a as u8);
        assert(Self::encoding(b)[0] == b as u8);
    }

    fn zero() -> (s: ToyScalar) {
        ToyScalar { residue: 0 }
    }

    fn add(a: &ToyScalar, b: &ToyScalar) -> (s: ToyScalar) {
        proof {
            use_type_invariant(a);
            use_type_invariant(b);
        }
        ToyScalar { residue: (a.residue + b.residue) % ORDER }
    }

    fn mul(a: &ToyScalar, b: &ToyScalar) -> (s: ToyScalar) {
        proof {
            use_type_invariant(a);
            use_type_invariant(b);
            assert(a.residue * b.residue <= 36) by (nonlinear_arith)
                requires
                    a.residue < 7,
                    b.residue < 7,
            ;
        }
        ToyScalar { residue: (a.residue * b.residue) % ORDER }
    }

    fn equal(a: &ToyScalar, b: &ToyScalar) -> (same: bool) {
        proof {
            use_type_invariant(a);
            use_type_invariant(b);
        }
        a.residue == b.residue
    }

    fn from_bytes_wide(bytes: &[u8; 64]) -> (s: ToyScalar) {
        let mut acc: u32 = 0;
        let mut i: usize = 64;
        assert(bytes@.subrange(64, 64).len() == 0);
        while i > 0
            invariant
                i <= 64,
                acc < 7,
                acc == le_value(bytes@.subrange(i as int, 64)) % 7,
            decreases i,
        {
            i = i - 1;
            proof {
                let rest = le_value(bytes@.subrange(i + 1, 64)) as int;
                let byte = bytes@[i as int] as int;
                lemma_le_value_step(bytes@, i as int);
                lemma_mul_mod_noop_right(256, rest, 7);
                lemma_add_mod_noop_right(byte, 256 * rest, 7);
                lemma_add_mod_noop_right(byte, 256 * (rest % 7), 7);
            }
            acc = (acc * 256 + bytes[i] as u32) % 7;
        }
        assert(bytes@.subrange(0, 64) == bytes@);
        ToyScalar { residue: acc as u8 }
    }

    fn encoded_size() -> (n: usize) {
        1
    }

    fn serialize(s: &ToyScalar) -> (bytes: Vec<u8>) {
        proof {
            use_type_invariant(s);
        }
        let mut bytes = Vec::new();
        bytes.push(s.residue);
        assert(bytes@ == seq![s.residue]);
        bytes
    }

    fn deserialize(bytes: &[u8]) -> (r: Result<ToyScalar, SignatureError>)
        ensures
            r is Ok <==> bytes@.len() == 1 && bytes@[0] < ORDER,
    {
        if bytes.len() == 1 && bytes[0] < ORDER {
            assert(bytes@ == seq![bytes@[0]]);
            Ok(ToyScalar { residue: bytes[0] })
        } else {
            assert forall|v: nat| v < 7 implies #[trigger] Self::encoding(v) != bytes@ by {
                assert(Self::encoding(v).len() == 1);
                assert(Self::encoding(v)[0] == v);
            }
            Err(SignatureError::DeserializeError)
        }
    }
}

impl Group for ToyGroup {
    type Field = ToyField;

    type Element = ToyElement;

    closed spec fn index(e: ToyElement) -> nat {
        discrete_log(e.residue)
    }

    open spec fn encoded_len() -> nat {
        1
    }

    open spec fn encoding(i: nat) -> Seq<u8> {
        seq![generator_power(i)]
    }

    proof fn lemma_index_in_range(e: ToyElement) {
    }

    proof fn lemma_encoding_len(i: nat) {
    }

    proof fn lemma_encoding_injective(i: nat, j: nat) {
        assert(Self::encoding(i)[0] == generator_power(i));
        assert(Self::encoding(j)[0] == generator_power(j));
    }

    fn generator() -> (g: ToyElement) {
        ToyElement { residue: GENERATOR }
    }

    fn identity() -> (e: ToyElement) {
        ToyElement { residue: 1 }
    }

    fn add(a: &ToyElement, b: &ToyElement) -> (e: ToyElement) {
        proof {
            use_type_invariant(a);
            use_type_invariant(b);
            lemma_product(a.residue, b.residue);
        }
        let product: u16 = (a.residue as u16 * b.residue as u16) % (MODULUS as u16);
        ToyElement { residue: product as u8 }
    }

    fn scalar_mul(e: &ToyElement, s: &ToyScalar) -> (r: ToyElement) {
        proof {
            use_type_invariant(e);
            use_type_invariant(s);
        }
        let ghost d = discrete_log(e.residue);
        let mut acc: u8 = 1;
        let mut i: u8 = 0;
        while i < s.residue
            invariant
                i <= s.residue < 7,
                in_group(e.residue),
                in_group(acc),
                d == discrete_log(e.residue),
                discrete_log(acc) == (i * d) % 7,
            decreases s.residue - i,
        {
            proof {
                lemma_product(acc, e.residue);
                lemma_add_mod_noop((i * d) as int, d as int, 7);
                assert((i + 1) * d == i * d + d) by (nonlinear_arith);
            }
            acc = ((acc as u16 * e.residue as u16) % (MODULUS as u16)) as u8;
            i = i + 1;
        }
        proof {
            assert(d * s.residue == s.residue * d) by (nonlinear_arith);
        }
        ToyElement { residue: acc }
    }

    fn equal(a: &ToyElement, b: &ToyElement) -> (same: bool) {
        proof {
            use_type_invariant(a);
            use_type_invariant(b);
        }
        a.residue == b.residue
    }

    fn encoded_size() -> (n: usize) {
        1
    }

    fn serialize(e: &ToyElement) -> (bytes: Vec<u8>) {
        proof {
            use_type_invariant(e);
        }
        let mut bytes = Vec::new();
        bytes.push(e.residue);
        assert(bytes@ == seq![e.residue]);
        bytes
    }

    fn deserialize(bytes: &[u8]) -> (r: Result<ToyElement, SignatureError>)
        ensures
            r is Ok <==> bytes@.len() == 1 && in_group(bytes@[0]),
    {
        if bytes.len() == 1 && is_member(bytes[0]) {
            assert(bytes@ == seq![bytes@[0]]);
            Ok(ToyElement { residue: bytes[0] })
        } else {
            assert forall|i: nat| i < 7 implies #[trigger] Self::encoding(i) != bytes@ by {
                assert(Self::encoding(i).len() == 1);
                assert(Self::encoding(i)[0] == generator_power(i));
            }
            Err(SignatureError::DeserializeError)
        }
    }
}

/// Whether `residue` is one of the seven elements of the group.
fn is_member(residue: u8) -> (member: bool)
    ensures
        member == in_group(residue),
{
    residue == 1 || residue == 4 || residue == 16 || residue == 21 || residue == 41 || residue
        == 35 || residue == 11
}

impl Ciphersuite for ToySuite {
    type Group = ToyGroup;

    open spec fn tag() -> Seq<u8> {
        seq![
            0x53u8, 0x63, 0x68, 0x6e, 0x6f, 0x72, 0x72, 0x5f,
            0x54, 0x6f, 0x79, 0x47, 0x72, 0x6f, 0x75, 0x70,
        ]
    }

    fn domain_tag() -> (tag: [u8; 16]) {
        let tag: [u8; 16] = [
            0x53, 0x63, 0x68, 0x6e, 0x6f, 0x72, 0x72, 0x5f,
            0x54, 0x6f, 0x79, 0x47, 0x72, 0x6f, 0x75, 0x70,
        ];
        assert(tag@ == Self::tag());
        tag
    }
}

} // verus!
