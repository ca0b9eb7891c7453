use schnorr_core::toy::{ToyField, ToyGroup};
use schnorr_core::{Field, Group, SignatureError};

const POWERS: [u8; 7] = [1, 4, 16, 21, 41, 35, 11];

fn scalar(residue: u8) -> <ToyField as Field>::Scalar {
    ToyField::deserialize(&[residue]).unwrap()
}

fn element(residue: u8) -> <ToyGroup as Group>::Element {
    ToyGroup::deserialize(&[residue]).unwrap()
}

fn wide(low: &[u8]) -> [u8; 64] {
    let mut bytes = [0u8; 64];
    bytes[..low.len()].copy_from_slice(low);
    bytes
}

#[test]
fn scalars_survive_a_round_trip() {
    for residue in 0u8..7 {
        let s = ToyField::deserialize(&[residue]).unwrap();
        assert_eq!(ToyField::serialize(&s), vec![residue]);
    }
}

#[test]
fn elements_survive_a_round_trip() {
    for residue in POWERS {
        let e = ToyGroup::deserialize(&[residue]).unwrap();
        assert_eq!(ToyGroup::serialize(&e), vec![residue]);
    }
}

#[test]
fn scalars_at_or_above_the_order_are_rejected() {
    for residue in 7u8..=255 {
        assert_eq!(
            ToyField::deserialize(&[residue]).err(),
            Some(SignatureError::DeserializeError)
        );
    }
}

#[test]
fn scalars_of_the_wrong_length_are_rejected() {
    assert_eq!(ToyField::deserialize(&[]).err(), Some(SignatureError::DeserializeError));
    assert_eq!(ToyField::deserialize(&[1, 0]).err(), Some(SignatureError::DeserializeError));
    assert_eq!(ToyField::deserialize(&[0, 1]).err(), Some(SignatureError::DeserializeError));
}

#[test]
fn residues_outside_the_group_are_rejected() {
    for residue in 0u8..=255 {
        let decoded = ToyGroup::deserialize(&[residue]);
        if POWERS.contains(&residue) {
            assert!(decoded.is_ok());
        } else {
            assert_eq!(decoded.err(), Some(SignatureError::DeserializeError));
        }
    }
}

#[test]
fn elements_of_the_wrong_length_are_rejected() {
    assert_eq!(ToyGroup::deserialize(&[]).err(), Some(SignatureError::DeserializeError));
    assert_eq!(ToyGroup::deserialize(&[4, 4]).err(), Some(SignatureError::DeserializeError));
}

#[test]
fn encodings_are_one_byte_long() {
    assert_eq!(ToyField::encoded_size(), 1);
    assert_eq!(ToyGroup::encoded_size(), 1);
}

#[test]
fn zero_is_the_additive_identity() {
    assert_eq!(ToyField::serialize(&ToyField::zero()), vec![0]);
    for a in 0u8..7 {
        assert_eq!(ToyField::serialize(&ToyField::add(&scalar(a), &ToyField::zero())), vec![a]);
    }
}

#[test]
fn field_addition_is_modulo_seven() {
    for a in 0u8..7 {
        for b in 0u8..7 {
            let sum = ToyField::add(&scalar(a), &scalar(b));
            assert_eq!(ToyField::serialize(&sum), vec![(a + b) % 7]);
        }
    }
    assert_eq!(ToyField::serialize(&ToyField::add(&scalar(5), &scalar(4))), vec![2]);
}

#[test]
fn field_multiplication_is_modulo_seven() {
    for a in 0u8..7 {
        for b in 0u8..7 {
            let product = ToyField::mul(&scalar(a), &scalar(b));
            assert_eq!(ToyField::serialize(&product), vec![(a * b) % 7]);
        }
    }
    assert_eq!(ToyField::serialize(&ToyField::mul(&scalar(6), &scalar(3))), vec![4]);
}

#[test]
fn field_equality() {
    for a in 0u8..7 {
        for b in 0u8..7 {
            assert_eq!(ToyField::equal(&scalar(a), &scalar(b)), a == b);
        }
    }
}

#[test]
fn wide_reduction_known_answers() {
    assert_eq!(ToyField::serialize(&ToyField::from_bytes_wide(&[0u8; 64])), vec![0]);
    assert_eq!(ToyField::serialize(&ToyField::from_bytes_wide(&wide(&[3]))), vec![3]);
    assert_eq!(ToyField::serialize(&ToyField::from_bytes_wide(&wide(&[7]))), vec![0]);
    // 256 = 36 * 7 + 4
    assert_eq!(ToyField::serialize(&ToyField::from_bytes_wide(&wide(&[0, 1]))), vec![4]);
    // 2^504 = (2^3)^168 = 1 modulo 7
    let mut top = [0u8; 64];
    top[63] = 1;
    assert_eq!(ToyField::serialize(&ToyField::from_bytes_wide(&top)), vec![1]);
    // 2^512 - 1 = 4 - 1 modulo 7
    assert_eq!(ToyField::serialize(&ToyField::from_bytes_wide(&[0xff; 64])), vec![3]);
    let mut counting = [0u8; 64];
    for (i, byte) in counting.iter_mut().enumerate() {
        *byte = i as u8;
    }
    assert_eq!(ToyField::serialize(&ToyField::from_bytes_wide(&counting)), vec![0]);
}

#[test]
fn group_constants() {
    assert_eq!(ToyGroup::serialize(&ToyGroup::generator()), vec![4]);
    assert_eq!(ToyGroup::serialize(&ToyGroup::identity()), vec![1]);
}

#[test]
fn multiples_of_the_generator() {
    for k in 0u8..7 {
        let multiple = ToyGroup::scalar_mul(&ToyGroup::generator(), &scalar(k));
        assert_eq!(ToyGroup::serialize(&multiple), vec![POWERS[usize::from(k)]]);
    }
}

#[test]
fn scalar_multiplication_multiplies_indices() {
    for i in 0usize..7 {
        for s in 0usize..7 {
            let multiple = ToyGroup::scalar_mul(&element(POWERS[i]), &scalar(s as u8));
            assert_eq!(ToyGroup::serialize(&multiple), vec![POWERS[(i * s) % 7]]);
        }
    }
    // 3 times the element of index 5 has index 15 - 14 = 1
    assert_eq!(ToyGroup::serialize(&ToyGroup::scalar_mul(&element(35), &scalar(3))), vec![4]);
}

#[test]
fn the_group_law_adds_indices() {
    for i in 0usize..7 {
        for j in 0usize..7 {
            let sum = ToyGroup::add(&element(POWERS[i]), &element(POWERS[j]));
            assert_eq!(ToyGroup::serialize(&sum), vec![POWERS[(i + j) % 7]]);
        }
    }
    // 16 * 35 = 560 = 13 * 43 + 1
    assert_eq!(ToyGroup::serialize(&ToyGroup::add(&element(16), &element(35))), vec![1]);
}

#[test]
fn the_identity_is_neutral() {
    for residue in POWERS {
        let sum = ToyGroup::add(&element(residue), &ToyGroup::identity());
        assert_eq!(ToyGroup::serialize(&sum), vec![residue]);
    }
}

#[test]
fn group_equality() {
    for a in POWERS {
        for b in POWERS {
            assert_eq!(ToyGroup::equal(&element(a), &element(b)), a == b);
        }
    }
}
