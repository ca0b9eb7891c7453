use schnorr_core::toy::{ToyField, ToyGroup, ToySuite};
use schnorr_core::{Field, Group, Signature, SignatureError, SigningKey, VerifyingKey};

const POWERS: [u8; 7] = [1, 4, 16, 21, 41, 35, 11];

#[test]
fn signing_key_round_trip() {
    for residue in 1u8..7 {
        let key = SigningKey::<ToySuite>::from_bytes(&[residue]).unwrap();
        assert_eq!(key.to_bytes(), vec![residue]);
        let again = SigningKey::<ToySuite>::from_bytes(&key.to_bytes()).unwrap();
        assert_eq!(again.to_bytes(), vec![residue]);
    }
}

#[test]
fn signing_key_is_never_zero() {
    assert_eq!(
        SigningKey::<ToySuite>::from_bytes(&[0]).err(),
        Some(SignatureError::DeserializeError)
    );
    assert!(SigningKey::<ToySuite>::from_scalar(ToyField::zero()).is_none());
}

#[test]
fn signing_key_rejects_what_is_not_canonical() {
    for bytes in [&[7u8][..], &[8], &[255], &[], &[3, 0], &[0, 3]] {
        assert_eq!(
            SigningKey::<ToySuite>::from_bytes(bytes).err(),
            Some(SignatureError::DeserializeError)
        );
    }
}

#[test]
fn signing_key_from_and_to_scalar() {
    for residue in 1u8..7 {
        let scalar = ToyField::deserialize(&[residue]).unwrap();
        let key = SigningKey::<ToySuite>::from_scalar(scalar).unwrap();
        assert_eq!(key.to_bytes(), vec![residue]);
        assert_eq!(ToyField::serialize(&key.to_scalar()), vec![residue]);
    }
}

#[test]
fn verifying_key_is_the_generator_times_the_scalar() {
    for residue in 1u8..7 {
        let key = SigningKey::<ToySuite>::from_bytes(&[residue]).unwrap();
        let by_reference = VerifyingKey::<ToySuite>::from(&key);
        assert_eq!(by_reference.to_bytes(), vec![POWERS[usize::from(residue)]]);
        let by_value: VerifyingKey<ToySuite> = key.into();
        assert_eq!(by_value.to_bytes(), vec![POWERS[usize::from(residue)]]);
    }
    // 4^3 = 64 = 43 + 21
    let key = SigningKey::<ToySuite>::from_bytes(&[3]).unwrap();
    assert_eq!(VerifyingKey::<ToySuite>::from(&key).to_bytes(), vec![21]);
}

#[test]
fn verifying_key_round_trip() {
    for residue in POWERS {
        let key = VerifyingKey::<ToySuite>::from_bytes(&[residue]).unwrap();
        assert_eq!(key.to_bytes(), vec![residue]);
        assert_eq!(ToyGroup::serialize(&key.to_element()), vec![residue]);
    }
}

#[test]
fn verifying_keys_and_signatures_can_be_copied() {
    let key = VerifyingKey::<ToySuite>::from_bytes(&[21]).unwrap();
    let copy = key;
    assert_eq!(key.to_bytes(), copy.to_bytes());
    assert_eq!(key.clone().to_bytes(), vec![21]);
    let signature = Signature::<ToySuite>::from_bytes(&[35, 2]).unwrap();
    let copy = signature;
    assert_eq!(signature.to_bytes(), copy.to_bytes());
    assert_eq!(signature.clone().to_bytes(), vec![35, 2]);
}

#[test]
fn verifying_key_from_an_element() {
    let element = ToyGroup::deserialize(&[35]).unwrap();
    assert_eq!(VerifyingKey::<ToySuite>::new(element).to_bytes(), vec![35]);
}

#[test]
fn verifying_key_rejects_what_is_not_in_the_group() {
    for bytes in [&[0u8][..], &[2], &[3], &[42], &[43], &[255], &[], &[4, 4]] {
        assert_eq!(
            VerifyingKey::<ToySuite>::from_bytes(bytes).err(),
            Some(SignatureError::DeserializeError)
        );
    }
}

#[test]
fn signature_encoding_is_commitment_then_response() {
    let signature = Signature::<ToySuite> {
        R: ToyGroup::deserialize(&[35]).unwrap(),
        z: ToyField::deserialize(&[2]).unwrap(),
    };
    assert_eq!(signature.to_bytes(), vec![35, 2]);
}

#[test]
fn signature_round_trip() {
    for commitment in POWERS {
        for response in 0u8..7 {
            let signature = Signature::<ToySuite>::from_bytes(&[commitment, response]).unwrap();
            assert_eq!(ToyGroup::serialize(&signature.R), vec![commitment]);
            assert_eq!(ToyField::serialize(&signature.z), vec![response]);
            assert_eq!(signature.to_bytes(), vec![commitment, response]);
        }
    }
}

#[test]
fn signature_rejects_what_is_not_canonical() {
    for bytes in [
        &[][..],
        &[35],
        &[35, 2, 0],
        &[35, 7],
        &[35, 255],
        &[2, 2],
        &[0, 2],
        &[43, 2],
        &[2, 35],
    ] {
        assert_eq!(
            Signature::<ToySuite>::from_bytes(bytes).err(),
            Some(SignatureError::DeserializeError)
        );
    }
}
