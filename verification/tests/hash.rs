use schnorr_core::toy::{ToyField, ToySuite};
use schnorr_core::{Field, HStar};

const OTHER_TAG: [u8; 16] = *b"Another_ToyGroup";
const REDJUBJUB_TAG: [u8; 16] = *b"Zcash_RedJubjubH";

fn residue(hasher: HStar<ToySuite>) -> u8 {
    ToyField::serialize(&hasher.finalize())[0]
}

/// The little-endian value of `bytes` modulo 7, computed digit by digit.
fn le_mod_7(bytes: &[u8]) -> u8 {
    let mut acc: u32 = 0;
    for byte in bytes.iter().rev() {
        acc = (acc * 256 + u32::from(*byte)) % 7;
    }
    acc as u8
}

#[test]
fn empty_input_under_the_suite_tag() {
    assert_eq!(residue(HStar::<ToySuite>::default()), 5);
}

#[test]
fn known_answers_under_the_suite_tag() {
    assert_eq!(residue(HStar::<ToySuite>::default().update(b"a")), 3);
    assert_eq!(residue(HStar::<ToySuite>::default().update(b"abc")), 0);
    assert_eq!(residue(HStar::<ToySuite>::default().update(b"hello")), 1);
    assert_eq!(residue(HStar::<ToySuite>::default().update(b"hellp")), 3);
    assert_eq!(residue(HStar::<ToySuite>::default().update(b"message")), 5);
    let long: Vec<u8> = (0u8..200).collect();
    assert_eq!(residue(HStar::<ToySuite>::default().update(&long)), 1);
}

#[test]
fn default_uses_the_tag_of_the_suite() {
    let tag = *b"Schnorr_ToyGroup";
    for message in [&b""[..], b"a", b"hellp", b"message"] {
        assert_eq!(
            residue(HStar::<ToySuite>::default().update(message)),
            residue(HStar::<ToySuite>::new(&tag).update(message)),
        );
    }
}

#[test]
fn known_answers_under_other_tags() {
    assert_eq!(residue(HStar::<ToySuite>::new(&OTHER_TAG)), 1);
    assert_eq!(residue(HStar::<ToySuite>::new(&OTHER_TAG).update(b"hellp")), 5);
    assert_eq!(residue(HStar::<ToySuite>::new(&OTHER_TAG).update(b"message")), 4);
    assert_eq!(residue(HStar::<ToySuite>::new(&REDJUBJUB_TAG)), 0);
    assert_eq!(residue(HStar::<ToySuite>::new(&REDJUBJUB_TAG).update(b"hello")), 4);
    assert_eq!(residue(HStar::<ToySuite>::new(&REDJUBJUB_TAG).update(b"message")), 2);
}

#[test]
fn different_tags_give_different_scalars() {
    for message in [&b""[..], b"hellp", b"message"] {
        let suite = residue(HStar::<ToySuite>::default().update(message));
        let other = residue(HStar::<ToySuite>::new(&OTHER_TAG).update(message));
        let redjubjub = residue(HStar::<ToySuite>::new(&REDJUBJUB_TAG).update(message));
        assert_ne!(suite, other);
        assert_ne!(suite, redjubjub);
        assert_ne!(other, redjubjub);
    }
}

#[test]
fn same_tag_and_updates_give_the_same_scalar() {
    let first = residue(HStar::<ToySuite>::default().update(b"one").update(b"two"));
    let second = residue(HStar::<ToySuite>::default().update(b"one").update(b"two"));
    assert_eq!(first, second);
}

#[test]
fn updates_are_absorbed_in_order() {
    assert_eq!(residue(HStar::<ToySuite>::default().update(b"a").update(b"b")), 5);
    assert_eq!(residue(HStar::<ToySuite>::default().update(b"b").update(b"a")), 6);
}

#[test]
fn updates_continue_one_input() {
    assert_eq!(residue(HStar::<ToySuite>::default().update(b"he").update(b"llo")), 1);
    assert_eq!(residue(HStar::<ToySuite>::default().update(b"").update(b"hello")), 1);
    assert_eq!(
        residue(HStar::<ToySuite>::default().update(b"h").update(b"e").update(b"llo").update(b"")),
        1
    );
}

#[test]
fn finalize_reduces_the_wide_digest() {
    // Every input is hashed with blake2b_simd directly and reduced here,
    // digit by digit, for comparison.
    let tag = *b"Schnorr_ToyGroup";
    for len in 0usize..300 {
        let message: Vec<u8> = (0..len).map(|i| (i * 7 + len) as u8).collect();
        let digest = blake2b_simd::Params::new()
            .hash_length(64)
            .personal(&tag)
            .hash(&message);
        assert_eq!(digest.as_bytes().len(), 64);
        let expected = le_mod_7(digest.as_bytes());
        assert_eq!(residue(HStar::<ToySuite>::default().update(&message)), expected);
        let (head, tail) = message.split_at(len / 3);
        assert_eq!(
            residue(HStar::<ToySuite>::default().update(head).update(tail)),
            expected
        );
    }
}

#[test]
fn finalize_takes_all_sixty_four_bytes() {
    // The digest of "hello" is 83da...5dcf. Read in little-endian order and
    // reduced modulo 7 it is 1; its first 32 bytes alone would give 4 and
    // the big-endian reading would give 2.
    let digest = blake2b_simd::Params::new()
        .hash_length(64)
        .personal(b"Schnorr_ToyGroup")
        .hash(b"hello");
    assert_eq!(digest.as_bytes()[0], 0x83);
    assert_eq!(digest.as_bytes()[63], 0xcf);
    assert_eq!(residue(HStar::<ToySuite>::default().update(b"hello")), 1);
}
