use pok_backend::_create_new_agreement;
use pok_backend::agreement::Agreement;
use pok_backend::lamport::{
    create_public_key, hash, hash_to_binary_array, random_private_key, sign, verify,
};

fn ten_commandments() -> Vec<String> {
    vec![
        "I am the Lord thy God".to_string(),
        "Thou shalt have no other gods before me".to_string(),
        "Thou shalt not make unto thee any graven image".to_string(),
        "Thou shalt not take the name of the Lord thy God in vain".to_string(),
        "Remember the sabbath day, to keep it holy".to_string(),
        "Honour thy father and thy mother".to_string(),
        "Thou shalt not kill".to_string(),
        "Thou shalt not commit adultery".to_string(),
        "Thou shalt not steal".to_string(),
        "Thou shalt not bear false witness against thy neighbour".to_string(),
        "Thou shalt not covet thy neighbour's house".to_string(),
        "Thou shalt not covet thy neighbour's wife, nor his manservant, nor his maidservant, nor his ox, nor his ass, nor any thing that is thy neighbour's".to_string(),
    ]
}

fn sample_agreement() -> Agreement {
    _create_new_agreement(
        ten_commandments(),
        String::from("God"),
        1,
        String::from("2024-01-01"),
    )
}

#[test]
fn test_sign_and_verify() {
    let agreement = sample_agreement();

    let private_key = random_private_key(
        String::from("amschel"),
        agreement,
        String::from("My secret"),
    );

    let public_key = create_public_key(&private_key);
    let message_hash = hash("Hello, world!");
    let message_hash2 = hash("Hello");
    let signature = sign(message_hash.clone(), &private_key);
    assert_eq!(verify(message_hash.clone(), &signature, &public_key), true);
    assert_eq!(
        verify(message_hash2.clone(), &signature, &public_key),
        false
    );
    // Change a bit in the message hash to make verification fail
    let mut message_hash_bytes = hex::decode(message_hash).unwrap();
    message_hash_bytes[0] ^= 1; // Flipping first bit
    let modified_message_hash = hex::encode(message_hash_bytes);
    assert_eq!(
        verify(modified_message_hash, &signature, &public_key),
        false
    );
}

#[test]
fn test_hash_to_binary_array() {
    let hash_string = "1234567890abcdef";
    let binary_array = hash_to_binary_array(hash_string.to_string());

    // Ensure binary array has correct length and values
    assert_eq!(binary_array.len(), hash_string.len() * 4);

    for (i, hex_char) in hash_string.chars().enumerate() {
        let hex_value = hex_char.to_digit(16).unwrap();
        for j in (0..4).rev() {
            let bit = (hex_value >> j) & 1;
            assert_eq!(binary_array[i * 4 + (3 - j) as usize], bit as u8);
        }
    }
}

#[test]
fn hash_matches_known_sha256_vectors() {
    assert_eq!(
        hash("abc"),
        "ba7816bf8f01cfea414140de5dae2223b00361a396177a9cb410ff61f20015ad"
    );
    assert_eq!(
        hash(""),
        "e3b0c44298fc1c149afbf4c8996fb92427ae41e4649b934ca495991b7852b855"
    );
}

#[test]
fn hash_to_binary_array_rejects_bad_digests() {
    assert_eq!(hash_to_binary_array(String::from("abc")).len(), 0);
    assert_eq!(hash_to_binary_array(String::from("zz")).len(), 0);
    assert_eq!(hash_to_binary_array(String::new()).len(), 0);
}

#[test]
fn derivation_is_deterministic() {
    let key1 = random_private_key(
        String::from("alice"),
        sample_agreement(),
        String::from("na"),
    );
    let key2 = random_private_key(
        String::from("alice"),
        sample_agreement(),
        String::from("na"),
    );
    let pub1 = create_public_key(&key1);
    let pub2 = create_public_key(&key2);
    for i in 0..256 {
        assert_eq!(key1.get_key(i), key2.get_key(i));
        assert_eq!(pub1.get_key(i), pub2.get_key(i));
    }
}

#[test]
fn derivation_differs_across_signers_and_nonces() {
    let base = random_private_key(
        String::from("alice"),
        sample_agreement(),
        String::from("na"),
    );
    let other_signer = random_private_key(
        String::from("bob"),
        sample_agreement(),
        String::from("na"),
    );
    let other_nonce = random_private_key(
        String::from("alice"),
        sample_agreement(),
        String::from("nb"),
    );
    assert_ne!(base.get_key(0), other_signer.get_key(0));
    assert_ne!(base.get_key(0), other_nonce.get_key(0));
}

#[test]
fn key_pair_shape() {
    let private_key = random_private_key(
        String::from("alice"),
        sample_agreement(),
        String::from("na"),
    );
    let public_key = create_public_key(&private_key);
    for i in 0..256 {
        let (a, b) = private_key.get_key(i);
        assert_eq!(a.len(), 32);
        assert_eq!(b.len(), 32);
        let (pa, pb) = public_key.get_key(i);
        assert_eq!(pa.len(), 64);
        assert_eq!(pb.len(), 64);
    }
}

#[test]
fn degraded_signature_fails_verification() {
    let private_key = random_private_key(
        String::from("alice"),
        sample_agreement(),
        String::from("na"),
    );
    let public_key = create_public_key(&private_key);
    // A 16-character digest expands to only 64 bits, so the signature is
    // degraded and can never pass a 256-position verification.
    let short_digest = String::from("1234567890abcdef");
    let degraded = sign(short_digest.clone(), &private_key);
    assert_eq!(verify(short_digest, &degraded, &public_key), false);

    let full_digest = hash("Hello, world!");
    let signature = sign(full_digest.clone(), &private_key);
    // A wrong-length digest passed to verify returns false outright.
    assert_eq!(
        verify(String::from("1234567890abcdef"), &signature, &public_key),
        false
    );
    assert_eq!(verify(String::from("zz"), &signature, &public_key), false);
    assert_eq!(verify(full_digest, &signature, &public_key), true);
}
