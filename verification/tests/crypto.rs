use secure_database::crypto::{aes_seal_drawn, aes_seal_with_nonce, audit_payload_hash};
use secure_database::{
    aes_decrypt, aes_decrypt_with_aad, aes_encrypt, aes_encrypt_with_aad, hmac_sign, DatabaseError,
};

fn hex(bytes: &[u8]) -> String {
    hex::encode(bytes)
}

#[test]
fn aes_round_trip() {
    let key = [0u8; 32];
    let plaintext = b"secure-database-roundtrip";
    let ciphertext = aes_encrypt(&key, plaintext).expect("encrypt");
    let recovered = aes_decrypt(&key, &ciphertext).expect("decrypt");
    assert_eq!(plaintext, recovered.as_slice());
}

#[test]
fn hmac_produces_deterministic_tag() {
    let key = [0u8; 16];
    let payload = b"audit";
    let tag1 = hmac_sign(&key, payload).expect("first tag");
    let tag2 = hmac_sign(&key, payload).expect("second tag");
    assert_eq!(tag1, tag2);
}

#[test]
fn hmac_of_a_published_vector() {
    let tag = hmac_sign(&[0x0b; 20], b"Hi There").expect("tag");
    assert_eq!(
        hex(&tag),
        "b0344c61d8db38535ca8afceaf0bf12b881dc200c9833da726e9376c2e32cff7"
    );
    let long_key = hmac_sign(&[7u8; 200], b"x").expect("any key length");
    assert_eq!(long_key.len(), 32);
    let empty_key = hmac_sign(&[], b"x").expect("empty key");
    assert_eq!(empty_key.len(), 32);
}

#[test]
fn sealing_of_a_published_vector() {
    let message =
        aes_seal_with_nonce(&[0u8; 32], &[0u8; 12], &[0u8; 16], &[]).expect("seal");
    assert_eq!(
        hex(&message),
        "000000000000000000000000cea7403d4d606b6e074ec5d3baf39d18d0d1c8a799996bf0265b98b5d48ab919"
    );
    let plain = aes_decrypt(&[0u8; 32], &message).expect("open");
    assert_eq!(plain, vec![0u8; 16]);
}

#[test]
fn every_message_has_its_own_nonce() {
    let one = aes_encrypt(&[1u8; 32], b"same").expect("encrypt");
    let two = aes_encrypt(&[1u8; 32], b"same").expect("encrypt");
    assert_ne!(one, two);
    assert_eq!(one.len(), 12 + 4 + 16);
}

#[test]
fn associated_data_have_to_match() {
    let key = [9u8; 32];
    let sealed = aes_encrypt_with_aad(&key, b"value", b"here").expect("encrypt");
    assert_eq!(
        aes_decrypt_with_aad(&key, &sealed, b"here").expect("decrypt"),
        b"value".to_vec()
    );
    let error = aes_decrypt_with_aad(&key, &sealed, b"there").expect_err("other context");
    assert_eq!(error.message(), "encryption error: decryption failed");
    let error = aes_decrypt(&key, &sealed).expect_err("no context");
    assert_eq!(error.message(), "encryption error: decryption failed");
    let error = aes_decrypt_with_aad(&[8u8; 32], &sealed, b"here").expect_err("other key");
    assert_eq!(error.message(), "encryption error: decryption failed");
}

#[test]
fn wrong_lengths_are_refused() {
    let error = aes_encrypt(&[0u8; 31], b"x").expect_err("short key");
    assert_eq!(error.message(), "encryption error: ring::error::Unspecified");
    let error = aes_decrypt(&[0u8; 32], &[0u8; 27]).expect_err("short message");
    assert_eq!(error.message(), "encryption error: ciphertext too short");
    let error = aes_decrypt(&[0u8; 31], &[0u8; 27]).expect_err("both");
    assert_eq!(error.message(), "encryption error: ciphertext too short");
    let error = aes_decrypt(&[0u8; 31], &[0u8; 28]).expect_err("short key");
    assert_eq!(error.message(), "encryption error: ring::error::Unspecified");
    let error = aes_decrypt(&[0u8; 32], &[0u8; 28]).expect_err("forged");
    assert_eq!(error.message(), "encryption error: decryption failed");
}

#[test]
fn a_failing_generator_is_reported() {
    let error = aes_seal_drawn(&[0u8; 32], None, b"x", &[]).expect_err("no nonce");
    assert!(matches!(error, DatabaseError::Encryption(_)));
    assert_eq!(
        error.message(),
        "encryption error: rng failure: ring::error::Unspecified"
    );
}

#[test]
fn empty_plaintext_is_sealed() {
    let sealed = aes_encrypt(&[3u8; 32], b"").expect("encrypt");
    assert_eq!(sealed.len(), 28);
    assert_eq!(aes_decrypt(&[3u8; 32], &sealed).expect("decrypt"), Vec::<u8>::new());
}

#[test]
fn audited_payloads_are_hashed() {
    assert_eq!(
        audit_payload_hash(b"abc"),
        "ba7816bf8f01cfea414140de5dae2223b00361a396177a9cb410ff61f20015ad"
    );
}

#[test]
fn messages_name_the_kind_of_error() {
    let texts = [
        (DatabaseError::Connection("x".to_string()), "database connection error: x"),
        (DatabaseError::Query("x".to_string()), "database query error: x"),
        (DatabaseError::Migration("x".to_string()), "migration error: x"),
        (DatabaseError::Encryption("x".to_string()), "encryption error: x"),
        (DatabaseError::Configuration("x".to_string()), "configuration error: x"),
        (DatabaseError::Io("x".to_string()), "io error: x"),
        (DatabaseError::Integrity("x".to_string()), "integrity violation: x"),
        (DatabaseError::Attestation("x".to_string()), "tee attestation error: x"),
        (DatabaseError::ZeroKnowledge("x".to_string()), "zero-knowledge error: x"),
        (DatabaseError::Unsupported("x".to_string()), "unsupported feature: x"),
    ];
    for (error, text) in texts {
        assert_eq!(error.message(), text);
    }
}
