use secure_database::{
    decode_aead_payload, encode_aead_payload, is_aead_payload, is_aead_payload_v2,
};

fn refusal(encoded: &str) -> String {
    decode_aead_payload(encoded).expect_err("refused").message()
}

#[test]
fn payloads_are_written_in_three_segments() {
    assert_eq!(
        encode_aead_payload("handle", "token", &[0, 1, 255]),
        "aead:v2:aGFuZGxl:dG9rZW4=:AAH/"
    );
    assert_eq!(encode_aead_payload("", "", &[]), "aead:v2:::");
}

#[test]
fn payloads_are_read_back() {
    for (handle, token, ciphertext) in [
        ("h", "t", vec![1u8, 2, 3]),
        ("", "", vec![]),
        ("a:b", "c:d", vec![58u8, 58]),
        ("über", "\u{1f511}", vec![0u8; 100]),
    ] {
        let encoded = encode_aead_payload(handle, token, &ciphertext);
        assert!(is_aead_payload(&encoded));
        assert!(is_aead_payload_v2(&encoded));
        let (h, t, c) = decode_aead_payload(&encoded).expect("decode");
        assert_eq!(h, handle);
        assert_eq!(t.as_deref(), Some(token));
        assert_eq!(c, ciphertext);
    }
}

#[test]
fn older_payloads_have_no_token() {
    let encoded = "aead:v1:aGFuZGxl:AAH/";
    assert!(is_aead_payload(encoded));
    assert!(!is_aead_payload_v2(encoded));
    let (handle, token, ciphertext) = decode_aead_payload(encoded).expect("decode");
    assert_eq!(handle, "handle");
    assert_eq!(token, None);
    assert_eq!(ciphertext, vec![0, 1, 255]);
}

#[test]
fn malformed_payloads_are_told_apart() {
    assert_eq!(refusal("plain"), "encryption error: value missing aead:v1/v2 prefix");
    assert_eq!(refusal("aead:v3:a:b:c"), "encryption error: value missing aead:v1/v2 prefix");
    assert_eq!(refusal("aead:v2:"), "encryption error: invalid AEAD v2 payload format");
    assert_eq!(refusal("aead:v2:aa:bb"), "encryption error: invalid AEAD v2 payload format");
    assert_eq!(refusal("aead:v1:aa"), "encryption error: invalid AEAD v1 payload format");
    assert_eq!(refusal("aead:v2:!:dA==:dA=="), "encryption error: invalid AEAD handle encoding");
    assert_eq!(
        refusal("aead:v2:dA==:dA:dA=="),
        "encryption error: invalid AEAD redeem token encoding"
    );
    assert_eq!(
        refusal("aead:v2:dA==:/w==:dA=="),
        "encryption error: AEAD redeem token is not valid UTF-8"
    );
    assert_eq!(
        refusal("aead:v2:dA==:dA==:dB=="),
        "encryption error: invalid AEAD ciphertext encoding"
    );
    assert_eq!(
        refusal("aead:v2:dA==:dA==:dA==:x"),
        "encryption error: invalid AEAD ciphertext encoding"
    );
    assert_eq!(
        refusal("aead:v2:/w==:dA==:dA=="),
        "encryption error: AEAD handle is not valid UTF-8"
    );
    assert_eq!(refusal("aead:v1:/w==:!"), "encryption error: invalid AEAD ciphertext encoding");
}

#[test]
fn ordinary_text_is_no_payload() {
    assert!(!is_aead_payload("aead:v"));
    assert!(!is_aead_payload(" aead:v2:"));
    assert!(!is_aead_payload("AEAD:v2:"));
    assert!(is_aead_payload("aead:v1:"));
    assert!(!is_aead_payload_v2("aead:v1:"));
}
