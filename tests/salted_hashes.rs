use base64::Engine;
use hmac::Mac;
use rand::distributions::Alphanumeric;
use rand::Rng;
use token_auth::crypto::decode_base64;
use token_auth::salted_hashes::{
    constant_time_eq, generate_b64_hash_for_text_and_salt, generate_hash_and_salt_for_text,
    salted_digest_of, verify_text_hash,
};

fn random_text(len: usize) -> String {
    rand::thread_rng()
        .sample_iter(&Alphanumeric)
        .take(len)
        .map(char::from)
        .collect()
}

#[test]
fn test_passwords() {
    let password = random_text(1024);

    let (hash, salt) = generate_hash_and_salt_for_text(&password);

    let hash2 = generate_b64_hash_for_text_and_salt(&password, &salt).expect("valid salt");

    assert_eq!(hash, hash2)
}

#[test]
fn salts_are_random_and_sized() {
    let (hash_a, salt_a) = generate_hash_and_salt_for_text("password");
    let (hash_b, salt_b) = generate_hash_and_salt_for_text("password");
    assert_ne!(salt_a, salt_b);
    assert_ne!(hash_a, hash_b);
    let salt = base64::engine::general_purpose::STANDARD.decode(&salt_a).expect("base64");
    assert_eq!(salt.len(), 64);
    assert_ne!(salt, vec![0u8; 64]);
}

#[test]
fn salted_digest_is_hmac_sha512_over_salt_and_message() {
    let salt = b"pepper".to_vec();
    let message = b"message".to_vec();
    let mut mac = hmac::Hmac::<sha2::Sha512>::new_from_slice(&salt).expect("any key length");
    mac.update(b"peppermessage");
    let expected = mac.finalize().into_bytes().to_vec();
    assert_eq!(salted_digest_of(&salt, &message), expected);
    assert_eq!(expected.len(), 64);
}

#[test]
fn hash_of_text_is_base64_of_salted_digest() {
    let salt = vec![1u8, 2, 3];
    let salt_b64 = base64::engine::general_purpose::STANDARD.encode(&salt);
    let digest = salted_digest_of(&salt, "hello".as_bytes());
    let expected = base64::engine::general_purpose::STANDARD.encode(digest);
    assert_eq!(generate_b64_hash_for_text_and_salt("hello", &salt_b64), Some(expected));
}

#[test]
fn invalid_salt_text_gives_no_hash() {
    assert_eq!(generate_b64_hash_for_text_and_salt("hello", "%%%"), None);
    assert_eq!(verify_text_hash("hello", "%%%", "x"), None);
    // trailing bits set: not the canonical text of any bytes
    assert_eq!(generate_b64_hash_for_text_and_salt("hello", "QR=="), None);
}

#[test]
fn password_verification() {
    let (hash, salt) = generate_hash_and_salt_for_text("correct horse");
    assert_eq!(verify_text_hash("correct horse", &salt, &hash), Some(true));
    assert_eq!(verify_text_hash("wrong horse", &salt, &hash), Some(false));
    assert_eq!(verify_text_hash("correct horse", &salt, ""), Some(false));
}

#[test]
fn constant_time_comparison() {
    assert!(constant_time_eq(b"", b""));
    assert!(constant_time_eq(b"abc", b"abc"));
    assert!(!constant_time_eq(b"abc", b"abd"));
    assert!(!constant_time_eq(b"abc", b"ab"));
    assert!(!constant_time_eq(&[0x80], &[0x00]));
}

#[test]
fn base64_decoding() {
    assert_eq!(decode_base64("aGVsbG8="), Some(b"hello".to_vec()));
    assert_eq!(decode_base64(""), Some(Vec::new()));
    assert_eq!(decode_base64("aGVsbG8"), None);
    assert_eq!(decode_base64("aGVsbG9="), None);
}

#[test]
fn hash_and_salt_texts_are_88_characters() {
    let (hash, salt) = generate_hash_and_salt_for_text("pw");
    assert_eq!(hash.len(), 88);
    assert_eq!(salt.len(), 88);
    assert_eq!(decode_base64(&hash).expect("base64").len(), 64);
    let again = generate_b64_hash_for_text_and_salt("pw", "").expect("empty salt");
    assert_eq!(again.len(), 88);
}
