use club_core::digest::compute_password_hash;

#[test]
fn digest_is_deterministic() {
    let a = compute_password_hash("hunter2", "a@x.com");
    let b = compute_password_hash("hunter2", "a@x.com");
    assert_eq!(a, b);
}

#[test]
fn digest_differs_for_different_secrets() {
    let a = compute_password_hash("hunter2", "a@x.com");
    let b = compute_password_hash("hunter3", "a@x.com");
    assert_ne!(a, b);
}

#[test]
fn digest_differs_for_different_salts() {
    let a = compute_password_hash("hunter2", "a@x.com");
    let b = compute_password_hash("hunter2", "b@x.com");
    assert_ne!(a, b);
}

#[test]
fn digest_is_base64_of_64_bytes() {
    let a = compute_password_hash("hunter2", "a@x.com");
    assert_eq!(a.len(), 88);
    assert!(a.ends_with('='));
    assert!(a.chars().all(|c| c.is_ascii_alphanumeric() || c == '+' || c == '/' || c == '='));
}

#[test]
fn digest_is_not_the_plaintext() {
    let a = compute_password_hash("hunter2", "a@x.com");
    assert_ne!(a, "hunter2");
    assert_ne!(a, "a@x.com");
}

#[test]
fn digest_matches_an_independent_pbkdf2_implementation() {
    let mut expected_raw = [0u8; 64];
    pbkdf2::pbkdf2_hmac::<sha2::Sha512>(b"hunter2", b"a@x.com", 750, &mut expected_raw);
    let expected = data_encoding::BASE64.encode(&expected_raw);
    let got = compute_password_hash("hunter2", "a@x.com");
    assert_eq!(got, expected);
}

#[test]
fn empty_secret_and_salt_still_digest() {
    let a = compute_password_hash("", "");
    assert_eq!(a.len(), 88);
    let b = compute_password_hash("", "");
    assert_eq!(a, b);
}
