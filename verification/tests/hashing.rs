use player_auth::errors::AuthError;
use player_auth::hashing::{hash_password, verify_password};

#[test]
pub fn test_hashing() {
    let password = "hunter2";
    let hash = hash_password(password).expect("Hashing failed");
    assert!(verify_password(password, &hash).unwrap());
    assert!(!verify_password("wrongpassword", &hash).unwrap());
}

#[test]
fn hash_accepts_empty_and_multibyte_passwords() {
    let empty = hash_password("").expect("Hashing failed");
    assert!(verify_password("", &empty).unwrap());
    let multibyte = "pässwörd-\u{1F511}";
    let hash = hash_password(multibyte).expect("Hashing failed");
    assert!(verify_password(multibyte, &hash).unwrap());
    assert!(!verify_password("passwords", &hash).unwrap());
}

#[test]
fn different_password_does_not_verify() {
    let hash = hash_password("first-password").expect("Hashing failed");
    assert_eq!(verify_password("second-password", &hash), Ok(false));
}

#[test]
fn two_hashes_of_one_password_differ_yet_both_verify() {
    let a = hash_password("hunter2").expect("Hashing failed");
    let b = hash_password("hunter2").expect("Hashing failed");
    assert_ne!(a, b);
    assert!(verify_password("hunter2", &a).unwrap());
    assert!(verify_password("hunter2", &b).unwrap());
}

#[test]
fn malformed_digest_is_rejected_not_verified() {
    assert_eq!(
        verify_password("hunter2", "not-a-digest"),
        Err(AuthError::MalformedDigest)
    );
    assert_eq!(verify_password("hunter2", ""), Err(AuthError::MalformedDigest));
    // a digest that parses but carries no derived output is not malformed;
    // it simply matches no password
    assert_eq!(
        verify_password("hunter2", "$argon2id$v=19$truncated"),
        Ok(false)
    );
    // an unsupported algorithm tag is a malformed digest, never a match
    assert_eq!(
        verify_password(
            "hunter2",
            "$pbkdf2$i=1000$c2FsdHNhbHQ$xYz"
        ),
        Err(AuthError::MalformedDigest)
    );
}

#[test]
fn strict_verify_reports_mismatch_as_error() {
    let hash = player_auth::auth::hash_password("hunter2").expect("Hashing failed");
    assert_eq!(player_auth::auth::verify_password("hunter2", &hash), Ok(()));
    assert_eq!(
        player_auth::auth::verify_password("wrong", &hash),
        Err(AuthError::AuthenticationFailed)
    );
}
