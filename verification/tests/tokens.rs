use player_auth::errors::AuthError;
use player_auth::jwt::{decode_authn_token, encode_authn_token, AuthnTokenReqs};
use uuid::Uuid;

const SECRET: &[u8] = b"supersecretvalue";
const NOW: u64 = 1_700_000_000;

#[test]
fn test_encode_equal_decode() {
    let id = Uuid::new_v4();
    let username = String::from("b1gd3vd0g");
    let email = String::from("b1gd3vd0g@bigdevdog.com");
    let reqs = AuthnTokenReqs::new(id.to_string(), username.clone(), email.clone());
    let token = encode_authn_token(reqs, SECRET, NOW).unwrap();
    let decoded = decode_authn_token(token, SECRET, NOW + 1).unwrap();
    assert_eq!(decoded.claims.sub, id.to_string());
    assert_eq!(decoded.claims.username, username);
    assert_eq!(decoded.claims.email, email);
}

fn sample_reqs() -> AuthnTokenReqs {
    AuthnTokenReqs::new(
        "11111111-2222-3333-4444-555555555555".to_string(),
        "b1gd3vd0g".to_string(),
        "b1gd3vd0g@bigdevdog.com".to_string(),
    )
}

#[test]
fn decode_restores_every_claim_field() {
    let token = encode_authn_token(sample_reqs(), SECRET, NOW).unwrap();
    // the fixed header pins the algorithm: its encoding opens every token
    assert!(token.starts_with("eyJhbGciOiJIUzI1NiIsInR5cCI6IkpXVCJ9."));
    let decoded = decode_authn_token(token, SECRET, NOW + 3599).unwrap();
    assert_eq!(decoded.claims.sub, "11111111-2222-3333-4444-555555555555");
    assert_eq!(decoded.claims.username, "b1gd3vd0g");
    assert_eq!(decoded.claims.email, "b1gd3vd0g@bigdevdog.com");
    assert_eq!(decoded.claims.iat, NOW);
    assert_eq!(decoded.claims.nbf, NOW);
    assert_eq!(decoded.claims.exp, NOW + 3600);
    assert_eq!(decoded.claims.iss, "bitcasino.bigdevdog.com");
}

#[test]
fn expired_token_fails_with_token_expired() {
    let token = encode_authn_token(sample_reqs(), SECRET, NOW).unwrap();
    let r = decode_authn_token(token.clone(), SECRET, NOW + 3600);
    assert!(matches!(r, Err(AuthError::TokenExpired)));
    let r = decode_authn_token(token, SECRET, NOW + 100_000);
    assert!(matches!(r, Err(AuthError::TokenExpired)));
}

#[test]
fn premature_token_fails_with_token_not_yet_valid() {
    let token = encode_authn_token(sample_reqs(), SECRET, NOW).unwrap();
    let r = decode_authn_token(token, SECRET, NOW - 1);
    assert!(matches!(r, Err(AuthError::TokenNotYetValid)));
}

#[test]
fn token_is_accepted_through_its_whole_window() {
    let token = encode_authn_token(sample_reqs(), SECRET, NOW).unwrap();
    assert!(decode_authn_token(token.clone(), SECRET, NOW).is_ok());
    assert!(decode_authn_token(token, SECRET, NOW + 3599).is_ok());
}

#[test]
fn token_signed_with_other_secret_fails_signature() {
    let token = encode_authn_token(sample_reqs(), b"another-secret-key", NOW).unwrap();
    let r = decode_authn_token(token, SECRET, NOW + 1);
    assert!(matches!(r, Err(AuthError::SignatureInvalid)));
}

#[test]
fn tampered_token_fails_signature() {
    let token = encode_authn_token(sample_reqs(), SECRET, NOW).unwrap();
    // flip a character of the payload segment
    let dot = token.find('.').unwrap();
    let mut bytes = token.into_bytes();
    let i = dot + 2;
    bytes[i] = if bytes[i] == b'A' { b'B' } else { b'A' };
    let tampered = String::from_utf8(bytes).unwrap();
    let r = decode_authn_token(tampered, SECRET, NOW + 1);
    assert!(matches!(
        r,
        Err(AuthError::SignatureInvalid) | Err(AuthError::MalformedToken)
    ));
}

/// Assemble a token from raw header and payload bytes, signed under `key`
/// with the real HMAC.
fn assemble(header: &[u8], payload: &[u8], key: &[u8]) -> String {
    let mut msg: Vec<u8> = Vec::new();
    player_auth::base64url::b64_encode_into(&mut msg, header);
    msg.push(b'.');
    player_auth::base64url::b64_encode_into(&mut msg, payload);
    let k = jsonwebtoken::EncodingKey::from_secret(key);
    let sig = jsonwebtoken::crypto::sign(&msg, &k, jsonwebtoken::Algorithm::HS256).unwrap();
    let mut token = String::from_utf8(msg).unwrap();
    token.push('.');
    token.push_str(&sig);
    token
}

fn sample_payload_bytes() -> Vec<u8> {
    player_auth::token_format::ser_claims_bytes(
        "11111111-2222-3333-4444-555555555555",
        "b1gd3vd0g",
        "b1gd3vd0g@bigdevdog.com",
        NOW,
        NOW + 3600,
        "bitcasino.bigdevdog.com",
        NOW,
    )
}

#[test]
fn header_declaring_none_algorithm_is_rejected() {
    let token = assemble(b"{\"alg\":\"none\",\"typ\":\"JWT\"}", &sample_payload_bytes(), SECRET);
    let r = decode_authn_token(token, SECRET, NOW + 1);
    assert!(matches!(r, Err(AuthError::AlgorithmMismatch)));
}

#[test]
fn header_declaring_other_hmac_algorithm_is_rejected() {
    let token = assemble(b"{\"alg\":\"HS384\",\"typ\":\"JWT\"}", &sample_payload_bytes(), SECRET);
    let r = decode_authn_token(token, SECRET, NOW + 1);
    assert!(matches!(r, Err(AuthError::AlgorithmMismatch)));
    let token = assemble(b"{\"alg\":\"HS256\",\"typ\":\"JWT\"}", &sample_payload_bytes(), SECRET);
    assert!(decode_authn_token(token, SECRET, NOW + 1).is_ok());
}

#[test]
fn garbage_tokens_are_malformed() {
    for bad in ["", "abc", "a.b", "a.b.c.d", "!!.!!.!!", "e30.e30"] {
        let r = decode_authn_token(bad.to_string(), SECRET, NOW);
        assert!(
            matches!(r, Err(AuthError::MalformedToken) | Err(AuthError::SignatureInvalid)),
            "{bad:?} was not rejected"
        );
    }
}

#[test]
fn signing_key_is_read_from_argument_not_from_token() {
    // two different keys give two different tokens for the same claims
    let t1 = encode_authn_token(sample_reqs(), b"key-one", NOW).unwrap();
    let t2 = encode_authn_token(sample_reqs(), b"key-two", NOW).unwrap();
    assert_ne!(t1, t2);
    assert!(decode_authn_token(t1, b"key-one", NOW + 1).is_ok());
    assert!(decode_authn_token(t2, b"key-two", NOW + 1).is_ok());
}
