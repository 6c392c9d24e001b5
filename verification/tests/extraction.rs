use player_auth::errors::AuthError;
use player_auth::handlers::helper::{extract_authn_token, extract_bearer, Header};

fn headers(pairs: &[(&str, Option<&str>)]) -> Vec<Header> {
    pairs
        .iter()
        .map(|(n, v)| Header {
            name: n.to_string(),
            value: v.map(|s| s.to_string()),
        })
        .collect()
}

#[test]
fn bearer_token_is_extracted_verbatim() {
    let hs = headers(&[("Authorization", Some("Bearer abc123"))]);
    assert_eq!(extract_bearer(&hs).unwrap(), "abc123");
}

#[test]
fn missing_prefix_fails_with_prefix_missing() {
    let hs = headers(&[("Authorization", Some("abc123"))]);
    assert_eq!(extract_bearer(&hs), Err(AuthError::PrefixMissing));
    // the prefix match is case-sensitive and wants exactly one space
    let hs = headers(&[("Authorization", Some("bearer abc123"))]);
    assert_eq!(extract_bearer(&hs), Err(AuthError::PrefixMissing));
    let hs = headers(&[("Authorization", Some("Bearer"))]);
    assert_eq!(extract_bearer(&hs), Err(AuthError::PrefixMissing));
}

#[test]
fn missing_header_fails_with_header_missing() {
    let hs = headers(&[]);
    assert_eq!(extract_bearer(&hs), Err(AuthError::HeaderMissing));
    let hs = headers(&[("Content-Type", Some("application/json"))]);
    assert_eq!(extract_bearer(&hs), Err(AuthError::HeaderMissing));
}

#[test]
fn non_text_header_fails_with_header_malformed() {
    let hs = headers(&[("Authorization", None)]);
    assert_eq!(extract_bearer(&hs), Err(AuthError::HeaderMalformed));
}

#[test]
fn empty_remainder_is_a_valid_extraction() {
    let hs = headers(&[("Authorization", Some("Bearer "))]);
    assert_eq!(extract_bearer(&hs).unwrap(), "");
}

#[test]
fn first_authorization_header_wins() {
    let hs = headers(&[
        ("Accept", Some("*/*")),
        ("Authorization", Some("Bearer first")),
        ("Authorization", Some("Bearer second")),
    ]);
    assert_eq!(extract_bearer(&hs).unwrap(), "first");
}

#[test]
fn every_extraction_failure_folds_into_one_message() {
    for hs in [
        headers(&[]),
        headers(&[("Authorization", None)]),
        headers(&[("Authorization", Some("abc123"))]),
    ] {
        match extract_authn_token(&hs) {
            Err(m) => assert_eq!(m.message, "Token authentication failed."),
            Ok(_) => panic!("extraction should have failed"),
        }
    }
}
