use player_auth::validators::{validate_email, validate_password, validate_username};

#[test]
fn test_valid_usernames() {
    assert!(validate_username("b1gd3vd0g"));
    assert!(validate_username("mr_robot"));
    assert!(validate_username("d_365"));
    assert!(validate_username("thegoodbadchadplayer"));
}

#[test]
fn test_invalid_usernames() {
    assert!(!validate_username("pete"));
    assert!(!validate_username("thegoodbadchadplayer1"));
    assert!(!validate_username("mr________smithers"));
    assert!(!validate_username("24_7_stinky"));
    assert!(!validate_username("_stupid_hoe"));
    assert!(!validate_username("$tinky_girl"));
}

#[test]
fn test_valid_passwords() {
    assert!(validate_password("p4$5w0Rd"));
    assert!(validate_password("Buffy!53"));
    assert!(validate_password("1234567890abcdefghijABCDEFGHI$"));
    assert!(validate_password("#redDOG77"));
    assert!(validate_password("J0EY&&phoebe"));
}

#[test]
fn test_invalid_passwords() {
    assert!(!validate_password(r"p4$5w0R\"));
    assert!(!validate_password("buffy!53"));
    assert!(!validate_password("1234567890abcdefghijABCDEFGHIJ$"));
    assert!(!validate_password("redDOG77"));
    assert!(!validate_password("JOEY&&phoebe"));
}

#[test]
fn test_valid_emails() {
    assert!(validate_email("user@mail.com"));
    assert!(validate_email("user+mailbox@sub.domain.co.uk"));
    assert!(validate_email("user123@slither.io"));
}

#[test]
fn test_invalid_emails() {
    assert!(!validate_email("@mail.com"));
    assert!(!validate_email("user@.com"));
    assert!(!validate_email("user@mail"));
    assert!(!validate_email("user@mail."));
    assert!(!validate_email("user@mail.c"));
}

#[test]
fn multibyte_input_is_rejected_by_every_validator() {
    assert!(!validate_username("héllo_user"));
    assert!(!validate_password("pässwörd1A!"));
    assert!(!validate_email("usér@mail.com"));
}
