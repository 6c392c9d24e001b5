use player_auth::db::models::Player;
use player_auth::handlers::authentication::login::handle_login;
use player_auth::handlers::authentication::token::{authenticate_request, handle_fetch_player_by_token};
use player_auth::handlers::creation::{creation_conflict_response, creation_hash, creation_response, creation_token};
use player_auth::handlers::deletion::handle_player_deletion;
use player_auth::handlers::helper::Header;
use player_auth::jwt::decode_authn_token;
use player_auth::models::user::User;
use player_auth::requests::currency::{bearer_header_value, classify_wallet_status};
use player_auth::routes::deletion::{delete_player, delete_player_auth};
use player_auth::routes::login::validate_login;
use player_auth::routes::registration::{register_user, registration_conflict_response, registration_hash};
use player_auth::handlers::responses::MessageResponse;
use player_auth::routes::responses::{ErrorResponse, ResponseBody};

const SECRET: &[u8] = b"end-to-end-secret";
const NOW: u64 = 1_700_000_000;

/// A tiny in-memory stand-in for the player store.
struct Store {
    rows: Vec<Player>,
}

impl Store {
    fn find_by_username(&self, username: &str) -> Option<Player> {
        self.rows
            .iter()
            .find(|p| p.username.eq_ignore_ascii_case(username))
            .cloned()
    }

    fn find_by_identity(&self, id: &str, username: &str, email: &str) -> Option<Player> {
        self.rows
            .iter()
            .find(|p| p.id == id && p.username == username && p.email == email)
            .cloned()
    }

    fn delete_by_identity(&mut self, id: &str, username: &str, email: &str) -> bool {
        let before = self.rows.len();
        self.rows
            .retain(|p| !(p.id == id && p.username == username && p.email == email));
        self.rows.len() < before
    }
}

fn bearer_headers(token: &str) -> Vec<Header> {
    vec![Header {
        name: "Authorization".to_string(),
        value: Some(bearer_header_value(token)),
    }]
}

#[test]
fn end_to_end_register_login_delete() {
    let mut store = Store { rows: Vec::new() };

    // register ("alice", "alice@x.com", "Secr3t!")
    let digest = creation_hash("Secr3t!").expect("hashing failed");
    let alice = Player {
        id: "7c9e6679-7425-40de-944b-e07fc1f90ae7".to_string(),
        username: "alice".to_string(),
        email: "alice@x.com".to_string(),
        password: digest,
        created_at: NOW as i64,
    };
    store.rows.push(alice.clone());
    let token = creation_token(alice.clone(), SECRET, NOW).expect("token failed");
    let (status, body) = creation_response(true, token.clone());
    assert_eq!(status, 201);
    assert_eq!(body.unwrap().token, token);
    let decoded = decode_authn_token(token.clone(), SECRET, NOW + 1).unwrap();
    assert_eq!(decoded.claims.username, "alice");

    // login with the right password issues a token for the same subject
    let (status, body) = handle_login(store.find_by_username("Alice"), "Secr3t!", SECRET, NOW);
    assert_eq!(status, 200);
    let token2 = body.unwrap().token;
    let decoded2 = decode_authn_token(token2, SECRET, NOW + 1).unwrap();
    assert_eq!(decoded2.claims.sub, alice.id);

    // login with the wrong password is indistinguishable from an unknown user
    let (status, body) = handle_login(store.find_by_username("alice"), "wrong", SECRET, NOW);
    assert_eq!(status, 401);
    assert_eq!(body.unwrap_err().message, "Authentication failed.");
    let (status, body) = handle_login(store.find_by_username("nobody"), "Secr3t!", SECRET, NOW);
    assert_eq!(status, 401);
    assert_eq!(body.unwrap_err().message, "Authentication failed.");

    // authenticated lookup shows identity, never the digest
    let headers = bearer_headers(&token);
    let claims = authenticate_request(&headers, SECRET, NOW + 1).expect("auth failed");
    let found = store.find_by_identity(&claims.sub, &claims.username, &claims.email);
    let (status, body) = handle_fetch_player_by_token(found);
    assert_eq!(status, 200);
    let info = body.unwrap();
    assert_eq!(info.username, "alice");
    assert_eq!(info.id, alice.id);

    // authenticated deletion, then the same token finds nothing
    let claims = authenticate_request(&headers, SECRET, NOW + 1).expect("auth failed");
    let deleted = store.delete_by_identity(&claims.sub, &claims.username, &claims.email);
    let (status, body) = handle_player_deletion(deleted);
    assert_eq!(status, 204);
    assert!(body.is_none());

    let claims = authenticate_request(&headers, SECRET, NOW + 1).expect("auth failed");
    let found = store.find_by_identity(&claims.sub, &claims.username, &claims.email);
    let (status, body) = handle_fetch_player_by_token(found);
    assert_eq!(status, 404);
    assert_eq!(body.unwrap_err().message, "Player could not be found.");
}

#[test]
fn stale_identity_invalidates_a_token_without_revocation() {
    // a token whose username no longer matches the stored record finds nothing
    let digest = creation_hash("Secr3t!").expect("hashing failed");
    let alice = Player {
        id: "7c9e6679-7425-40de-944b-e07fc1f90ae7".to_string(),
        username: "alice".to_string(),
        email: "alice@x.com".to_string(),
        password: digest,
        created_at: NOW as i64,
    };
    let token = creation_token(alice.clone(), SECRET, NOW).expect("token failed");
    let mut store = Store { rows: vec![Player { username: "renamed".to_string(), ..alice }] };
    let headers = bearer_headers(&token);
    let claims = authenticate_request(&headers, SECRET, NOW + 1).expect("auth failed");
    let found = store.find_by_identity(&claims.sub, &claims.username, &claims.email);
    assert!(found.is_none());
    assert!(!store.delete_by_identity(&claims.sub, &claims.username, &claims.email));
    let (status, _) = delete_player(false);
    assert_eq!(status, 404);
}

#[test]
fn token_auth_failures_fold_into_one_response() {
    let (status, body) = match authenticate_request(&Vec::new(), SECRET, NOW) {
        Err(e) => e,
        Ok(_) => panic!("authentication should have failed"),
    };
    assert_eq!(status, 401);
    assert_eq!(body.message, "Token authentication failed.");
    // an expired token folds the same way
    let digest = creation_hash("Secr3t!").expect("hashing failed");
    let alice = Player {
        id: "7c9e6679-7425-40de-944b-e07fc1f90ae7".to_string(),
        username: "alice".to_string(),
        email: "alice@x.com".to_string(),
        password: digest,
        created_at: 0,
    };
    let token = creation_token(alice, SECRET, NOW).expect("token failed");
    let headers = bearer_headers(&token);
    let (status, body) = match authenticate_request(&headers, SECRET, NOW + 7200) {
        Err(e) => e,
        Ok(_) => panic!("authentication should have failed"),
    };
    assert_eq!(status, 401);
    assert_eq!(body.message, "Token authentication failed.");
}

#[test]
fn canned_responses_carry_the_documented_messages() {
    assert_eq!(
        MessageResponse::token_auth_failure().message,
        "Token authentication failed."
    );
    assert_eq!(
        MessageResponse::token_creation_failure().message,
        "Error creating authentication token."
    );
    assert_eq!(MessageResponse::new("hello").message, "hello");
    assert_eq!(
        ErrorResponse::token_auth_failure().message,
        "Token authentication failed."
    );
    assert_eq!(
        ErrorResponse::token_creation_failure().message,
        "Error creating authentication token."
    );
    assert_eq!(ErrorResponse::new("hello").message, "hello");
}

#[test]
fn conflict_responses_carry_the_documented_status() {
    let (status, body) = creation_conflict_response();
    assert_eq!(status, 409);
    assert_eq!(body.message, "Username or email already exists.");
    let (status, body) = registration_conflict_response();
    assert_eq!(status, 409);
    match body {
        ResponseBody::Fail(m) => assert_eq!(m.message, "Email or username already exists."),
        ResponseBody::Pass(_) => panic!("a conflict is not a pass"),
    }
}

#[test]
fn wallet_call_pieces_behave_as_documented() {
    assert_eq!(bearer_header_value("abc"), "Bearer abc");
    assert!(classify_wallet_status(201).is_ok());
    let err = classify_wallet_status(500).unwrap_err();
    assert_eq!(err.message, "The request to create a new wallet failed.");
    let (status, body) = creation_response(false, "tok".to_string());
    assert_eq!(status, 500);
    assert_eq!(
        body.unwrap_err().message,
        "Player created, but wallet could not be initialized. This should not happen!"
    );
}

#[test]
fn route_stack_login_and_registration_mirror_the_rules() {
    let digest = registration_hash("p4$5w0Rd").expect("hashing failed");
    let user = User {
        id: "0f8fad5b-d9cb-469f-a165-70867728950e".to_string(),
        username: "b1gd3vd0g".to_string(),
        email: "b1gd3vd0g@bigdevdog.com".to_string(),
        hashed_password: digest,
    };
    let (status, body) = register_user(user.clone(), SECRET, NOW);
    assert_eq!(status, 201);
    let token = match body {
        ResponseBody::Pass(t) => t.token,
        ResponseBody::Fail(m) => panic!("registration failed: {}", m.message),
    };
    let decoded = decode_authn_token(token, SECRET, NOW + 1).unwrap();
    assert_eq!(decoded.claims.sub, user.id);

    let (status, body) = validate_login(Some(user.clone()), "p4$5w0Rd", SECRET, NOW);
    assert_eq!(status, 200);
    assert!(matches!(body, ResponseBody::Pass(_)));
    let (status, body) = validate_login(Some(user.clone()), "wrong-pass", SECRET, NOW);
    assert_eq!(status, 401);
    match body {
        ResponseBody::Fail(m) => assert_eq!(m.message, "Authentication failed."),
        ResponseBody::Pass(_) => panic!("wrong password must not pass"),
    }
    let (status, _) = validate_login(None, "p4$5w0Rd", SECRET, NOW);
    assert_eq!(status, 401);

    // deletion through the route stack
    let token = match register_user(user.clone(), SECRET, NOW).1 {
        ResponseBody::Pass(t) => t.token,
        ResponseBody::Fail(m) => panic!("registration failed: {}", m.message),
    };
    let headers = bearer_headers(&token);
    let claims = delete_player_auth(&headers, SECRET, NOW + 1).expect("auth failed");
    assert_eq!(claims.sub, user.id);
    let (status, body) = delete_player(true);
    assert_eq!(status, 204);
    assert!(body.is_none());
    match delete_player_auth(&headers, SECRET, NOW + 7200) {
        Err((status, _)) => assert_eq!(status, 401),
        Ok(_) => panic!("expired token must not authenticate"),
    }
}
