use vstd::prelude::*;

verus! {

/// This is returned from both the registration request and the sign in
/// request.
#[derive(Debug)]
pub struct TokenResponse {
    pub token: String,
}

impl TokenResponse {
    pub fn new(token: String) -> (r: Self)
        ensures
            r.token == token,
    {
        TokenResponse { token }
    }
}

/// A human-readable message, returned whenever no richer body applies.
#[derive(Debug)]
pub struct MessageResponse {
    pub message: String,
}

impl MessageResponse {
    pub fn new(message: &str) -> (r: Self)
        ensures
            r.message@ == message@,
    {
        MessageResponse { message: message.to_owned() }
    }

    /// The one message every token-authentication failure collapses to, so a
    /// caller cannot tell which check failed.
    pub fn token_auth_failure() -> (r: Self)
        ensures
            r.message@ == "Token authentication failed."@,
    {
        MessageResponse::new("Token authentication failed.")
    }

    pub fn token_creation_failure() -> (r: Self)
        ensures
            r.message@ == "Error creating authentication token."@,
    {
        MessageResponse::new("Error creating authentication token.")
    }
}

} // verus!
