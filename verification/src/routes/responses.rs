use vstd::prelude::*;

verus! {

/// This response can be returned from any handler when the request could not
/// be completed, for any reason. The message must never carry sensitive
/// information.
#[derive(Debug)]
pub struct ErrorResponse {
    pub message: String,
}

impl ErrorResponse {
    /// Creates a new `ErrorResponse` with the given message.
    pub fn new(message: &str) -> (r: Self)
        ensures
            r.message@ == message@,
    {
        ErrorResponse { message: message.to_owned() }
    }

    /// The response returned when a token authentication fails, whatever the
    /// reason: one message for every check.
    pub fn token_auth_failure() -> (r: Self)
        ensures
            r.message@ == "Token authentication failed."@,
    {
        ErrorResponse::new("Token authentication failed.")
    }

    /// The response returned when a token could not be created.
    pub fn token_creation_failure() -> (r: Self)
        ensures
            r.message@ == "Error creating authentication token."@,
    {
        ErrorResponse::new("Error creating authentication token.")
    }
}

/// The two-case body every handler of this stack returns.
#[derive(Debug)]
pub enum ResponseBody<T> {
    Pass(T),
    Fail(ErrorResponse),
}

/// This is returned from both the registration request and the sign in
/// request.
#[derive(Debug)]
pub struct TokenResponse {
    pub token: String,
}

} // verus!
