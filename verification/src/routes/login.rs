use vstd::prelude::*;
use vstd::string::StringSliceAdditionalSpecFns;
use vstd::utf8::encode_utf8;
use crate::hashing::verify_outcome;
use crate::jwt::{encode_authn_token, mint_claims, token_bytes, AuthnTokenReqs,
    TOKEN_LIFETIME_SECONDS};
use crate::models::user::{user_wf, User};
use crate::routes::responses::{ErrorResponse, ResponseBody, TokenResponse};

verus! {

/// The expected request body shape for the login request.
pub struct ReqBody {
    pub username: String,
    pub password: String,
}

/// Everything the login response must satisfy: unknown user, unreadable
/// digest and wrong password all give the one generic failure; a match mints
/// a token for exactly the stored identity — unconditionally, since the
/// pinned signing primitive is total for a secret key.
pub open spec fn validate_login_post(
    user: Option<User>,
    password: Seq<u8>,
    secret: Seq<u8>,
    now: u64,
    status: u16,
    body: ResponseBody<TokenResponse>,
) -> bool {
    match user {
        None => status == 401 && (body matches ResponseBody::Fail(m) && m.message@
            == "Authentication failed."@),
        Some(u) => if verify_outcome(password, encode_utf8(u.hashed_password@)) == Ok::<
            bool,
            crate::errors::AuthError,
        >(true) {
            status == 200 && (body matches ResponseBody::Pass(t) && encode_utf8(t.token@)
                == token_bytes(
                mint_claims(encode_utf8(u.id@), encode_utf8(u.username@), encode_utf8(u.email@), now),
                secret,
            ))
        } else {
            status == 401 && (body matches ResponseBody::Fail(m) && m.message@
                == "Authentication failed."@)
        },
    }
}

/// Validate a user's login credentials against the record the process wiring
/// looked up (by username, case-insensitively; `None` for not-found and any
/// storage error alike), and mint a token upon success.
pub fn validate_login(user: Option<User>, password: &str, secret: &[u8], now: u64) -> (r: (
    u16,
    ResponseBody<TokenResponse>,
))
    requires
        now + TOKEN_LIFETIME_SECONDS <= u64::MAX,
        user matches Some(u) ==> user_wf(u),
    ensures
        validate_login_post(user, password.spec_bytes(), secret@, now, r.0, r.1),
{
    let user = match user {
        Some(u) => u,
        None => {
            return (401, ResponseBody::Fail(ErrorResponse::new("Authentication failed.")));
        },
    };
    let pw_match = match crate::hashing::verify_password(password, user.hashed_password.as_str()) {
        Ok(b) => b,
        Err(_) => {
            return (401, ResponseBody::Fail(ErrorResponse::new("Authentication failed.")));
        },
    };
    if !pw_match {
        return (401, ResponseBody::Fail(ErrorResponse::new("Authentication failed.")));
    }
    let reqs = AuthnTokenReqs::new(user.id, user.username, user.email);
    let token = encode_authn_token(reqs, secret, now).unwrap();
    (200, ResponseBody::Pass(TokenResponse { token }))
}

} // verus!
