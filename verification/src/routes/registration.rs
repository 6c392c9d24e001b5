use vstd::prelude::*;
use vstd::string::StringSliceAdditionalSpecFns;
use vstd::utf8::encode_utf8;
use crate::hashing::{digest_matches, digest_well_formed, hash_password};
use crate::jwt::{encode_authn_token, mint_claims, token_bytes, AuthnTokenReqs,
    TOKEN_LIFETIME_SECONDS};
use crate::models::user::{user_wf, User};
use crate::routes::responses::{ErrorResponse, ResponseBody, TokenResponse};

verus! {

/// The expected request body shape for the registration request.
pub struct ReqBody {
    pub username: String,
    pub email: String,
    pub password: String,
}

// Registration runs in two verified stages around the store's insert: hash
// the password, then mint a token for the record the insert returned.

/// Hash the new user's password; a hashing fault is a server error.
pub fn registration_hash(password: &str) -> (r: Result<String, (u16, ResponseBody<TokenResponse>)>)
    ensures
        password.spec_bytes().len() <= u32::MAX ==> r is Ok,
        r matches Ok(d) ==> digest_well_formed(encode_utf8(d@)) && digest_matches(
            password.spec_bytes(),
            encode_utf8(d@),
        ),
        r matches Err(e) ==> e.0 == 500 && (e.1 matches ResponseBody::Fail(m) && m.message@
            == "Password could not be hashed."@),
{
    match hash_password(password) {
        Ok(d) => Ok(d),
        Err(_) => Err(
            (500, ResponseBody::Fail(ErrorResponse::new("Password could not be hashed."))),
        ),
    }
}

/// The response when the store reports the insert in conflict with an
/// existing username or email (or fails in any other way).
pub fn registration_conflict_response() -> (r: (u16, ResponseBody<TokenResponse>))
    ensures
        r.0 == 409,
        r.1 matches ResponseBody::Fail(m) && m.message@ == "Email or username already exists."@,
{
    (409, ResponseBody::Fail(ErrorResponse::new("Email or username already exists.")))
}

/// Finish registration from the record the insert returned: mint its token.
/// Minting never fails — the pinned signing primitive is total for a secret
/// key — so the created response with the token is owed on every call.
pub fn register_user(user: User, secret: &[u8], now: u64) -> (r: (
    u16,
    ResponseBody<TokenResponse>,
))
    requires
        now + TOKEN_LIFETIME_SECONDS <= u64::MAX,
        user_wf(user),
    ensures
        r.0 == 201,
        r.1 matches ResponseBody::Pass(t) && encode_utf8(t.token@) == token_bytes(
            mint_claims(
                encode_utf8(user.id@),
                encode_utf8(user.username@),
                encode_utf8(user.email@),
                now,
            ),
            secret@,
        ),
{
    let reqs = AuthnTokenReqs::new(user.id, user.username, user.email);
    let token = encode_authn_token(reqs, secret, now).unwrap();
    (201, ResponseBody::Pass(TokenResponse { token }))
}

} // verus!
