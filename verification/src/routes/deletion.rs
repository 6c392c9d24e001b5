use vstd::prelude::*;
use vstd::utf8::encode_utf8;
use crate::handlers::helper::{extract_bearer, extract_outcome, header_views, Header};
use crate::jwt::{decode_authn_token, decode_outcome, AuthnTokenPayload};
use crate::routes::responses::{ErrorResponse, ResponseBody};
use crate::token_format::ClaimsView;

verus! {

/// Authenticate a deletion request from its headers: extract the bearer token
/// and decode it under the pinned key at clock reading `now`. Every failure
/// collapses into one status and one message, leaking nothing about which
/// check failed.
pub fn delete_player_auth(headers: &Vec<Header>, secret: &[u8], now: u64) -> (r: Result<
    AuthnTokenPayload,
    (u16, ResponseBody<()>),
>)
    ensures
        match r {
            Ok(payload) => extract_outcome(header_views(headers@)) matches Ok(tok)
                && decode_outcome(encode_utf8(tok), secret@, now) == Ok::<
                ClaimsView,
                crate::errors::AuthError,
            >(payload@),
            Err(e) => e.0 == 401 && (e.1 matches ResponseBody::Fail(m) && m.message@
                == "Token authentication failed."@) && (extract_outcome(header_views(headers@))
                is Err || (extract_outcome(header_views(headers@)) matches Ok(tok)
                && decode_outcome(encode_utf8(tok), secret@, now) is Err)),
        },
{
    let token = match extract_bearer(headers) {
        Ok(t) => t,
        Err(_) => {
            return Err((401, ResponseBody::Fail(ErrorResponse::token_auth_failure())));
        },
    };
    match decode_authn_token(token, secret, now) {
        Ok(data) => Ok(data.claims),
        Err(_) => Err((401, ResponseBody::Fail(ErrorResponse::token_auth_failure()))),
    }
}

/// Decide the deletion response: the process wiring deletes by the decoded
/// claims' full identity and reports whether a record was removed.
pub fn delete_player(deleted: bool) -> (r: (u16, Option<ResponseBody<()>>))
    ensures
        deleted ==> r.0 == 204 && r.1 is None,
        !deleted ==> r.0 == 404 && (r.1 matches Some(b) && b matches ResponseBody::Fail(m)
            && m.message@ == "User represented by the authentication token could not be found."@),
{
    if deleted {
        (204, None)
    } else {
        (
            404,
            Some(
                ResponseBody::Fail(
                    ErrorResponse::new(
                        "User represented by the authentication token could not be found.",
                    ),
                ),
            ),
        )
    }
}

} // verus!
