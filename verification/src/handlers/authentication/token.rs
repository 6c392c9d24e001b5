use vstd::prelude::*;
use vstd::utf8::encode_utf8;
use crate::db::models::Player;
use crate::handlers::helper::{extract_authn_token, extract_outcome, header_views, Header};
use crate::handlers::responses::MessageResponse;
use crate::jwt::{decode_authn_token, decode_outcome, AuthnTokenPayload};
use crate::token_format::ClaimsView;

verus! {

/// What a token-authenticated handler may show of a player: identity and
/// creation time, never the password digest (this struct cannot carry one).
#[derive(Debug)]
pub struct SafePlayerInfo {
    pub id: String,
    pub username: String,
    pub email: String,
    pub created_at: i64,
}

/// Authenticate a request from its headers: extract the bearer token and
/// decode it under the pinned key at clock reading `now`. Every failure —
/// missing or unreadable header, missing prefix, or any decode failure —
/// collapses into the same response, so a caller cannot tell which check
/// failed. On success the returned claims are exactly what the verified
/// decoder accepted.
pub fn authenticate_request(headers: &Vec<Header>, secret: &[u8], now: u64) -> (r: Result<
    AuthnTokenPayload,
    (u16, MessageResponse),
>)
    ensures
        match r {
            Ok(payload) => extract_outcome(header_views(headers@)) matches Ok(tok)
                && decode_outcome(encode_utf8(tok), secret@, now) == Ok::<
                ClaimsView,
                crate::errors::AuthError,
            >(payload@),
            Err(e) => e.0 == 401 && e.1.message@ == "Token authentication failed."@ && (
            extract_outcome(header_views(headers@)) is Err || (extract_outcome(
                header_views(headers@),
            ) matches Ok(tok) && decode_outcome(encode_utf8(tok), secret@, now) is Err)),
        },
{
    let authn_token = match extract_authn_token(headers) {
        Ok(token) => token,
        Err(e) => {
            return Err((401, e));
        },
    };
    match decode_authn_token(authn_token, secret, now) {
        Ok(data) => Ok(data.claims),
        Err(_) => Err((401, MessageResponse::token_auth_failure())),
    }
}

/// Decide the lookup response from the record the process wiring fetched by
/// the decoded claims' identity — subject, username and email together, so a
/// stale token whose identity no longer matches finds nothing. The projection
/// never includes the password digest.
pub fn handle_fetch_player_by_token(player: Option<Player>) -> (r: (
    u16,
    Result<SafePlayerInfo, MessageResponse>,
))
    ensures
        player matches Some(p) ==> r.0 == 200 && (r.1 matches Ok(info) && info.id == p.id
            && info.username == p.username && info.email == p.email && info.created_at
            == p.created_at),
        player is None ==> r.0 == 404 && (r.1 matches Err(m) && m.message@
            == "Player could not be found."@),
{
    match player {
        Some(p) => (
            200,
            Ok(
                SafePlayerInfo {
                    id: p.id,
                    username: p.username,
                    email: p.email,
                    created_at: p.created_at,
                },
            ),
        ),
        None => (404, Err(MessageResponse::new("Player could not be found."))),
    }
}

} // verus!
