use vstd::prelude::*;
use vstd::string::StringSliceAdditionalSpecFns;
use vstd::utf8::encode_utf8;
use crate::db::models::{Player, player_wf};
use crate::handlers::responses::{MessageResponse, TokenResponse};
use crate::hashing::verify_outcome;
use crate::jwt::{encode_authn_token, mint_claims, token_bytes, AuthnTokenReqs,
    TOKEN_LIFETIME_SECONDS};

verus! {

/// The expected request body shape for the login request.
pub struct ReqBody {
    pub username: String,
    pub password: String,
}

/// Everything the login response must satisfy. Unknown user (or any storage
/// error), an unreadable stored digest and a wrong password all give the same
/// status and the same generic message, so a caller cannot tell them apart.
/// A matching password gives a token minted at `now` for exactly the stored
/// record's identity — unconditionally, since the pinned signing primitive is
/// total for a secret key.
pub open spec fn login_post(
    player: Option<Player>,
    password: Seq<u8>,
    secret: Seq<u8>,
    now: u64,
    status: u16,
    body: Result<TokenResponse, MessageResponse>,
) -> bool {
    match player {
        None => status == 401 && (body matches Err(m) && m.message@ == "Authentication failed."@),
        Some(p) => if verify_outcome(password, encode_utf8(p.password@)) == Ok::<
            bool,
            crate::errors::AuthError,
        >(true) {
            status == 200 && (body matches Ok(t) && encode_utf8(t.token@) == token_bytes(
                mint_claims(
                    encode_utf8(p.id@),
                    encode_utf8(p.username@),
                    encode_utf8(p.email@),
                    now,
                ),
                secret,
            ))
        } else {
            status == 401 && (body matches Err(m) && m.message@ == "Authentication failed."@)
        },
    }
}

/// Decide the login response from the stored record the process wiring looked
/// up (by username, case-insensitively; `None` for not-found and for any
/// storage error alike), the presented password, the signing key and the
/// clock.
pub fn handle_login(player: Option<Player>, password: &str, secret: &[u8], now: u64) -> (r: (
    u16,
    Result<TokenResponse, MessageResponse>,
))
    requires
        now + TOKEN_LIFETIME_SECONDS <= u64::MAX,
        player matches Some(p) ==> player_wf(p),
    ensures
        login_post(player, password.spec_bytes(), secret@, now, r.0, r.1),
{
    let authn_failed = MessageResponse::new("Authentication failed.");
    let player = match player {
        Some(p) => p,
        None => {
            return (401, Err(authn_failed));
        },
    };
    let pw_match = match crate::hashing::verify_password(password, player.password.as_str()) {
        Ok(b) => b,
        Err(_) => {
            return (401, Err(authn_failed));
        },
    };
    if !pw_match {
        return (401, Err(authn_failed));
    }
    let token_reqs = AuthnTokenReqs::new(player.id, player.username, player.email);
    let token = encode_authn_token(token_reqs, secret, now).unwrap();
    (200, Ok(TokenResponse::new(token)))
}

/// Law: to a caller, a failed login looks the same whether the username was
/// unknown (or storage failed), the stored digest was unreadable, or the
/// password was wrong — the same status and the same message, so usernames
/// cannot be enumerated through this endpoint.
pub proof fn lemma_login_failures_indistinguishable(
    player: Option<Player>,
    password: Seq<u8>,
    secret: Seq<u8>,
    now: u64,
    status: u16,
    body: Result<TokenResponse, MessageResponse>,
)
    requires
        login_post(player, password, secret, now, status, body),
        match player {
            None => true,
            Some(p) => verify_outcome(password, encode_utf8(p.password@)) != Ok::<
                bool,
                crate::errors::AuthError,
            >(true),
        },
    ensures
        status == 401,
        body matches Err(m) && m.message@ == "Authentication failed."@,
{
}

} // verus!
