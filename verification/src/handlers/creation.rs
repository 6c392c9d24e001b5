use vstd::prelude::*;
use vstd::string::StringSliceAdditionalSpecFns;
use vstd::utf8::encode_utf8;
use crate::db::models::{Player, player_wf};
use crate::handlers::responses::{MessageResponse, TokenResponse};
use crate::hashing::{digest_matches, digest_well_formed, hash_password};
use crate::jwt::{encode_authn_token, mint_claims, token_bytes, AuthnTokenReqs,
    TOKEN_LIFETIME_SECONDS};

verus! {

/// The expected request body shape for the registration request.
pub struct ReqBody {
    pub username: String,
    pub email: String,
    pub password: String,
}

// Registration runs in stages around the process wiring's storage and
// provisioning calls: hash the password; insert the record; mint a token for
// the stored identity; provision the downstream wallet with it. Each decision
// between two stages is a verified function here.

/// Hash the new player's password; a hashing fault is a server error.
pub fn creation_hash(password: &str) -> (r: Result<String, (u16, MessageResponse)>)
    ensures
        password.spec_bytes().len() <= u32::MAX ==> r is Ok,
        r matches Ok(d) ==> digest_well_formed(encode_utf8(d@)) && digest_matches(
            password.spec_bytes(),
            encode_utf8(d@),
        ),
        r matches Err(e) ==> e.0 == 500 && e.1.message@ == "Password could not be hashed."@,
{
    match hash_password(password) {
        Ok(d) => Ok(d),
        Err(_) => Err((500, MessageResponse::new("Password could not be hashed."))),
    }
}

/// The response when the store reports the new record in conflict with an
/// existing username or email (or fails in any other way: the store does not
/// distinguish causes here).
pub fn creation_conflict_response() -> (r: (u16, MessageResponse))
    ensures
        r.0 == 409,
        r.1.message@ == "Username or email already exists."@,
{
    (409, MessageResponse::new("Username or email already exists."))
}

/// Mint the fresh account's token from the record the store returned. Minting
/// never fails: the pinned signing primitive is total for a secret key, so a
/// token is owed on every call.
pub fn creation_token(player: Player, secret: &[u8], now: u64) -> (r: Result<
    String,
    (u16, MessageResponse),
>)
    requires
        now + TOKEN_LIFETIME_SECONDS <= u64::MAX,
        player_wf(player),
    ensures
        r matches Ok(t) && encode_utf8(t@) == token_bytes(
            mint_claims(
                encode_utf8(player.id@),
                encode_utf8(player.username@),
                encode_utf8(player.email@),
                now,
            ),
            secret@,
        ),
{
    let reqs = AuthnTokenReqs::new(player.id, player.username, player.email);
    Ok(encode_authn_token(reqs, secret, now).unwrap())
}

/// Decide the final response from the provisioning call's outcome: the
/// account and token stand either way; a provisioning failure is surfaced as
/// a distinct server-side signal rather than rolling the account back.
pub fn creation_response(wallet_ok: bool, token: String) -> (r: (
    u16,
    Result<TokenResponse, MessageResponse>,
))
    ensures
        wallet_ok ==> r.0 == 201 && (r.1 matches Ok(t) && t.token == token),
        !wallet_ok ==> r.0 == 500 && (r.1 matches Err(m) && m.message@
            == "Player created, but wallet could not be initialized. This should not happen!"@),
{
    if wallet_ok {
        (201, Ok(TokenResponse::new(token)))
    } else {
        (
            500,
            Err(
                MessageResponse::new(
                    "Player created, but wallet could not be initialized. This should not happen!",
                ),
            ),
        )
    }
}

} // verus!
