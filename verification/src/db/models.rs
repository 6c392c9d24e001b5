use vstd::prelude::*;
use vstd::utf8::encode_utf8;
use crate::text::json_plain;

verus! {

/// A row of the player store: identity, credentials and creation time. The
/// identity id is carried as its textual form, the creation time as unix
/// seconds. The `password` field holds the salted digest, never a plaintext
/// password; it must never be handed to a client.
#[derive(Clone)]
pub struct Player {
    pub id: String,
    pub username: String,
    pub email: String,
    pub password: String,
    pub created_at: i64,
}

/// The identity fields lie in the claim alphabet, so a token can be minted
/// from them. Registration enforces this: validated usernames and emails and
/// textual ids stay inside printable ASCII without quotes or backslashes.
pub open spec fn player_wf(p: Player) -> bool {
    json_plain(encode_utf8(p.id@)) && json_plain(encode_utf8(p.username@)) && json_plain(
        encode_utf8(p.email@),
    )
}

} // verus!
