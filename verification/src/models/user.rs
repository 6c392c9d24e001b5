use vstd::prelude::*;
use vstd::utf8::encode_utf8;
use crate::text::json_plain;

verus! {

/// A stored user record: identity and the password digest.
#[derive(Clone)]
pub struct User {
    pub id: String,
    pub username: String,
    pub email: String,
    pub hashed_password: String,
}

/// The identity fields lie in the claim alphabet, so a token can be minted
/// from them.
pub open spec fn user_wf(u: User) -> bool {
    json_plain(encode_utf8(u.id@)) && json_plain(encode_utf8(u.username@)) && json_plain(
        encode_utf8(u.email@),
    )
}

} // verus!
