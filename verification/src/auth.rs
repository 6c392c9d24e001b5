use vstd::prelude::*;
use vstd::string::StringSliceAdditionalSpecFns;
use vstd::utf8::encode_utf8;
use crate::errors::AuthError;
use crate::hashing;
use crate::hashing::{digest_well_formed, digest_matches, verify_outcome};

verus! {

// The strict flavour of the password interface: verification reports a
// mismatch as an error rather than as `Ok(false)`.

/// Convert a raw text password to a safe digest; a fresh salt every call.
pub fn hash_password(password: &str) -> (r: Result<String, AuthError>)
    ensures
        password.spec_bytes().len() <= u32::MAX ==> r is Ok,
        r matches Ok(d) ==> digest_well_formed(encode_utf8(d@)) && digest_matches(
            password.spec_bytes(),
            encode_utf8(d@),
        ),
        r matches Err(e) ==> e == AuthError::HashingFailed,
{
    hashing::hash_password(password)
}

/// Verify that `password` is the plaintext behind `hash`: `Ok(())` exactly on
/// a match, `AuthenticationFailed` on a mismatch, `MalformedDigest` when the
/// digest cannot be parsed.
pub fn verify_password(password: &str, hash: &str) -> (r: Result<(), AuthError>)
    ensures
        r == (match verify_outcome(password.spec_bytes(), hash.spec_bytes()) {
            Ok(true) => Ok::<(), AuthError>(()),
            Ok(false) => Err::<(), AuthError>(AuthError::AuthenticationFailed),
            Err(e) => Err::<(), AuthError>(e),
        }),
{
    match hashing::verify_password(password, hash) {
        Ok(true) => Ok(()),
        Ok(false) => Err(AuthError::AuthenticationFailed),
        Err(e) => Err(e),
    }
}

} // verus!
