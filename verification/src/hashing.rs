use vstd::prelude::*;
use vstd::string::StringSliceAdditionalSpecFns;
use vstd::utf8::encode_utf8;
use crate::errors::AuthError;
use argon2::PasswordHasher;
use argon2::PasswordVerifier;

verus! {

// Password digests: a plaintext password is run through Argon2 with default
// cost parameters and a fresh random salt, and stored as a self-describing
// PHC-format string. Verification re-derives the digest with the stored
// parameters and compares in constant time (the comparison lives inside the
// outside crate).

/// Whether `digest` is a PHC string that the verifier can parse and whose
/// algorithm and parameters it supports. Decided only by the outside crate;
/// named here so that contracts can speak of it.
pub uninterp spec fn digest_well_formed(digest: Seq<u8>) -> bool;

/// Whether the digest stored in `digest` equals the digest re-derived from
/// `password` under the salt and parameters that `digest` carries. Decided
/// only by the outside crate; a function of the two arguments alone.
pub uninterp spec fn digest_matches(password: Seq<u8>, digest: Seq<u8>) -> bool;

/// Relies on argon2's `hash_password` over a salt from
/// `SaltString::generate(OsRng)`: on success the digest is the PHC string of
/// the freshly derived hash, so the crate's own `PasswordHash::new` parses it
/// and `verify_password` re-derives the same bytes for the same password.
/// The only input the call rejects is a password longer than the algorithm's
/// documented four-gigabyte limit; within it, hashing succeeds on every byte
/// string. (A failure of the operating system's randomness source aborts
/// inside the salt draw — an environmental fault, reached by no input.)
#[verifier::external_body]
fn argon2_hash(password: &str) -> (r: Option<String>)
    ensures
        password.spec_bytes().len() <= u32::MAX ==> r is Some,
        r matches Some(d) ==> digest_well_formed(encode_utf8(d@)) && digest_matches(
            password.spec_bytes(),
            encode_utf8(d@),
        ),
{
    let salt = argon2::password_hash::SaltString::generate(
        &mut argon2::password_hash::rand_core::OsRng,
    );
    match argon2::Argon2::default().hash_password(password.as_bytes(), &salt) {
        Ok(hash) => Some(hash.to_string()),
        Err(_) => None,
    }
}

/// Relies on argon2's `PasswordHash::new` and `verify_password`: the digest
/// is parsed, the digest bytes are re-derived from the password under the
/// digest's own salt and parameters, and the two are compared in constant
/// time. `Err(Error::Password)` comes only from a digest that parses — a
/// failed comparison, or a parsed digest without salt or output, which
/// matches nothing; every other error means the digest could not be parsed or
/// names an unsupported algorithm or parameters.
#[verifier::external_body]
fn argon2_verify(password: &str, digest: &str) -> (r: Result<bool, AuthError>)
    ensures
        r == (if digest_well_formed(digest.spec_bytes()) {
            Ok::<bool, AuthError>(
                digest_matches(password.spec_bytes(), digest.spec_bytes()),
            )
        } else {
            Err::<bool, AuthError>(AuthError::MalformedDigest)
        }),
{
    let parsed = match argon2::password_hash::PasswordHash::new(digest) {
        Ok(p) => p,
        Err(_) => {
            return Err(AuthError::MalformedDigest);
        },
    };
    match argon2::Argon2::default().verify_password(password.as_bytes(), &parsed) {
        Ok(()) => Ok(true),
        Err(argon2::password_hash::Error::Password) => Ok(false),
        Err(_) => Err(AuthError::MalformedDigest),
    }
}

/// What verifying `password` against `digest` returns, for every input.
pub open spec fn verify_outcome(password: Seq<u8>, digest: Seq<u8>) -> Result<bool, AuthError> {
    if digest_well_formed(digest) {
        Ok(digest_matches(password, digest))
    } else {
        Err(AuthError::MalformedDigest)
    }
}

/// Hashes a raw password using Argon2 and a randomly generated salt, giving a
/// digest in PHC string format. Succeeds on every byte string — empty or
/// multi-byte included — up to the algorithm's documented four-gigabyte
/// limit; beyond it, and only there, it fails with `HashingFailed`.
pub fn hash_password(password: &str) -> (r: Result<String, AuthError>)
    ensures
        password.spec_bytes().len() <= u32::MAX ==> r is Ok,
        r matches Ok(d) ==> digest_well_formed(encode_utf8(d@)) && digest_matches(
            password.spec_bytes(),
            encode_utf8(d@),
        ),
        r matches Err(e) ==> e == AuthError::HashingFailed,
{
    match argon2_hash(password) {
        Some(d) => Ok(d),
        None => Err(AuthError::HashingFailed),
    }
}

/// Verify that a raw password matches the provided digest: `Ok(true)` on a
/// match, `Ok(false)` on a mismatch, `MalformedDigest` when the digest cannot
/// be parsed.
pub fn verify_password(password: &str, hash: &str) -> (r: Result<bool, AuthError>)
    ensures
        r == verify_outcome(password.spec_bytes(), hash.spec_bytes()),
{
    argon2_verify(password, hash)
}

/// Law: a password verifies against any digest freshly derived from it — the
/// two clauses of `hash_password`'s contract pin `verify_outcome` to
/// `Ok(true)`.
pub proof fn lemma_verify_after_hash(password: Seq<u8>, digest: Seq<u8>)
    requires
        digest_well_formed(digest),
        digest_matches(password, digest),
    ensures
        verify_outcome(password, digest) == Ok::<bool, AuthError>(true),
{
}

/// Law: a password that does not match a digest verifies as false — never as
/// true, never as an error. (That two different passwords never match one
/// digest is the hash function's collision resistance, which no contract
/// here states; only this direction is provable.)
pub proof fn lemma_verify_mismatch(password: Seq<u8>, digest: Seq<u8>)
    requires
        digest_well_formed(digest),
        !digest_matches(password, digest),
    ensures
        verify_outcome(password, digest) == Ok::<bool, AuthError>(false),
{
}

/// Law: verifying any password against a digest that does not parse fails
/// with `MalformedDigest` — it never passes, whatever the password.
pub proof fn lemma_verify_malformed(password: Seq<u8>, digest: Seq<u8>)
    requires
        !digest_well_formed(digest),
    ensures
        verify_outcome(password, digest) == Err::<bool, AuthError>(AuthError::MalformedDigest),
{
}

} // verus!
