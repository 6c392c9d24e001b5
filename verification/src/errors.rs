use vstd::prelude::*;

verus! {

/// Every failure kind this crate can produce.
///
/// The password and token kinds are fine-grained so that internal logic can
/// branch on them; the orchestrating handlers fold them into the small set of
/// externally visible kinds (`AuthenticationFailed`, `Unauthorized`, ...) so a
/// caller cannot tell which individual check failed.
#[derive(Clone, Copy, Debug, PartialEq, Eq, Structural)]
pub enum AuthError {
    /// The password hashing primitive failed: only a password beyond the
    /// algorithm's documented four-gigabyte limit reaches this.
    HashingFailed,
    /// A stored password digest could not be parsed or uses an unsupported
    /// algorithm tag.
    MalformedDigest,
    /// The token signing primitive failed. Part of the design's error
    /// vocabulary; the pinned HMAC signer is total over secret keys, so this
    /// crate never actually produces it.
    SigningFailed,
    /// A token's signature does not match the pinned key.
    SignatureInvalid,
    /// A token declares a signing algorithm other than the pinned one.
    AlgorithmMismatch,
    /// A token's expiry time is not in the future.
    TokenExpired,
    /// A token's not-before time is in the future.
    TokenNotYetValid,
    /// A token's structure cannot be parsed.
    MalformedToken,
    /// No `Authorization` header is present.
    HeaderMissing,
    /// The `Authorization` header value is not representable as text.
    HeaderMalformed,
    /// The `Authorization` header value does not start with `"Bearer "`.
    PrefixMissing,
    /// Credentials did not authenticate (unknown user, wrong password, or an
    /// unreadable stored digest; deliberately indistinguishable).
    AuthenticationFailed,
    /// A token could not be minted for an authenticated user (server fault).
    TokenCreationFailed,
    /// A new record collides with an existing username or email.
    Conflict,
    /// No stored record matches the presented identity.
    NotFound,
    /// A bearer token could not be extracted or validated.
    Unauthorized,
    /// The account was created but the downstream provisioning call failed.
    DependentProvisioningFailed,
}

} // verus!
