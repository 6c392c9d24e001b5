use vstd::prelude::*;
use vstd::string::StringSliceAdditionalSpecFns;
use vstd::utf8::{encode_utf8, is_ascii_chars, is_ascii_chars_encode_utf8};
use crate::errors::AuthError;
use crate::base64url::{b64_encode_seq, b64_decode_seq, is_b64_byte, b64_encode_into, b64_decode,
    lemma_b64_encode_alphabet};
use crate::text::{bytes_eq, json_plain, string_from_utf8,
    lemma_ascii_bytes_valid_utf8};
use crate::token_format::{ClaimsView, claims_wf, ser_claims, spec_parse_claims, header_bytes,
    spec_parse_header_alg, hs256, ser_claims_bytes, parse_claims_bytes, header_bytes_exec,
    parse_header_alg, lemma_parse_ser_claims, lemma_parse_header};

verus! {

// Bearer tokens: three unpadded base64url segments joined by `.` — the fixed
// header, the serialized claims, and an HMAC-SHA256 signature over the first
// two segments under a single symmetric key. The signing algorithm is pinned
// at HS256; it is never read from caller input.

/// How long a freshly minted token stays valid, in seconds.
pub const TOKEN_LIFETIME_SECONDS: u64 = 3600;

/// The issuer written into every minted token, as bytes.
pub open spec fn issuer_bytes() -> Seq<u8> {
    seq![
        'b' as u8,
        'i' as u8,
        't' as u8,
        'c' as u8,
        'a' as u8,
        's' as u8,
        'i' as u8,
        'n' as u8,
        'o' as u8,
        '.' as u8,
        'b' as u8,
        'i' as u8,
        'g' as u8,
        'd' as u8,
        'e' as u8,
        'v' as u8,
        'd' as u8,
        'o' as u8,
        'g' as u8,
        '.' as u8,
        'c' as u8,
        'o' as u8,
        'm' as u8,
    ]
}

/// The issuer, as a string.
pub fn issuer_string() -> (r: String)
    ensures
        encode_utf8(r@) == issuer_bytes(),
{
    let s = "bitcasino.bigdevdog.com";
    proof {
        reveal_strlit("bitcasino.bigdevdog.com");
        assert(is_ascii_chars(s@));
        is_ascii_chars_encode_utf8(s@);
        assert(s.spec_bytes() =~= issuer_bytes());
    }
    s.to_owned()
}

/// The unique inputs required for creating a new authentication token.
pub struct AuthnTokenReqs {
    pub id: String,
    pub username: String,
    pub email: String,
}

impl AuthnTokenReqs {
    pub fn new(id: String, username: String, email: String) -> (r: Self)
        ensures
            r.id == id,
            r.username == username,
            r.email == email,
    {
        AuthnTokenReqs { id, username, email }
    }
}

/// The full payload of an authentication token.
#[derive(Debug)]
pub struct AuthnTokenPayload {
    pub sub: String,
    pub username: String,
    pub email: String,
    pub iat: u64,
    pub exp: u64,
    pub iss: String,
    pub nbf: u64,
}

impl View for AuthnTokenPayload {
    type V = ClaimsView;

    open spec fn view(&self) -> ClaimsView {
        ClaimsView {
            sub: encode_utf8(self.sub@),
            username: encode_utf8(self.username@),
            email: encode_utf8(self.email@),
            iat: self.iat,
            exp: self.exp,
            iss: encode_utf8(self.iss@),
            nbf: self.nbf,
        }
    }
}

/// The claims a fresh token carries: not-before equals issued-at, expiry is
/// issued-at plus the token lifetime, and the issuer is this deployment's
/// fixed issuer string.
pub open spec fn mint_claims(id: Seq<u8>, username: Seq<u8>, email: Seq<u8>, now: u64) -> ClaimsView {
    ClaimsView {
        sub: id,
        username: username,
        email: email,
        iat: now,
        exp: (now + TOKEN_LIFETIME_SECONDS) as u64,
        iss: issuer_bytes(),
        nbf: now,
    }
}

/// The requirement strings lie in the claim alphabet the codec serializes.
pub open spec fn reqs_wf(reqs: AuthnTokenReqs) -> bool {
    json_plain(encode_utf8(reqs.id@)) && json_plain(encode_utf8(reqs.username@)) && json_plain(
        encode_utf8(reqs.email@),
    )
}

impl AuthnTokenPayload {
    /// Create a payload valid for `TOKEN_LIFETIME_SECONDS` from `now` on.
    fn new(reqs: AuthnTokenReqs, now: u64) -> (r: Self)
        requires
            now + TOKEN_LIFETIME_SECONDS <= u64::MAX,
        ensures
            r@ == mint_claims(
                encode_utf8(reqs.id@),
                encode_utf8(reqs.username@),
                encode_utf8(reqs.email@),
                now,
            ),
    {
        AuthnTokenPayload {
            sub: reqs.id,
            username: reqs.username,
            email: reqs.email,
            iat: now,
            nbf: now,
            exp: now + TOKEN_LIFETIME_SECONDS,
            iss: issuer_string(),
        }
    }
}

/// A decoded token: the claims it was found to carry.
#[derive(Debug)]
pub struct TokenData {
    pub claims: AuthnTokenPayload,
}

/// The HMAC-SHA256 tag of `message` under `key`: computed only by the
/// outside crypto routines, named here so that contracts can speak of it.
pub uninterp spec fn hmac_sha256(key: Seq<u8>, message: Seq<u8>) -> Seq<u8>;

/// Relies on jsonwebtoken's `crypto::sign` with `Algorithm::HS256` and a key
/// from `EncodingKey::from_secret`: the returned text is the unpadded
/// base64url encoding of the message's HMAC-SHA256 tag under the key. The
/// call cannot fail for this algorithm and key kind — the HS256 signer
/// factory rejects only a non-HMAC key family, HMAC accepts every key
/// length, and signing itself is infallible — so the result is total.
#[verifier::external_body]
fn hmac_sign_b64(key: &[u8], message: &[u8]) -> (r: String)
    ensures
        encode_utf8(r@) == b64_encode_seq(hmac_sha256(key@, message@)),
{
    let k = jsonwebtoken::EncodingKey::from_secret(key);
    jsonwebtoken::crypto::sign(message, &k, jsonwebtoken::Algorithm::HS256)
        .expect("HMAC-SHA256 signing over a secret key cannot fail")
}

/// Relies on jsonwebtoken's `crypto::verify` with `Algorithm::HS256` and a
/// key from `DecodingKey::from_secret`: it accepts exactly the unpadded
/// base64url encoding (strict, no padding, no stray trailing bits) of the
/// message's HMAC-SHA256 tag under the key, comparing tags in constant time.
#[verifier::external_body]
fn hmac_verify_b64(signature: &[u8], message: &[u8], key: &[u8]) -> (r: bool)
    ensures
        r == (signature@ == b64_encode_seq(hmac_sha256(key@, message@))),
{
    let sig = match std::str::from_utf8(signature) {
        Ok(s) => s,
        Err(_) => {
            return false;
        },
    };
    let k = jsonwebtoken::DecodingKey::from_secret(key);
    jsonwebtoken::crypto::verify(sig, message, &k, jsonwebtoken::Algorithm::HS256).unwrap_or(false)
}

pub open spec fn dot() -> Seq<u8> {
    seq!['.' as u8]
}

/// The part of a token that is signed: the encoded header and the encoded
/// claims, joined by a dot.
pub open spec fn signing_input(c: ClaimsView) -> Seq<u8> {
    b64_encode_seq(header_bytes()) + (dot() + b64_encode_seq(ser_claims(c)))
}

/// The full token minted for claims `c` under `key`.
pub open spec fn token_bytes(c: ClaimsView, key: Seq<u8>) -> Seq<u8> {
    signing_input(c) + (dot() + b64_encode_seq(hmac_sha256(key, signing_input(c))))
}

/// The position of the first dot at or after `i`, or the length when there is
/// none.
pub open spec fn first_dot(t: Seq<u8>, i: int) -> int
    decreases t.len() - i,
    when 0 <= i <= t.len()
{
    if i >= t.len() {
        t.len() as int
    } else if t[i] == 0x2e {
        i
    } else {
        first_dot(t, i + 1)
    }
}

/// Everything a presented token is checked against, in order: structure
/// (three segments, each side of the signature canonical base64url), the
/// signature under the pinned key, the declared algorithm, and the temporal
/// bounds against `now`. The claims are trusted only after the signature has
/// been verified; the algorithm is pinned and never taken from the token.
pub open spec fn decode_outcome(t: Seq<u8>, key: Seq<u8>, now: u64) -> Result<ClaimsView, AuthError> {
    let n = t.len() as int;
    let d1 = first_dot(t, 0);
    if d1 == n {
        Err(AuthError::MalformedToken)
    } else {
        let d2 = first_dot(t, d1 + 1);
        if d2 == n {
            Err(AuthError::MalformedToken)
        } else if first_dot(t, d2 + 1) != n {
            Err(AuthError::MalformedToken)
        } else {
            match (b64_decode_seq(t.subrange(0, d1)), b64_decode_seq(t.subrange(d1 + 1, d2))) {
                (Some(hb), Some(pb)) => if t.skip(d2 + 1) != b64_encode_seq(
                    hmac_sha256(key, t.subrange(0, d2)),
                ) {
                    Err(AuthError::SignatureInvalid)
                } else {
                    match spec_parse_header_alg(hb) {
                        None => Err(AuthError::MalformedToken),
                        Some(alg) => if alg != hs256() {
                            Err(AuthError::AlgorithmMismatch)
                        } else {
                            match spec_parse_claims(pb) {
                                None => Err(AuthError::MalformedToken),
                                Some(c) => if now >= c.exp {
                                    Err(AuthError::TokenExpired)
                                } else if now < c.nbf {
                                    Err(AuthError::TokenNotYetValid)
                                } else {
                                    Ok(c)
                                },
                            }
                        },
                    }
                },
                _ => Err(AuthError::MalformedToken),
            }
        }
    }
}

/// The first dot at or after `i` of `s`, or the length when there is none.
fn find_dot(s: &[u8], i: usize) -> (r: usize)
    requires
        i <= s@.len(),
    ensures
        r == first_dot(s@, i as int),
        i <= r <= s@.len(),
{
    let n = s.len();
    let mut j: usize = i;
    loop
        invariant
            i <= j <= n,
            n == s@.len(),
            first_dot(s@, i as int) == first_dot(s@, j as int),
        ensures
            i <= j <= n,
            first_dot(s@, i as int) == j,
        decreases n - j,
    {
        if j >= n {
            break;
        }
        if s[j] == 0x2e {
            break;
        }
        j += 1;
    }
    j
}

/// Mint a token for the given payload under `secret`. This never fails: the
/// pinned signing primitive is total for a secret key, so success is owed on
/// every call.
pub fn encode_payload(payload: &AuthnTokenPayload, secret: &[u8]) -> (r: Result<String, AuthError>)
    ensures
        r matches Ok(t) && encode_utf8(t@) == token_bytes(payload@, secret@),
{
    let hb = header_bytes_exec();
    let pb = ser_claims_bytes(
        payload.sub.as_str(),
        payload.username.as_str(),
        payload.email.as_str(),
        payload.iat,
        payload.exp,
        payload.iss.as_str(),
        payload.nbf,
    );
    let mut msg: Vec<u8> = Vec::new();
    b64_encode_into(&mut msg, hb.as_slice());
    msg.push('.' as u8);
    b64_encode_into(&mut msg, pb.as_slice());
    proof {
        assert(msg@ =~= signing_input(payload@));
    }
    let sig = hmac_sign_b64(secret, msg.as_slice());
    let mut out = msg;
    out.push('.' as u8);
    out.extend_from_slice(sig.as_str().as_bytes());
    proof {
        assert(out@ =~= token_bytes(payload@, secret@));
        lemma_b64_encode_alphabet(header_bytes());
        lemma_b64_encode_alphabet(ser_claims(payload@));
        lemma_b64_encode_alphabet(hmac_sha256(secret@, signing_input(payload@)));
        assert forall|i: int| 0 <= i < out@.len() implies out@[i] < 0x80 by {
            let si = signing_input(payload@);
            let hlen = b64_encode_seq(header_bytes()).len() as int;
            let plen = b64_encode_seq(ser_claims(payload@)).len() as int;
            if i < si.len() {
                assert(out@[i] == si[i]);
                if i < hlen {
                    assert(si[i] == b64_encode_seq(header_bytes())[i]);
                } else if i == hlen {
                    assert(si[i] == 0x2e);
                } else {
                    assert(si[i] == b64_encode_seq(ser_claims(payload@))[i - hlen - 1]);
                }
            } else if i == si.len() {
                assert(out@[i] == 0x2e);
            } else {
                assert(out@[i] == b64_encode_seq(hmac_sha256(secret@, si))[i - si.len() - 1]);
            }
        }
        lemma_ascii_bytes_valid_utf8(out@);
    }
    Ok(string_from_utf8(out))
}

/// Encode a fresh authentication token for `reqs`, valid for
/// `TOKEN_LIFETIME_SECONDS` from `now` on. This never fails: the pinned
/// signing primitive is total for a secret key.
pub fn encode_authn_token(reqs: AuthnTokenReqs, secret: &[u8], now: u64) -> (r: Result<
    String,
    AuthError,
>)
    requires
        now + TOKEN_LIFETIME_SECONDS <= u64::MAX,
        reqs_wf(reqs),
    ensures
        r matches Ok(t) && encode_utf8(t@) == token_bytes(
            mint_claims(
                encode_utf8(reqs.id@),
                encode_utf8(reqs.username@),
                encode_utf8(reqs.email@),
                now,
            ),
            secret@,
        ),
{
    let payload = AuthnTokenPayload::new(reqs, now);
    encode_payload(&payload, secret)
}

/// Decode and validate a presented token against `secret` and the clock
/// reading `now`; exactly `decode_outcome`.
pub fn decode_authn_token(token: String, secret: &[u8], now: u64) -> (r: Result<
    TokenData,
    AuthError,
>)
    ensures
        match r {
            Ok(d) => decode_outcome(encode_utf8(token@), secret@, now) == Ok::<
                ClaimsView,
                AuthError,
            >(d.claims@),
            Err(e) => decode_outcome(encode_utf8(token@), secret@, now) == Err::<
                ClaimsView,
                AuthError,
            >(e),
        },
{
    let s: &[u8] = token.as_str().as_bytes();
    let n = s.len();
    let d1 = find_dot(s, 0);
    if d1 == n {
        return Err(AuthError::MalformedToken);
    }
    let d2 = find_dot(s, d1 + 1);
    if d2 == n {
        return Err(AuthError::MalformedToken);
    }
    if find_dot(s, d2 + 1) != n {
        return Err(AuthError::MalformedToken);
    }
    let hb = match b64_decode(&s[0..d1]) {
        Some(v) => v,
        None => {
            return Err(AuthError::MalformedToken);
        },
    };
    let pb = match b64_decode(&s[d1 + 1..d2]) {
        Some(v) => v,
        None => {
            return Err(AuthError::MalformedToken);
        },
    };
    if !hmac_verify_b64(&s[d2 + 1..n], &s[0..d2], secret) {
        return Err(AuthError::SignatureInvalid);
    }
    let alg = match parse_header_alg(hb.as_slice()) {
        Some(a) => a,
        None => {
            return Err(AuthError::MalformedToken);
        },
    };
    let hs: [u8; 5] = ['H' as u8, 'S' as u8, '2' as u8, '5' as u8, '6' as u8];
    proof {
        assert(hs@ =~= hs256());
    }
    if !bytes_eq(alg.as_slice(), &hs) {
        return Err(AuthError::AlgorithmMismatch);
    }
    let parsed = match parse_claims_bytes(pb.as_slice()) {
        Some(p) => p,
        None => {
            return Err(AuthError::MalformedToken);
        },
    };
    let (sub_b, username_b, email_b, iat, exp, iss_b, nbf) = parsed;
    if now >= exp {
        return Err(AuthError::TokenExpired);
    }
    if now < nbf {
        return Err(AuthError::TokenNotYetValid);
    }
    proof {
        crate::token_format::lemma_parse_claims_fields_plain(pb@);
        lemma_json_plain_valid_utf8(sub_b@);
        lemma_json_plain_valid_utf8(username_b@);
        lemma_json_plain_valid_utf8(email_b@);
        lemma_json_plain_valid_utf8(iss_b@);
    }
    let claims = AuthnTokenPayload {
        sub: string_from_utf8(sub_b),
        username: string_from_utf8(username_b),
        email: string_from_utf8(email_b),
        iat,
        exp,
        iss: string_from_utf8(iss_b),
        nbf,
    };
    Ok(TokenData { claims })
}

/// A byte string of the claim alphabet is valid UTF-8.
proof fn lemma_json_plain_valid_utf8(b: Seq<u8>)
    requires
        json_plain(b),
    ensures
        vstd::utf8::valid_utf8(b),
{
    lemma_ascii_bytes_valid_utf8(b);
}

// ------------------------------------------------------------------
// Laws of the token codec.
// ------------------------------------------------------------------

/// A token assembled from a header, a payload and the signature segment that
/// signs them under `key`.
pub open spec fn assemble_token(hdr: Seq<u8>, pld: Seq<u8>, key: Seq<u8>) -> Seq<u8> {
    b64_encode_seq(hdr) + (dot() + b64_encode_seq(pld)) + (dot() + b64_encode_seq(
        hmac_sha256(key, b64_encode_seq(hdr) + (dot() + b64_encode_seq(pld))),
    ))
}

/// No byte of the base64url alphabet is a dot.
proof fn lemma_b64_no_dot(a: Seq<u8>)
    ensures
        forall|i: int|
            0 <= i < b64_encode_seq(a).len() ==> #[trigger] b64_encode_seq(a)[i] != 0x2e,
{
    lemma_b64_encode_alphabet(a);
    assert forall|i: int| 0 <= i < b64_encode_seq(a).len() implies #[trigger] b64_encode_seq(a)[i]
        != 0x2e by {
        assert(is_b64_byte(b64_encode_seq(a)[i]));
    }
}

/// The first dot after a dot-free region followed by a dot sits right after
/// the region.
proof fn lemma_first_dot_after(t: Seq<u8>, i: int, a: Seq<u8>, rest: Seq<u8>)
    requires
        0 <= i <= t.len(),
        t.skip(i) == a + (dot() + rest),
        forall|k: int| 0 <= k < a.len() ==> #[trigger] a[k] != 0x2e,
    ensures
        first_dot(t, i) == i + a.len(),
        t.skip(i + a.len() + 1) =~= rest,
        i + a.len() < t.len(),
    decreases a.len(),
{
    assert(t.skip(i).len() == t.len() - i);
    assert(t[i] == t.skip(i)[0]);
    if a.len() == 0 {
        assert(t.skip(i)[0] == (dot() + rest)[0]);
        assert(t[i] == 0x2e);
        assert(t.skip(i + 1) =~= t.skip(i).skip(1));
        assert(t.skip(i).skip(1) =~= rest);
    } else {
        assert(t.skip(i)[0] == a[0]);
        assert(t[i] != 0x2e);
        assert(t.skip(i + 1) =~= t.skip(i).skip(1));
        assert(t.skip(i).skip(1) =~= a.skip(1) + (dot() + rest));
        lemma_first_dot_after(t, i + 1, a.skip(1), rest);
    }
}

/// A dot-free remainder has no further dot.
proof fn lemma_first_dot_none(t: Seq<u8>, i: int, a: Seq<u8>)
    requires
        0 <= i <= t.len(),
        t.skip(i) == a,
        forall|k: int| 0 <= k < a.len() ==> #[trigger] a[k] != 0x2e,
    ensures
        first_dot(t, i) == t.len(),
    decreases a.len(),
{
    assert(t.skip(i).len() == t.len() - i);
    if a.len() > 0 {
        assert(t[i] == t.skip(i)[0]);
        assert(t[i] != 0x2e);
        assert(t.skip(i + 1) =~= t.skip(i).skip(1));
        assert(t.skip(i).skip(1) =~= a.skip(1));
        lemma_first_dot_none(t, i + 1, a.skip(1));
    }
}

/// How an assembled token decodes, stage by stage: its structure always
/// passes; then the signature, the declared algorithm, the payload shape and
/// the temporal bounds are judged in order.
#[verifier::rlimit(100)]
proof fn lemma_decode_assembled(hdr: Seq<u8>, pld: Seq<u8>, mint_key: Seq<u8>, key: Seq<u8>, now: u64)
    ensures
        decode_outcome(assemble_token(hdr, pld, mint_key), key, now) == (if hmac_sha256(
            key,
            b64_encode_seq(hdr) + (dot() + b64_encode_seq(pld)),
        ) != hmac_sha256(mint_key, b64_encode_seq(hdr) + (dot() + b64_encode_seq(pld))) {
            Err::<ClaimsView, AuthError>(AuthError::SignatureInvalid)
        } else {
            match spec_parse_header_alg(hdr) {
                None => Err::<ClaimsView, AuthError>(AuthError::MalformedToken),
                Some(alg) => if alg != hs256() {
                    Err::<ClaimsView, AuthError>(AuthError::AlgorithmMismatch)
                } else {
                    match spec_parse_claims(pld) {
                        None => Err::<ClaimsView, AuthError>(AuthError::MalformedToken),
                        Some(c) => if now >= c.exp {
                            Err::<ClaimsView, AuthError>(AuthError::TokenExpired)
                        } else if now < c.nbf {
                            Err::<ClaimsView, AuthError>(AuthError::TokenNotYetValid)
                        } else {
                            Ok::<ClaimsView, AuthError>(c)
                        },
                    }
                },
            }
        }),
{
    let h = b64_encode_seq(hdr);
    let p = b64_encode_seq(pld);
    let msg = h + (dot() + p);
    let g = b64_encode_seq(hmac_sha256(mint_key, msg));
    let t = assemble_token(hdr, pld, mint_key);
    lemma_b64_no_dot(hdr);
    lemma_b64_no_dot(pld);
    lemma_b64_no_dot(hmac_sha256(mint_key, msg));
    assert(t.skip(0) =~= h + (dot() + (p + (dot() + g))));
    lemma_first_dot_after(t, 0, h, p + (dot() + g));
    let d1 = h.len() as int;
    lemma_first_dot_after(t, d1 + 1, p, g);
    let d2 = d1 + 1 + p.len() as int;
    lemma_first_dot_none(t, d2 + 1, g);
    assert(t.subrange(0, d1) =~= t.skip(0).take(d1));
    assert(t.skip(0).take(d1) =~= h);
    assert(t.subrange(d1 + 1, d2) =~= t.skip(d1 + 1).take(p.len() as int));
    assert(t.skip(d1 + 1).take(p.len() as int) =~= p);
    assert(t.subrange(0, d2) =~= msg);
    crate::base64url::lemma_b64_decode_encode(hdr);
    crate::base64url::lemma_b64_decode_encode(pld);
    if hmac_sha256(key, msg) != hmac_sha256(mint_key, msg) {
        crate::base64url::lemma_b64_decode_encode(hmac_sha256(key, msg));
        crate::base64url::lemma_b64_decode_encode(hmac_sha256(mint_key, msg));
        assert(g != b64_encode_seq(hmac_sha256(key, msg)));
    }
}

/// Law: a minted token presented to the same key decodes to exactly the
/// minted claims while `now` lies inside its validity window; a token whose
/// expiry has passed fails with `TokenExpired`; one whose not-before time is
/// still ahead fails with `TokenNotYetValid`. Expiry is judged first.
pub proof fn lemma_decode_after_encode(c: ClaimsView, key: Seq<u8>, now: u64)
    requires
        claims_wf(c),
    ensures
        decode_outcome(token_bytes(c, key), key, now) == (if now >= c.exp {
            Err::<ClaimsView, AuthError>(AuthError::TokenExpired)
        } else if now < c.nbf {
            Err::<ClaimsView, AuthError>(AuthError::TokenNotYetValid)
        } else {
            Ok::<ClaimsView, AuthError>(c)
        }),
{
    lemma_decode_assembled(header_bytes(), ser_claims(c), key, key, now);
    lemma_parse_header();
    lemma_parse_ser_claims(c);
    assert(token_bytes(c, key) =~= assemble_token(header_bytes(), ser_claims(c), key));
}

/// Law: a token minted under one key and presented to another fails with
/// `SignatureInvalid` whenever the two keys give the signing input different
/// tags (with equal tags the keys are indistinguishable by construction).
pub proof fn lemma_decode_wrong_key(c: ClaimsView, mint_key: Seq<u8>, key: Seq<u8>, now: u64)
    requires
        claims_wf(c),
        hmac_sha256(key, signing_input(c)) != hmac_sha256(mint_key, signing_input(c)),
    ensures
        decode_outcome(token_bytes(c, mint_key), key, now) == Err::<ClaimsView, AuthError>(
            AuthError::SignatureInvalid,
        ),
{
    lemma_decode_assembled(header_bytes(), ser_claims(c), mint_key, key, now);
    assert(token_bytes(c, mint_key) =~= assemble_token(header_bytes(), ser_claims(c), mint_key));
    assert(signing_input(c) == b64_encode_seq(header_bytes()) + (dot() + b64_encode_seq(
        ser_claims(c),
    )));
}

/// Law: a correctly signed token whose header declares any algorithm other
/// than the pinned one fails with `AlgorithmMismatch`; it is never decoded as
/// trusted, whatever its payload.
pub proof fn lemma_decode_algorithm_mismatch(
    hdr: Seq<u8>,
    pld: Seq<u8>,
    key: Seq<u8>,
    now: u64,
)
    requires
        spec_parse_header_alg(hdr) matches Some(alg) && alg != hs256(),
    ensures
        decode_outcome(assemble_token(hdr, pld, key), key, now) == Err::<ClaimsView, AuthError>(
            AuthError::AlgorithmMismatch,
        ),
{
    lemma_decode_assembled(hdr, pld, key, key, now);
}


} // verus!
