use vstd::prelude::*;
use vstd::string::StringSliceAdditionalSpecFns;
use crate::text::{is_digit, json_plain, json_plain_byte};
use crate::numeric::{dec_rep, spec_parse_u64, lemma_parse_dec_rep, lemma_dec_rep_shape,
    push_decimal, parse_u64};

verus! {

// A bearer token's payload is a flat JSON object with a fixed field order:
//
//     {"sub":S,"username":U,"email":E,"iat":I,"exp":X,"iss":Q,"nbf":N}
//
// where the string fields hold plain printable ASCII (no quotation mark, no
// backslash, so no escapes are ever needed), and the timestamps are canonical
// decimals. The header is `{"alg":"HS256","typ":"JWT"}`; foreign headers are
// read only far enough to learn the declared algorithm.

/// The ghost shape of a token payload: the string fields as byte strings, the
/// timestamps as integers.
pub ghost struct ClaimsView {
    pub sub: Seq<u8>,
    pub username: Seq<u8>,
    pub email: Seq<u8>,
    pub iat: u64,
    pub exp: u64,
    pub iss: Seq<u8>,
    pub nbf: u64,
}

/// The string fields lie in the claim alphabet this codec serializes without
/// escaping.
pub open spec fn claims_wf(c: ClaimsView) -> bool {
    json_plain(c.sub) && json_plain(c.username) && json_plain(c.email) && json_plain(c.iss)
}

pub open spec fn lit_sub() -> Seq<u8> {
    seq![
        '{' as u8,
        '"' as u8,
        's' as u8,
        'u' as u8,
        'b' as u8,
        '"' as u8,
        ':' as u8,
        '"' as u8,
    ]
}

pub open spec fn lit_username() -> Seq<u8> {
    seq![
        ',' as u8,
        '"' as u8,
        'u' as u8,
        's' as u8,
        'e' as u8,
        'r' as u8,
        'n' as u8,
        'a' as u8,
        'm' as u8,
        'e' as u8,
        '"' as u8,
        ':' as u8,
        '"' as u8,
    ]
}

pub open spec fn lit_email() -> Seq<u8> {
    seq![
        ',' as u8,
        '"' as u8,
        'e' as u8,
        'm' as u8,
        'a' as u8,
        'i' as u8,
        'l' as u8,
        '"' as u8,
        ':' as u8,
        '"' as u8,
    ]
}

pub open spec fn lit_iat() -> Seq<u8> {
    seq![',' as u8, '"' as u8, 'i' as u8, 'a' as u8, 't' as u8, '"' as u8, ':' as u8]
}

pub open spec fn lit_exp() -> Seq<u8> {
    seq![',' as u8, '"' as u8, 'e' as u8, 'x' as u8, 'p' as u8, '"' as u8, ':' as u8]
}

pub open spec fn lit_iss() -> Seq<u8> {
    seq![',' as u8, '"' as u8, 'i' as u8, 's' as u8, 's' as u8, '"' as u8, ':' as u8, '"' as u8]
}

pub open spec fn lit_nbf() -> Seq<u8> {
    seq![',' as u8, '"' as u8, 'n' as u8, 'b' as u8, 'f' as u8, '"' as u8, ':' as u8]
}

pub open spec fn quote() -> Seq<u8> {
    seq!['"' as u8]
}

pub open spec fn rbrace() -> Seq<u8> {
    seq!['}' as u8]
}

/// The serialized payload of `c`, nested so that each piece is followed
/// directly by the remainder of the object.
pub open spec fn ser_claims(c: ClaimsView) -> Seq<u8> {
    lit_sub() + (c.sub + (quote() + (lit_username() + (c.username + (quote() + (lit_email() + (
    c.email + (quote() + (lit_iat() + (dec_rep(c.iat as nat) + (lit_exp() + (dec_rep(c.exp as nat)
        + (lit_iss() + (c.iss + (quote() + (lit_nbf() + (dec_rep(c.nbf as nat)
        + rbrace())))))))))))))))))
}

/// The one token header this codec ever writes.
pub open spec fn lit_alg() -> Seq<u8> {
    seq![
        '{' as u8,
        '"' as u8,
        'a' as u8,
        'l' as u8,
        'g' as u8,
        '"' as u8,
        ':' as u8,
        '"' as u8,
    ]
}

pub open spec fn lit_typ_tail() -> Seq<u8> {
    seq![
        ',' as u8,
        '"' as u8,
        't' as u8,
        'y' as u8,
        'p' as u8,
        '"' as u8,
        ':' as u8,
        '"' as u8,
        'J' as u8,
        'W' as u8,
        'T' as u8,
        '"' as u8,
        '}' as u8,
    ]
}

pub open spec fn hs256() -> Seq<u8> {
    seq!['H' as u8, 'S' as u8, '2' as u8, '5' as u8, '6' as u8]
}

pub open spec fn header_bytes() -> Seq<u8> {
    lit_alg() + (hs256() + (quote() + lit_typ_tail()))
}

/// `lit` stands verbatim at position `i` of `s`.
pub open spec fn spec_match_at(s: Seq<u8>, i: int, lit: Seq<u8>) -> bool {
    0 <= i && i + lit.len() <= s.len() && s.subrange(i, i + lit.len()) == lit
}

/// Scan a plain string body starting just after its opening quote: collect
/// bytes of the claim alphabet up to the closing quote; reject anything else
/// (an escape, a control byte, a missing quote).
pub open spec fn spec_scan_plain(s: Seq<u8>, i: int) -> Option<(Seq<u8>, int)>
    decreases s.len() - i,
{
    if 0 <= i < s.len() {
        if s[i] == 0x22 {
            Some((Seq::empty(), i + 1))
        } else if json_plain_byte(s[i]) {
            match spec_scan_plain(s, i + 1) {
                Some((t, j)) => Some((seq![s[i]] + t, j)),
                None => None,
            }
        } else {
            None
        }
    } else {
        None
    }
}

/// Parse a serialized payload: exactly the canonical shape this codec writes,
/// with nothing after the closing brace.
#[verifier::opaque]
pub open spec fn spec_parse_claims(s: Seq<u8>) -> Option<ClaimsView> {
    if !spec_match_at(s, 0, lit_sub()) {
        None
    } else {
        match spec_scan_plain(s, lit_sub().len() as int) {
            None => None,
            Some((sub, i1)) => if !spec_match_at(s, i1, lit_username()) {
                None
            } else {
                match spec_scan_plain(s, i1 + lit_username().len()) {
                    None => None,
                    Some((username, i2)) => if !spec_match_at(s, i2, lit_email()) {
                        None
                    } else {
                        match spec_scan_plain(s, i2 + lit_email().len()) {
                            None => None,
                            Some((email, i3)) => if !spec_match_at(s, i3, lit_iat()) {
                                None
                            } else {
                                match spec_parse_u64(s, i3 + lit_iat().len()) {
                                    None => None,
                                    Some((iat, i4)) => if !spec_match_at(s, i4, lit_exp()) {
                                        None
                                    } else {
                                        match spec_parse_u64(s, i4 + lit_exp().len()) {
                                            None => None,
                                            Some((exp, i5)) => if !spec_match_at(s, i5, lit_iss()) {
                                                None
                                            } else {
                                                match spec_scan_plain(s, i5 + lit_iss().len()) {
                                                    None => None,
                                                    Some((iss, i6)) => if !spec_match_at(
                                                        s,
                                                        i6,
                                                        lit_nbf(),
                                                    ) {
                                                        None
                                                    } else {
                                                        match spec_parse_u64(
                                                            s,
                                                            i6 + lit_nbf().len(),
                                                        ) {
                                                            None => None,
                                                            Some((nbf, i7)) => if i7 + 1 == s.len()
                                                                && s[i7] == 0x7d {
                                                                Some(
                                                                    ClaimsView {
                                                                        sub,
                                                                        username,
                                                                        email,
                                                                        iat,
                                                                        exp,
                                                                        iss,
                                                                        nbf,
                                                                    },
                                                                )
                                                            } else {
                                                                None
                                                            },
                                                        }
                                                    },
                                                }
                                            },
                                        }
                                    },
                                }
                            },
                        }
                    },
                }
            },
        }
    }
}

/// Parse a token header far enough to learn the algorithm it declares:
/// `{"alg":"<alg>"}` or `{"alg":"<alg>","typ":"JWT"}`, nothing after.
pub open spec fn spec_parse_header_alg(s: Seq<u8>) -> Option<Seq<u8>> {
    if !spec_match_at(s, 0, lit_alg()) {
        None
    } else {
        match spec_scan_plain(s, lit_alg().len() as int) {
            None => None,
            Some((alg, i)) => if i == s.len() - 1 && s[i] == 0x7d {
                Some(alg)
            } else if spec_match_at(s, i, lit_typ_tail()) && i + lit_typ_tail().len() == s.len() {
                Some(alg)
            } else {
                None
            },
        }
    }
}

// ------------------------------------------------------------------
// Round-trip lemmas: parsing what this codec serialized gives it back.
// ------------------------------------------------------------------

/// A literal standing at the front of the remainder is matched and consumed.
proof fn lemma_step_lit(s: Seq<u8>, i: int, lit: Seq<u8>, rest: Seq<u8>)
    requires
        0 <= i <= s.len(),
        s.skip(i) == lit + rest,
    ensures
        spec_match_at(s, i, lit),
        s.skip(i + lit.len()) =~= rest,
        i + lit.len() <= s.len(),
{
    assert(s.skip(i).len() == s.len() - i);
    assert(i + lit.len() + rest.len() == s.len());
    let l = lit.len() as int;
    assert(s.subrange(i, i + l) =~= s.skip(i).take(l));
    assert(s.skip(i).take(l) =~= lit);
    assert(s.skip(i + l) =~= s.skip(i).skip(l));
    assert(s.skip(i).skip(l) =~= rest);
}

/// A plain string body with its closing quote at the front of the remainder
/// scans to exactly that body.
proof fn lemma_step_qstr(s: Seq<u8>, i: int, content: Seq<u8>, rest: Seq<u8>)
    requires
        0 <= i <= s.len(),
        json_plain(content),
        s.skip(i) == content + (quote() + rest),
    ensures
        spec_scan_plain(s, i) == Some((content, i + content.len() + 1)),
        s.skip(i + content.len() + 1) =~= rest,
        i + content.len() + 1 <= s.len(),
    decreases content.len(),
{
    assert(s.skip(i).len() == s.len() - i);
    assert(i + content.len() + 1 + rest.len() == s.len());
    assert(s[i] == s.skip(i)[0]);
    if content.len() == 0 {
        assert(s.skip(i)[0] == (quote() + rest)[0]);
        assert(s[i] == 0x22);
        assert(spec_scan_plain(s, i) == Some((Seq::<u8>::empty(), i + 1)));
        assert(s.skip(i + 1) =~= s.skip(i).skip(1));
        assert(s.skip(i).skip(1) =~= rest);
        assert(content =~= Seq::<u8>::empty());
    } else {
        assert(s.skip(i)[0] == content[0]);
        assert(s[i] == content[0]);
        assert(json_plain_byte(content[0]));
        assert(s[i] != 0x22 && s[i] != 0x5c);
        assert(s.skip(i + 1) =~= s.skip(i).skip(1));
        assert(s.skip(i).skip(1) =~= content.skip(1) + (quote() + rest));
        lemma_step_qstr(s, i + 1, content.skip(1), rest);
        assert(seq![s[i]] + content.skip(1) =~= content);
    }
}

/// A canonical decimal at the front of the remainder, followed by a
/// non-digit, parses to its value.
proof fn lemma_step_num(s: Seq<u8>, i: int, n: u64, rest: Seq<u8>)
    requires
        0 <= i <= s.len(),
        s.skip(i) == dec_rep(n as nat) + rest,
        rest.len() > 0,
        !is_digit(rest[0]),
    ensures
        spec_parse_u64(s, i) == Some((n, i + dec_rep(n as nat).len())),
        s.skip(i + dec_rep(n as nat).len()) =~= rest,
        i + dec_rep(n as nat).len() <= s.len(),
{
    lemma_dec_rep_shape(n as nat);
    let l = dec_rep(n as nat).len() as int;
    assert(s.skip(i).len() == s.len() - i);
    assert(i + l + rest.len() == s.len());
    assert(s.subrange(i, i + l) =~= s.skip(i).take(l));
    assert(s.skip(i).take(l) =~= dec_rep(n as nat));
    assert(s[i + l] == s.skip(i)[l]);
    assert(s.skip(i)[l] == rest[0]);
    lemma_parse_dec_rep(s, i, n);
    assert(s.skip(i + l) =~= s.skip(i).skip(l));
    assert(s.skip(i).skip(l) =~= rest);
}

/// Assemble the parse result from the facts each step established.
proof fn lemma_assemble_claims(
    s: Seq<u8>,
    c: ClaimsView,
    i1: int,
    i2: int,
    i3: int,
    i4: int,
    i5: int,
    i6: int,
    i7: int,
)
    requires
        spec_match_at(s, 0, lit_sub()),
        spec_scan_plain(s, 8) == Some((c.sub, i1)),
        spec_match_at(s, i1, lit_username()),
        spec_scan_plain(s, i1 + 13) == Some((c.username, i2)),
        spec_match_at(s, i2, lit_email()),
        spec_scan_plain(s, i2 + 10) == Some((c.email, i3)),
        spec_match_at(s, i3, lit_iat()),
        spec_parse_u64(s, i3 + 7) == Some((c.iat, i4)),
        spec_match_at(s, i4, lit_exp()),
        spec_parse_u64(s, i4 + 7) == Some((c.exp, i5)),
        spec_match_at(s, i5, lit_iss()),
        spec_scan_plain(s, i5 + 8) == Some((c.iss, i6)),
        spec_match_at(s, i6, lit_nbf()),
        spec_parse_u64(s, i6 + 7) == Some((c.nbf, i7)),
        i7 + 1 == s.len(),
        s[i7] == 0x7d,
    ensures
        spec_parse_claims(s) == Some(c),
{
    reveal(spec_parse_claims);
    assert(lit_sub().len() == 8);
    assert(lit_username().len() == 13);
    assert(lit_email().len() == 10);
    assert(lit_iat().len() == 7);
    assert(lit_exp().len() == 7);
    assert(lit_iss().len() == 8);
    assert(lit_nbf().len() == 7);
    assert(spec_parse_claims(s) == Some(
        ClaimsView {
            sub: c.sub,
            username: c.username,
            email: c.email,
            iat: c.iat,
            exp: c.exp,
            iss: c.iss,
            nbf: c.nbf,
        },
    ));
}

/// The length of a canonical decimal, as an `int`.
pub open spec fn dlen(n: u64) -> int {
    dec_rep(n as nat).len() as int
}

/// The steps from the `iat` literal to the closing brace.
#[verifier::rlimit(100)]
proof fn lemma_parse_ser_claims_tail(s: Seq<u8>, c: ClaimsView, i3: int)
    requires
        claims_wf(c),
        0 <= i3 <= s.len(),
        s.skip(i3) == lit_iat() + (dec_rep(c.iat as nat) + (lit_exp() + (dec_rep(c.exp as nat) + (
        lit_iss() + (c.iss + (quote() + (lit_nbf() + (dec_rep(c.nbf as nat) + rbrace())))))))),
    ensures
        spec_match_at(s, i3, lit_iat()),
        spec_parse_u64(s, i3 + 7) == Some((c.iat, i3 + 7 + dlen(c.iat))),
        spec_match_at(s, i3 + 7 + dlen(c.iat), lit_exp()),
        spec_parse_u64(s, i3 + 14 + dlen(c.iat)) == Some((c.exp, i3 + 14 + dlen(c.iat) + dlen(
            c.exp,
        ))),
        spec_match_at(s, i3 + 14 + dlen(c.iat) + dlen(c.exp), lit_iss()),
        spec_scan_plain(s, i3 + 22 + dlen(c.iat) + dlen(c.exp)) == Some(
            (c.iss, i3 + 23 + dlen(c.iat) + dlen(c.exp) + c.iss.len()),
        ),
        spec_match_at(s, i3 + 23 + dlen(c.iat) + dlen(c.exp) + c.iss.len(), lit_nbf()),
        spec_parse_u64(s, i3 + 30 + dlen(c.iat) + dlen(c.exp) + c.iss.len()) == Some(
            (c.nbf, i3 + 30 + dlen(c.iat) + dlen(c.exp) + c.iss.len() + dlen(c.nbf)),
        ),
        i3 + 31 + dlen(c.iat) + dlen(c.exp) + c.iss.len() + dlen(c.nbf) == s.len(),
        s[i3 + 30 + dlen(c.iat) + dlen(c.exp) + c.iss.len() + dlen(c.nbf)] == 0x7d,
{
    let t0 = rbrace();
    let t1 = dec_rep(c.nbf as nat) + t0;
    let t2 = lit_nbf() + t1;
    let t3 = quote() + t2;
    let t4 = c.iss + t3;
    let t5 = lit_iss() + t4;
    let t6 = dec_rep(c.exp as nat) + t5;
    let t7 = lit_exp() + t6;
    let t8 = dec_rep(c.iat as nat) + t7;
    lemma_step_lit(s, i3, lit_iat(), t8);
    assert(t7[0] == ',' as u8 && !is_digit(t7[0]));
    lemma_step_num(s, i3 + 7, c.iat, t7);
    let i4: int = i3 + 7 + dlen(c.iat);
    lemma_step_lit(s, i4, lit_exp(), t6);
    assert(t5[0] == ',' as u8 && !is_digit(t5[0]));
    lemma_step_num(s, i4 + 7, c.exp, t5);
    let i5: int = i4 + 7 + dlen(c.exp);
    lemma_step_lit(s, i5, lit_iss(), t4);
    lemma_step_qstr(s, i5 + 8, c.iss, t2);
    let i6: int = i5 + 8 + c.iss.len() as int + 1;
    lemma_step_lit(s, i6, lit_nbf(), t1);
    assert(t0[0] == '}' as u8 && !is_digit(t0[0]));
    lemma_step_num(s, i6 + 7, c.nbf, t0);
    let i7: int = i6 + 7 + dlen(c.nbf);
    assert(s.skip(i7).len() == 1);
    assert(s[i7] == s.skip(i7)[0]);
    assert(s[i7] == 0x7d && i7 + 1 == s.len());
}

/// The steps from the opening brace through the `email` field.
#[verifier::rlimit(100)]
#[verifier::spinoff_prover]
proof fn lemma_parse_ser_claims_head(s: Seq<u8>, c: ClaimsView)
    requires
        claims_wf(c),
        s == ser_claims(c),
    ensures
        spec_match_at(s, 0, lit_sub()),
        spec_scan_plain(s, 8) == Some((c.sub, 9 + c.sub.len() as int)),
        spec_match_at(s, 9 + c.sub.len() as int, lit_username()),
        spec_scan_plain(s, 22 + c.sub.len() as int) == Some((c.username, 23 + c.sub.len() as int
            + c.username.len() as int)),
        spec_match_at(s, 23 + c.sub.len() as int + c.username.len() as int, lit_email()),
        spec_scan_plain(s, 33 + c.sub.len() as int + c.username.len() as int) == Some(
            (c.email, 34 + c.sub.len() as int + c.username.len() as int + c.email.len() as int),
        ),
        s.skip(34 + c.sub.len() as int + c.username.len() as int + c.email.len() as int)
            == lit_iat() + (dec_rep(
            c.iat as nat,
        ) + (lit_exp() + (dec_rep(c.exp as nat) + (lit_iss() + (c.iss + (quote() + (lit_nbf() + (
        dec_rep(c.nbf as nat) + rbrace())))))))),
{
    let t0 = rbrace();
    let t1 = dec_rep(c.nbf as nat) + t0;
    let t2 = lit_nbf() + t1;
    let t3 = quote() + t2;
    let t4 = c.iss + t3;
    let t5 = lit_iss() + t4;
    let t6 = dec_rep(c.exp as nat) + t5;
    let t7 = lit_exp() + t6;
    let t8 = dec_rep(c.iat as nat) + t7;
    let t9 = lit_iat() + t8;
    let t10 = quote() + t9;
    let t11 = c.email + t10;
    let t12 = lit_email() + t11;
    let t13 = quote() + t12;
    let t14 = c.username + t13;
    let t15 = lit_username() + t14;
    let t16 = quote() + t15;
    let t17 = c.sub + t16;
    assert(s == lit_sub() + t17);
    assert(s.skip(0) =~= lit_sub() + t17);
    lemma_step_lit(s, 0, lit_sub(), t17);
    lemma_step_qstr(s, 8, c.sub, t15);
    let i1: int = 9 + c.sub.len() as int;
    lemma_step_lit(s, i1, lit_username(), t14);
    lemma_step_qstr(s, i1 + 13, c.username, t12);
    let i2: int = i1 + 14 + c.username.len() as int;
    lemma_step_lit(s, i2, lit_email(), t11);
    lemma_step_qstr(s, i2 + 10, c.email, t9);
}

/// From the `email` field's end to the final result.
#[verifier::rlimit(100)]
proof fn lemma_parse_ser_claims_finish(s: Seq<u8>, c: ClaimsView, i1: int, i2: int, i3: int)
    requires
        claims_wf(c),
        0 <= i3 <= s.len(),
        spec_match_at(s, 0, lit_sub()),
        spec_scan_plain(s, 8) == Some((c.sub, i1)),
        spec_match_at(s, i1, lit_username()),
        spec_scan_plain(s, i1 + 13) == Some((c.username, i2)),
        spec_match_at(s, i2, lit_email()),
        spec_scan_plain(s, i2 + 10) == Some((c.email, i3)),
        s.skip(i3) == lit_iat() + (dec_rep(c.iat as nat) + (lit_exp() + (dec_rep(c.exp as nat) + (
        lit_iss() + (c.iss + (quote() + (lit_nbf() + (dec_rep(c.nbf as nat) + rbrace())))))))),
    ensures
        spec_parse_claims(s) == Some(c),
{
    lemma_parse_ser_claims_tail(s, c, i3);
    let i4: int = i3 + 7 + dlen(c.iat);
    let i5: int = i4 + 7 + dlen(c.exp);
    let i6: int = i5 + 8 + c.iss.len() as int + 1;
    let i7: int = i6 + 7 + dlen(c.nbf);
    lemma_assemble_claims(s, c, i1, i2, i3, i4, i5, i6, i7);
}

/// Parsing a serialized payload returns exactly the claims serialized.
#[verifier::rlimit(100)]
pub proof fn lemma_parse_ser_claims(c: ClaimsView)
    requires
        claims_wf(c),
    ensures
        spec_parse_claims(ser_claims(c)) == Some(c),
{
    let s = ser_claims(c);
    lemma_parse_ser_claims_head(s, c);
    let i1: int = 9 + c.sub.len() as int;
    let i2: int = i1 + 14 + c.username.len() as int;
    let i3: int = i2 + 11 + c.email.len() as int;
    assert(s.skip(i3).len() >= 1);
    lemma_parse_ser_claims_finish(s, c, i1, i2, i3);
}

/// Parsing the canonical header finds the pinned algorithm name.
pub proof fn lemma_parse_header()
    ensures
        spec_parse_header_alg(header_bytes()) == Some(hs256()),
{
    let s = header_bytes();
    assert(s.skip(0) =~= lit_alg() + (hs256() + (quote() + lit_typ_tail())));
    lemma_step_lit(s, 0, lit_alg(), hs256() + (quote() + lit_typ_tail()));
    let i0 = lit_alg().len() as int;
    assert(json_plain(hs256()));
    lemma_step_qstr(s, i0, hs256(), lit_typ_tail());
    let i1 = i0 + hs256().len() + 1;
    lemma_step_lit(s, i1, lit_typ_tail(), Seq::<u8>::empty());
    assert(i1 + lit_typ_tail().len() == s.len());
    assert(!(i1 == s.len() - 1 && s[i1] == 0x7d));
}

/// Whatever a plain-string scan collects lies in the claim alphabet.
proof fn lemma_scan_plain_output(s: Seq<u8>, i: int)
    ensures
        spec_scan_plain(s, i) matches Some(r) ==> json_plain(r.0),
    decreases s.len() - i,
{
    if 0 <= i < s.len() && s[i] != 0x22 && json_plain_byte(s[i]) {
        lemma_scan_plain_output(s, i + 1);
        if spec_scan_plain(s, i + 1) is Some {
            let t = spec_scan_plain(s, i + 1)->Some_0.0;
            assert forall|k: int| 0 <= k < (seq![s[i]] + t).len() implies json_plain_byte(
                #[trigger] (seq![s[i]] + t)[k],
            ) by {
                if k > 0 {
                    assert((seq![s[i]] + t)[k] == t[k - 1]);
                }
            }
        }
    }
}

/// Every string field of a parsed payload lies in the claim alphabet.
pub proof fn lemma_parse_claims_fields_plain(s: Seq<u8>)
    ensures
        spec_parse_claims(s) matches Some(c) ==> claims_wf(c),
{
    reveal(spec_parse_claims);
    if spec_parse_claims(s) is Some {
        lemma_scan_plain_output(s, 8);
        let (sub, i1) = spec_scan_plain(s, 8)->Some_0;
        lemma_scan_plain_output(s, i1 + 13);
        let (username, i2) = spec_scan_plain(s, i1 + 13)->Some_0;
        lemma_scan_plain_output(s, i2 + 10);
        let (email, i3) = spec_scan_plain(s, i2 + 10)->Some_0;
        let (iat, i4) = spec_parse_u64(s, i3 + 7)->Some_0;
        let (exp, i5) = spec_parse_u64(s, i4 + 7)->Some_0;
        lemma_scan_plain_output(s, i5 + 8);
    }
}

// ------------------------------------------------------------------
// Executable serializer and parsers.
// ------------------------------------------------------------------

/// Append a literal, a string field's bytes, and its closing quote.
fn push_str_field(out: &mut Vec<u8>, lit: &[u8], content: &str)
    ensures
        final(out)@ == old(out)@ + (lit@ + (content.spec_bytes() + quote())),
{
    out.extend_from_slice(lit);
    out.extend_from_slice(content.as_bytes());
    out.push('"' as u8);
    proof {
        assert(out@ =~= old(out)@ + (lit@ + (content.spec_bytes() + quote())));
    }
}

/// Append a literal and a canonical decimal.
fn push_num_field(out: &mut Vec<u8>, lit: &[u8], n: u64)
    ensures
        final(out)@ == old(out)@ + (lit@ + dec_rep(n as nat)),
{
    out.extend_from_slice(lit);
    push_decimal(out, n);
    proof {
        assert(out@ =~= old(out)@ + (lit@ + dec_rep(n as nat)));
    }
}

/// Serialize a payload from its parts; the result is exactly `ser_claims`.
#[verifier::rlimit(100)]
pub fn ser_claims_bytes(
    sub: &str,
    username: &str,
    email: &str,
    iat: u64,
    exp: u64,
    iss: &str,
    nbf: u64,
) -> (r: Vec<u8>)
    ensures
        r@ == ser_claims(
            ClaimsView {
                sub: sub.spec_bytes(),
                username: username.spec_bytes(),
                email: email.spec_bytes(),
                iat,
                exp,
                iss: iss.spec_bytes(),
                nbf,
            },
        ),
{
    let lsub: [u8; 8] = ['{' as u8, '"' as u8, 's' as u8, 'u' as u8, 'b' as u8, '"' as u8, ':' as u8, '"' as u8];
    let luser: [u8; 13] = [',' as u8, '"' as u8, 'u' as u8, 's' as u8, 'e' as u8, 'r' as u8, 'n' as u8, 'a' as u8, 'm' as u8, 'e' as u8, '"' as u8, ':' as u8, '"' as u8];
    let lemail: [u8; 10] = [',' as u8, '"' as u8, 'e' as u8, 'm' as u8, 'a' as u8, 'i' as u8, 'l' as u8, '"' as u8, ':' as u8, '"' as u8];
    let liat: [u8; 7] = [',' as u8, '"' as u8, 'i' as u8, 'a' as u8, 't' as u8, '"' as u8, ':' as u8];
    let lexp: [u8; 7] = [',' as u8, '"' as u8, 'e' as u8, 'x' as u8, 'p' as u8, '"' as u8, ':' as u8];
    let liss: [u8; 8] = [',' as u8, '"' as u8, 'i' as u8, 's' as u8, 's' as u8, '"' as u8, ':' as u8, '"' as u8];
    let lnbf: [u8; 7] = [',' as u8, '"' as u8, 'n' as u8, 'b' as u8, 'f' as u8, '"' as u8, ':' as u8];
    proof {
        assert(lsub@ =~= lit_sub());
        assert(luser@ =~= lit_username());
        assert(lemail@ =~= lit_email());
        assert(liat@ =~= lit_iat());
        assert(lexp@ =~= lit_exp());
        assert(liss@ =~= lit_iss());
        assert(lnbf@ =~= lit_nbf());
    }
    let mut out: Vec<u8> = Vec::new();
    push_str_field(&mut out, &lsub, sub);
    push_str_field(&mut out, &luser, username);
    push_str_field(&mut out, &lemail, email);
    push_num_field(&mut out, &liat, iat);
    push_num_field(&mut out, &lexp, exp);
    push_str_field(&mut out, &liss, iss);
    push_num_field(&mut out, &lnbf, nbf);
    out.push('}' as u8);
    proof {
        let c = ClaimsView {
            sub: sub.spec_bytes(),
            username: username.spec_bytes(),
            email: email.spec_bytes(),
            iat,
            exp,
            iss: iss.spec_bytes(),
            nbf,
        };
        assert(out@ =~= ser_claims(c));
    }
    out
}

/// The canonical header, as bytes.
pub fn header_bytes_exec() -> (r: Vec<u8>)
    ensures
        r@ == header_bytes(),
{
    let mut out: Vec<u8> = Vec::new();
    out.extend_from_slice(&[
        '{' as u8,
        '"' as u8,
        'a' as u8,
        'l' as u8,
        'g' as u8,
        '"' as u8,
        ':' as u8,
        '"' as u8,
        'H' as u8,
        'S' as u8,
        '2' as u8,
        '5' as u8,
        '6' as u8,
        '"' as u8,
        ',' as u8,
        '"' as u8,
        't' as u8,
        'y' as u8,
        'p' as u8,
        '"' as u8,
        ':' as u8,
        '"' as u8,
        'J' as u8,
        'W' as u8,
        'T' as u8,
        '"' as u8,
        '}' as u8,
    ]);
    proof {
        assert(out@ =~= header_bytes());
    }
    out
}

/// Does `lit` stand verbatim at position `i` of `s`?
fn match_at(s: &[u8], i: usize, lit: &[u8]) -> (r: bool)
    requires
        i <= s@.len(),
    ensures
        r == spec_match_at(s@, i as int, lit@),
{
    let n = s.len();
    if n - i < lit.len() {
        return false;
    }
    let mut k: usize = 0;
    while k < lit.len()
        invariant
            i + lit@.len() <= s@.len(),
            s@.len() <= usize::MAX,
            k <= lit@.len(),
            forall|m: int| 0 <= m < k ==> s@[i + m] == lit@[m],
        decreases lit@.len() - k,
    {
        if s[i + k] != lit[k] {
            assert(s@.subrange(i as int, i + lit@.len())[k as int] != lit@[k as int]);
            return false;
        }
        k += 1;
    }
    proof {
        assert(s@.subrange(i as int, i + lit@.len()) =~= lit@);
    }
    true
}

/// Scan a plain string body; exactly `spec_scan_plain`.
fn scan_plain(s: &[u8], i: usize) -> (r: Option<(Vec<u8>, usize)>)
    requires
        i <= s@.len(),
    ensures
        match r {
            Some((content, j)) => spec_scan_plain(s@, i as int) == Some((content@, j as int)) && i
                < j <= s@.len(),
            None => spec_scan_plain(s@, i as int) is None,
        },
{
    let n = s.len();
    let mut out: Vec<u8> = Vec::new();
    let mut j: usize = i;
    loop
        invariant
            i <= j <= n,
            n == s@.len(),
            spec_scan_plain(s@, i as int) == (match spec_scan_plain(s@, j as int) {
                Some((t, k)) => Some((out@ + t, k)),
                None => None::<(Seq<u8>, int)>,
            }),
        ensures
            j < n,
            s@[j as int] == 0x22,
            spec_scan_plain(s@, i as int) == Some((out@, j + 1 as int)),
        decreases n - j,
    {
        if j >= n {
            return None;
        }
        let b = s[j];
        if b == 0x22 {
            proof {
                broadcast use vstd::seq::Seq::add_empty_right;
            }
            break;
        }
        if !(0x20 <= b && b < 0x7f) || b == 0x5c {
            return None;
        }
        proof {
            assert(spec_scan_plain(s@, j as int) == (match spec_scan_plain(s@, j + 1) {
                Some((t, k)) => Some((seq![s@[j as int]] + t, k)),
                None => None::<(Seq<u8>, int)>,
            }));
            let r1 = spec_scan_plain(s@, j + 1);
            if r1 is Some {
                let t = r1->Some_0.0;
                assert(out@ + (seq![s@[j as int]] + t) =~= (out@ + seq![s@[j as int]]) + t);
            }
        }
        out.push(b);
        j += 1;
    }
    Some((out, j + 1))
}

/// Parse a serialized payload; exactly `spec_parse_claims`, with the parts
/// returned as byte vectors and integers.
pub fn parse_claims_bytes(s: &[u8]) -> (r: Option<(Vec<u8>, Vec<u8>, Vec<u8>, u64, u64, Vec<u8>, u64)>)
    ensures
        match r {
            Some((sub, username, email, iat, exp, iss, nbf)) => spec_parse_claims(s@) == Some(
                ClaimsView {
                    sub: sub@,
                    username: username@,
                    email: email@,
                    iat,
                    exp,
                    iss: iss@,
                    nbf,
                },
            ),
            None => spec_parse_claims(s@) is None,
        },
{
    proof {
        reveal(spec_parse_claims);
    }
    let n = s.len();
    let lsub: [u8; 8] = ['{' as u8, '"' as u8, 's' as u8, 'u' as u8, 'b' as u8, '"' as u8, ':' as u8, '"' as u8];
    proof {
        assert(lsub@ =~= lit_sub());
    }
    if !match_at(s, 0, &lsub) {
        return None;
    }
    let r1 = scan_plain(s, 8);
    proof {
        assert(lit_sub().len() == 8);
    }
    let (sub, i1) = match r1 {
        Some(p) => p,
        None => {
            return None;
        },
    };
    let luser: [u8; 13] = [',' as u8, '"' as u8, 'u' as u8, 's' as u8, 'e' as u8, 'r' as u8, 'n' as u8, 'a' as u8, 'm' as u8, 'e' as u8, '"' as u8, ':' as u8, '"' as u8];
    proof {
        assert(luser@ =~= lit_username());
    }
    if !match_at(s, i1, &luser) {
        return None;
    }
    let r2 = scan_plain(s, i1 + 13);
    let (username, i2) = match r2 {
        Some(p) => p,
        None => {
            return None;
        },
    };
    let lemail: [u8; 10] = [',' as u8, '"' as u8, 'e' as u8, 'm' as u8, 'a' as u8, 'i' as u8, 'l' as u8, '"' as u8, ':' as u8, '"' as u8];
    proof {
        assert(lemail@ =~= lit_email());
    }
    if !match_at(s, i2, &lemail) {
        return None;
    }
    let r3 = scan_plain(s, i2 + 10);
    let (email, i3) = match r3 {
        Some(p) => p,
        None => {
            return None;
        },
    };
    let liat: [u8; 7] = [',' as u8, '"' as u8, 'i' as u8, 'a' as u8, 't' as u8, '"' as u8, ':' as u8];
    proof {
        assert(liat@ =~= lit_iat());
    }
    if !match_at(s, i3, &liat) {
        return None;
    }
    let r4 = parse_u64(s, i3 + 7);
    let (iat, i4) = match r4 {
        Some(p) => p,
        None => {
            return None;
        },
    };
    let lexp: [u8; 7] = [',' as u8, '"' as u8, 'e' as u8, 'x' as u8, 'p' as u8, '"' as u8, ':' as u8];
    proof {
        assert(lexp@ =~= lit_exp());
    }
    if !match_at(s, i4, &lexp) {
        return None;
    }
    let r5 = parse_u64(s, i4 + 7);
    let (exp, i5) = match r5 {
        Some(p) => p,
        None => {
            return None;
        },
    };
    let liss: [u8; 8] = [',' as u8, '"' as u8, 'i' as u8, 's' as u8, 's' as u8, '"' as u8, ':' as u8, '"' as u8];
    proof {
        assert(liss@ =~= lit_iss());
    }
    if !match_at(s, i5, &liss) {
        return None;
    }
    let r6 = scan_plain(s, i5 + 8);
    let (iss, i6) = match r6 {
        Some(p) => p,
        None => {
            return None;
        },
    };
    let lnbf: [u8; 7] = [',' as u8, '"' as u8, 'n' as u8, 'b' as u8, 'f' as u8, '"' as u8, ':' as u8];
    proof {
        assert(lnbf@ =~= lit_nbf());
    }
    if !match_at(s, i6, &lnbf) {
        return None;
    }
    let r7 = parse_u64(s, i6 + 7);
    let (nbf, i7) = match r7 {
        Some(p) => p,
        None => {
            return None;
        },
    };
    if s.len() - i7 == 1 && s[i7] == 0x7d {
        Some((sub, username, email, iat, exp, iss, nbf))
    } else {
        None
    }
}

/// Parse a token header for the algorithm it declares; exactly
/// `spec_parse_header_alg`.
pub fn parse_header_alg(s: &[u8]) -> (r: Option<Vec<u8>>)
    ensures
        match r {
            Some(alg) => spec_parse_header_alg(s@) == Some(alg@),
            None => spec_parse_header_alg(s@) is None,
        },
{
    let n = s.len();
    let lalg: [u8; 8] = ['{' as u8, '"' as u8, 'a' as u8, 'l' as u8, 'g' as u8, '"' as u8, ':' as u8, '"' as u8];
    proof {
        assert(lalg@ =~= lit_alg());
    }
    if !match_at(s, 0, &lalg) {
        return None;
    }
    let r1 = scan_plain(s, 8);
    let (alg, i) = match r1 {
        Some(p) => p,
        None => {
            return None;
        },
    };
    if n - i == 1 && s[i] == 0x7d {
        return Some(alg);
    }
    let ltail: [u8; 13] = [',' as u8, '"' as u8, 't' as u8, 'y' as u8, 'p' as u8, '"' as u8, ':' as u8, '"' as u8, 'J' as u8, 'W' as u8, 'T' as u8, '"' as u8, '}' as u8];
    proof {
        assert(ltail@ =~= lit_typ_tail());
    }
    if match_at(s, i, &ltail) && n - i == 13 {
        Some(alg)
    } else {
        None
    }
}

} // verus!
