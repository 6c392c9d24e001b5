use vstd::prelude::*;
use vstd::string::StringSliceAdditionalSpecFns;
use crate::text::{json_plain, json_plain_byte};

verus! {

// Field-format rules for registration input: a username is 5 to 20 word
// characters starting with a letter and without consecutive underscores; a
// password is 8 to 30 characters over letters, digits and a fixed symbol set,
// with at least one capital, one lowercase letter, one digit and one symbol;
// an email is local-part `@` domain `.` letters-only top level of length at
// least two.

pub open spec fn is_upper(b: u8) -> bool {
    0x41 <= b <= 0x5a
}

pub open spec fn is_lower(b: u8) -> bool {
    0x61 <= b <= 0x7a
}

pub open spec fn is_letter(b: u8) -> bool {
    is_upper(b) || is_lower(b)
}

pub open spec fn is_dec_digit(b: u8) -> bool {
    0x30 <= b <= 0x39
}

/// A word character: letter, digit or underscore.
pub open spec fn is_word_byte(b: u8) -> bool {
    is_letter(b) || is_dec_digit(b) || b == 0x5f
}

/// One of the password symbols `! @ # $ % ^ & * ? + =`.
pub open spec fn is_pw_symbol(b: u8) -> bool {
    b == 0x21 || b == 0x40 || b == 0x23 || b == 0x24 || b == 0x25 || b == 0x5e || b == 0x26 || b
        == 0x2a || b == 0x3f || b == 0x2b || b == 0x3d
}

pub open spec fn valid_username(u: Seq<u8>) -> bool {
    &&& 5 <= u.len() <= 20
    &&& is_letter(u[0])
    &&& forall|i: int| 1 <= i < u.len() ==> is_word_byte(#[trigger] u[i])
    &&& forall|i: int| 0 <= i < u.len() - 1 ==> !(#[trigger] u[i] == 0x5f && u[i + 1] == 0x5f)
}

pub open spec fn valid_password(p: Seq<u8>) -> bool {
    &&& 8 <= p.len() <= 30
    &&& forall|i: int|
        0 <= i < p.len() ==> is_letter(#[trigger] p[i]) || is_dec_digit(p[i]) || is_pw_symbol(p[i])
    &&& exists|i: int| 0 <= i < p.len() && is_upper(#[trigger] p[i])
    &&& exists|i: int| 0 <= i < p.len() && is_lower(#[trigger] p[i])
    &&& exists|i: int| 0 <= i < p.len() && is_dec_digit(#[trigger] p[i])
    &&& exists|i: int| 0 <= i < p.len() && is_pw_symbol(#[trigger] p[i])
}

/// A byte allowed in an email's local part.
pub open spec fn is_local_byte(b: u8) -> bool {
    is_letter(b) || is_dec_digit(b) || b == 0x2e || b == 0x5f || b == 0x25 || b == 0x2b || b == 0x2d
}

/// A byte allowed in an email's domain, between the `@` and the last dot.
pub open spec fn is_domain_byte(b: u8) -> bool {
    is_letter(b) || is_dec_digit(b) || b == 0x2e || b == 0x2d
}

/// The position of the first `@`, or the length when there is none.
pub open spec fn first_at(e: Seq<u8>, i: int) -> int
    decreases e.len() - i,
    when 0 <= i <= e.len()
{
    if i >= e.len() {
        e.len() as int
    } else if e[i] == 0x40 {
        i
    } else {
        first_at(e, i + 1)
    }
}

/// The position of the last dot, or -1 when there is none.
pub open spec fn last_dot(e: Seq<u8>) -> int
    decreases e.len(),
{
    if e.len() == 0 {
        -1
    } else if e[e.len() - 1] == 0x2e {
        e.len() - 1
    } else {
        last_dot(e.take(e.len() - 1))
    }
}

/// The email shape: a nonempty local part of local bytes, one `@`, a nonempty
/// domain of domain bytes up to the last dot, and a top level of at least two
/// letters. (Splitting at the first `@` and the last dot loses nothing: the
/// classes on either side exclude `@`, and a top level may not contain a dot.)
pub open spec fn valid_email(e: Seq<u8>) -> bool {
    let a = first_at(e, 0);
    let d = last_dot(e);
    &&& 1 <= a
    &&& a + 2 <= d
    &&& d + 3 <= e.len()
    &&& forall|i: int| 0 <= i < a ==> is_local_byte(#[trigger] e[i])
    &&& forall|i: int| a < i < d ==> is_domain_byte(#[trigger] e[i])
    &&& forall|i: int| d < i < e.len() ==> is_letter(#[trigger] e[i])
}

fn letter(b: u8) -> (r: bool)
    ensures
        r == is_letter(b),
{
    (0x41 <= b && b <= 0x5a) || (0x61 <= b && b <= 0x7a)
}

fn word_byte(b: u8) -> (r: bool)
    ensures
        r == is_word_byte(b),
{
    letter(b) || (0x30 <= b && b <= 0x39) || b == 0x5f
}

fn pw_symbol(b: u8) -> (r: bool)
    ensures
        r == is_pw_symbol(b),
{
    b == 0x21 || b == 0x40 || b == 0x23 || b == 0x24 || b == 0x25 || b == 0x5e || b == 0x26 || b
        == 0x2a || b == 0x3f || b == 0x2b || b == 0x3d
}

/// Validate a username: 5 to 20 characters, starting with a letter, made of
/// letters, digits and underscores, without consecutive underscores.
pub fn validate_username(username: &str) -> (r: bool)
    ensures
        r == valid_username(username.spec_bytes()),
{
    let u = username.as_bytes();
    let n = u.len();
    if n < 5 || n > 20 {
        return false;
    }
    if !letter(u[0]) {
        return false;
    }
    let mut i: usize = 1;
    while i < n
        invariant
            1 <= i <= n,
            n == u@.len(),
            u@ == username.spec_bytes(),
            5 <= n <= 20,
            is_letter(u@[0]),
            forall|j: int| 1 <= j < i ==> is_word_byte(#[trigger] u@[j]),
            forall|j: int| 0 <= j < i - 1 ==> !(#[trigger] u@[j] == 0x5f && u@[j + 1] == 0x5f),
        decreases n - i,
    {
        if !word_byte(u[i]) {
            return false;
        }
        if u[i] == 0x5f && u[i - 1] == 0x5f {
            return false;
        }
        i += 1;
    }
    true
}

/// Validate a password: 8 to 30 characters over letters, digits and the
/// symbol set, with at least one capital letter, one lowercase letter, one
/// digit and one symbol.
pub fn validate_password(password: &str) -> (r: bool)
    ensures
        r == valid_password(password.spec_bytes()),
{
    let p = password.as_bytes();
    let n = p.len();
    if n < 8 || n > 30 {
        return false;
    }
    let mut has_upper = false;
    let mut has_lower = false;
    let mut has_digit = false;
    let mut has_symbol = false;
    let mut i: usize = 0;
    while i < n
        invariant
            0 <= i <= n,
            n == p@.len(),
            p@ == password.spec_bytes(),
            8 <= n <= 30,
            forall|j: int|
                0 <= j < i ==> is_letter(#[trigger] p@[j]) || is_dec_digit(p@[j]) || is_pw_symbol(
                    p@[j],
                ),
            has_upper == exists|j: int| 0 <= j < i && is_upper(#[trigger] p@[j]),
            has_lower == exists|j: int| 0 <= j < i && is_lower(#[trigger] p@[j]),
            has_digit == exists|j: int| 0 <= j < i && is_dec_digit(#[trigger] p@[j]),
            has_symbol == exists|j: int| 0 <= j < i && is_pw_symbol(#[trigger] p@[j]),
        decreases n - i,
    {
        let b = p[i];
        if !(letter(b) || (0x30 <= b && b <= 0x39) || pw_symbol(b)) {
            return false;
        }
        if 0x41 <= b && b <= 0x5a {
            has_upper = true;
        }
        if 0x61 <= b && b <= 0x7a {
            has_lower = true;
        }
        if 0x30 <= b && b <= 0x39 {
            has_digit = true;
        }
        if pw_symbol(b) {
            has_symbol = true;
        }
        i += 1;
    }
    has_upper && has_lower && has_digit && has_symbol
}

/// Validate an email address against the shape `valid_email`.
pub fn validate_email(email: &str) -> (r: bool)
    ensures
        r == valid_email(email.spec_bytes()),
{
    let e = email.as_bytes();
    let n = e.len();
    // first `@`
    let mut a: usize = 0;
    loop
        invariant
            0 <= a <= n,
            n == e@.len(),
            e@ == email.spec_bytes(),
            first_at(e@, 0) == first_at(e@, a as int),
        ensures
            a <= n,
            first_at(e@, 0) == a,
        decreases n - a,
    {
        if a >= n {
            break;
        }
        if e[a] == 0x40 {
            break;
        }
        a += 1;
    }
    // last dot
    let mut d: usize = n;
    let mut found_dot = false;
    proof {
        assert(e@.take(n as int) =~= e@);
    }
    loop
        invariant
            0 <= d <= n,
            n == e@.len(),
            e@ == email.spec_bytes(),
            found_dot ==> d < n && e@[d as int] == 0x2e && last_dot(e@) == d,
            !found_dot ==> last_dot(e@.take(d as int)) == last_dot(e@),
        ensures
            found_dot ==> 0 <= d < n && last_dot(e@) == d,
            !found_dot ==> last_dot(e@) == -1,
        decreases d,
    {
        if found_dot {
            break;
        }
        if d == 0 {
            proof {
                assert(e@.take(0) =~= Seq::<u8>::empty());
            }
            break;
        }
        proof {
            assert(e@.take(d as int).take(d - 1) =~= e@.take(d - 1));
            assert(e@.take(d as int)[d - 1] == e@[d - 1]);
        }
        if e[d - 1] == 0x2e {
            found_dot = true;
        }
        d -= 1;
    }
    if !found_dot {
        return false;
    }
    if a < 1 {
        return false;
    }
    if d <= a || d - a < 2 {
        return false;
    }
    if n - d < 3 {
        return false;
    }
    let mut i: usize = 0;
    while i < a
        invariant
            0 <= i <= a <= n,
            n == e@.len(),
            e@ == email.spec_bytes(),
            a == first_at(e@, 0),
            forall|j: int| 0 <= j < i ==> is_local_byte(#[trigger] e@[j]),
        decreases a - i,
    {
        let b = e[i];
        if !(letter(b) || (0x30 <= b && b <= 0x39) || b == 0x2e || b == 0x5f || b == 0x25 || b
            == 0x2b || b == 0x2d) {
            return false;
        }
        i += 1;
    }
    let mut i: usize = a + 1;
    while i < d
        invariant
            a < i <= d <= n,
            n == e@.len(),
            e@ == email.spec_bytes(),
            a == first_at(e@, 0),
            d == last_dot(e@),
            forall|j: int| a < j < i ==> is_domain_byte(#[trigger] e@[j]),
        decreases d - i,
    {
        let b = e[i];
        if !(letter(b) || (0x30 <= b && b <= 0x39) || b == 0x2e || b == 0x2d) {
            return false;
        }
        i += 1;
    }
    let mut i: usize = d + 1;
    while i < n
        invariant
            d < i <= n,
            n == e@.len(),
            e@ == email.spec_bytes(),
            d == last_dot(e@),
            forall|j: int| d < j < i ==> is_letter(#[trigger] e@[j]),
        decreases n - i,
    {
        if !letter(e[i]) {
            return false;
        }
        i += 1;
    }
    true
}

/// A dot found by `last_dot` really is a dot inside the string.
proof fn lemma_last_dot_hits(e: Seq<u8>)
    ensures
        last_dot(e) >= 0 ==> 0 <= last_dot(e) < e.len() && e[last_dot(e)] == 0x2e,
    decreases e.len(),
{
    if e.len() > 0 && e[e.len() - 1] != 0x2e {
        lemma_last_dot_hits(e.take(e.len() - 1));
        if last_dot(e) >= 0 {
            assert(e.take(e.len() - 1)[last_dot(e)] == e[last_dot(e)]);
        }
    }
}

/// The byte `first_at` stops on really is an `@`.
proof fn lemma_first_at_hits(e: Seq<u8>, i: int)
    requires
        0 <= i <= e.len(),
    ensures
        first_at(e, i) < e.len() ==> e[first_at(e, i)] == 0x40,
        i <= first_at(e, i) <= e.len(),
    decreases e.len() - i,
{
    if i < e.len() && e[i] != 0x40 {
        lemma_first_at_hits(e, i + 1);
    }
}

/// Law: a valid username lies in the claim alphabet, so a token can always be
/// minted for it.
pub proof fn lemma_valid_username_claim_safe(u: Seq<u8>)
    requires
        valid_username(u),
    ensures
        json_plain(u),
{
    assert forall|i: int| 0 <= i < u.len() implies json_plain_byte(#[trigger] u[i]) by {
        if i == 0 {
            assert(is_letter(u[0]));
        } else {
            assert(is_word_byte(u[i]));
        }
    }
}

/// Law: a valid email lies in the claim alphabet, so a token can always be
/// minted for it.
pub proof fn lemma_valid_email_claim_safe(e: Seq<u8>)
    requires
        valid_email(e),
    ensures
        json_plain(e),
{
    let a = first_at(e, 0);
    let d = last_dot(e);
    lemma_first_at_hits(e, 0);
    lemma_last_dot_hits(e);
    assert forall|i: int| 0 <= i < e.len() implies json_plain_byte(#[trigger] e[i]) by {
        if i < a {
            assert(is_local_byte(e[i]));
        } else if i == a {
            assert(e[i] == 0x40);
        } else if i < d {
            assert(is_domain_byte(e[i]));
        } else if i == d {
            assert(e[i] == 0x2e);
        } else {
            assert(is_letter(e[i]));
        }
    }
}

} // verus!
