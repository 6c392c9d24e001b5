use vstd::prelude::*;
use vstd::string::StrSliceExecFns;
use crate::errors::AuthError;
use crate::handlers::responses::MessageResponse;

verus! {

// The authorization extractor: pull a bearer token out of a request's header
// set. It demands an `Authorization` header, a value representable as text,
// and the exact, case-sensitive prefix `"Bearer "`; the remainder is returned
// verbatim (an empty remainder is a valid extraction — decoding rejects it
// later).

/// A request header as the extractor sees it: its name, and its value when
/// the value is representable as text.
pub struct Header {
    pub name: String,
    pub value: Option<String>,
}

/// The ghost shape of a header.
pub ghost struct HeaderView {
    pub name: Seq<char>,
    pub value: Option<Seq<char>>,
}

impl View for Header {
    type V = HeaderView;

    open spec fn view(&self) -> HeaderView {
        HeaderView {
            name: self.name@,
            value: match self.value {
                Some(v) => Some(v@),
                None => None,
            },
        }
    }
}

pub open spec fn header_views(hs: Seq<Header>) -> Seq<HeaderView> {
    Seq::new(hs.len(), |i: int| hs[i]@)
}

/// The first header named `Authorization`, if any.
pub open spec fn spec_find_auth(hs: Seq<HeaderView>, i: int) -> Option<HeaderView>
    decreases hs.len() - i,
    when 0 <= i <= hs.len()
{
    if i >= hs.len() {
        None
    } else if hs[i].name == "Authorization"@ {
        Some(hs[i])
    } else {
        spec_find_auth(hs, i + 1)
    }
}

/// What extraction returns, for every header set: `HeaderMissing` without an
/// `Authorization` header, `HeaderMalformed` when its value is not text,
/// `PrefixMissing` without the exact prefix `"Bearer "`, and otherwise the
/// remainder after the prefix, verbatim.
pub open spec fn extract_outcome(hs: Seq<HeaderView>) -> Result<Seq<char>, AuthError> {
    match spec_find_auth(hs, 0) {
        None => Err(AuthError::HeaderMissing),
        Some(h) => match h.value {
            None => Err(AuthError::HeaderMalformed),
            Some(v) => if v.len() >= 7 && v.take(7) == "Bearer "@ {
                Ok(v.skip(7))
            } else {
                Err(AuthError::PrefixMissing)
            },
        },
    }
}

/// Extract the bearer token from a header set; exactly `extract_outcome`.
pub fn extract_bearer(headers: &Vec<Header>) -> (r: Result<String, AuthError>)
    ensures
        match r {
            Ok(t) => extract_outcome(header_views(headers@)) == Ok::<Seq<char>, AuthError>(t@),
            Err(e) => extract_outcome(header_views(headers@)) == Err::<Seq<char>, AuthError>(e),
        },
{
    let hv = Ghost(header_views(headers@));
    let n = headers.len();
    let auth_name: String = "Authorization".to_owned();
    let mut k: usize = 0;
    loop
        invariant
            0 <= k <= n,
            n == headers@.len(),
            hv@ == header_views(headers@),
            auth_name@ == "Authorization"@,
            spec_find_auth(hv@, 0) == spec_find_auth(hv@, k as int),
        ensures
            (k == n && spec_find_auth(hv@, 0) is None) || (k < n && spec_find_auth(hv@, 0)
                == Some(headers@[k as int]@) && headers@[k as int].name@ == "Authorization"@),
        decreases n - k,
    {
        if k >= n {
            break;
        }
        proof {
            assert(hv@[k as int] == headers@[k as int]@);
        }
        if headers[k].name == auth_name {
            break;
        }
        k += 1;
    }
    if k == n {
        return Err(AuthError::HeaderMissing);
    }
    let value = match &headers[k].value {
        Some(v) => v,
        None => {
            return Err(AuthError::HeaderMalformed);
        },
    };
    let vlen = value.as_str().unicode_len();
    if vlen < 7 {
        return Err(AuthError::PrefixMissing);
    }
    proof {
        reveal_strlit("Bearer ");
    }
    let vs = value.as_str();
    if !(vs.get_char(0) == 'B' && vs.get_char(1) == 'e' && vs.get_char(2) == 'a' && vs.get_char(3)
        == 'r' && vs.get_char(4) == 'e' && vs.get_char(5) == 'r' && vs.get_char(6) == ' ') {
        proof {
            assert(forall|i: int| 0 <= i < 7 ==> #[trigger] value@.take(7)[i] == value@[i]);
            assert("Bearer "@[0] == 'B' && "Bearer "@[1] == 'e' && "Bearer "@[2] == 'a'
                && "Bearer "@[3] == 'r' && "Bearer "@[4] == 'e' && "Bearer "@[5] == 'r'
                && "Bearer "@[6] == ' ');
            assert(value@.take(7) != "Bearer "@);
        }
        return Err(AuthError::PrefixMissing);
    }
    proof {
        assert(value@.take(7) =~= "Bearer "@);
    }
    let rest = vs.substring_char(7, vlen);
    proof {
        assert(rest@ =~= value@.skip(7));
    }
    Ok(rest.to_owned())
}

/// Extract the bearer token, folding every failure into the one generic
/// token-authentication message.
pub fn extract_authn_token(headers: &Vec<Header>) -> (r: Result<String, MessageResponse>)
    ensures
        match r {
            Ok(t) => extract_outcome(header_views(headers@)) == Ok::<Seq<char>, AuthError>(t@),
            Err(m) => extract_outcome(header_views(headers@)) is Err && m.message@
                == "Token authentication failed."@,
        },
{
    match extract_bearer(headers) {
        Ok(t) => Ok(t),
        Err(_) => Err(MessageResponse::token_auth_failure()),
    }
}

} // verus!
