//! Interpreting a raw transport response: rate-limit headers, status
//! classification, and the mapping to a typed result.

use std::rc::Rc;
use vstd::prelude::*;
use vstd::string::StrSliceExecFns;

use crate::HttpError;
use crate::TwitterError;
use crate::TwitterResult;
use crate::models::{Error, ErrorResponse, RateLimitStatus, TwitterResponse};

verus! {

/// A raw transport response, as the injected transport hands it over:
/// the status code, the response headers, and the outcome of reading the
/// body (reading can fail after a successful status line).
pub struct RawResponse {
    pub status: u16,
    pub headers: Vec<(String, String)>,
    pub body: Result<String, String>,
}

/// True for the ASCII decimal digits.
pub open spec fn is_digit(c: char) -> bool {
    0x30 <= c as u32 <= 0x39
}

/// A non-empty, all-digit character string.
pub open spec fn is_digits(s: Seq<char>) -> bool {
    s.len() > 0 && forall|i: int| 0 <= i < s.len() ==> is_digit(s[i])
}

/// The value of a decimal digit string.
pub open spec fn dec_val(s: Seq<char>) -> nat
    decreases s.len(),
{
    if s.len() == 0 {
        0
    } else {
        (10 * dec_val(s.drop_last()) + (s.last() as u32 - 0x30)) as nat
    }
}

proof fn lemma_dec_val_grows(s: Seq<char>, i: int, j: int)
    requires
        is_digits(s),
        0 <= i <= j <= s.len(),
    ensures
        dec_val(s.take(i)) <= dec_val(s.take(j)),
    decreases j - i,
{
    if i < j {
        lemma_dec_val_grows(s, i + 1, j);
        let t = s.take(i + 1);
        assert(t.drop_last() =~= s.take(i));
        assert(is_digit(s[i]));
        assert(dec_val(s.take(i)) <= 10 * dec_val(s.take(i)) + (s[i] as u32 - 0x30));
    }
}

/// Parses a non-empty, all-digit decimal string; `None` when the string
/// holds anything else or the value does not fit in a `u64`.
pub fn parse_dec_u64(s: &str) -> (r: Option<u64>)
    ensures
        r matches Some(v) ==> is_digits(s@) && dec_val(s@) == v,
        r is None ==> !is_digits(s@) || dec_val(s@) > u64::MAX,
{
    let n = s.unicode_len();
    if n == 0 {
        return None;
    }
    let mut val: u64 = 0;
    let mut i: usize = 0;
    while i < n
        invariant
            0 < n == s@.len(),
            i <= n,
            forall|j: int| 0 <= j < i ==> is_digit(s@[j]),
            val == dec_val(s@.take(i as int)),
        decreases n - i,
    {
        let c = s.get_char(i);
        let u = c as u32;
        if u < 0x30 || u > 0x39 {
            return None;
        }
        let d = (u - 0x30) as u64;
        if val > (u64::MAX - d) / 10 {
            proof {
                let t = s@.take(i + 1 as int);
                assert(t.drop_last() =~= s@.take(i as int));
                assert(dec_val(t) == 10 * val + d);
                assert(10 * val + d > u64::MAX) by (nonlinear_arith)
                    requires
                        val > (u64::MAX - d) / 10,
                        d < 10,
                ;
                if is_digits(s@) {
                    lemma_dec_val_grows(s@, i + 1, s@.len() as int);
                    assert(s@.take(s@.len() as int) =~= s@);
                }
            }
            return None;
        }
        proof {
            assert(10 * val + d <= u64::MAX) by (nonlinear_arith)
                requires
                    val <= (u64::MAX - d) / 10,
                    d < 10,
            ;
            let t = s@.take(i + 1 as int);
            assert(t.drop_last() =~= s@.take(i as int));
            assert(t.last() == s@[i as int]);
        }
        val = 10 * val + d;
        i = i + 1;
    }
    proof {
        assert(s@.take(s@.len() as int) =~= s@);
    }
    Some(val)
}

/// The code point of a character with ASCII uppercase folded to lowercase.
pub open spec fn lower_cp(c: char) -> u32 {
    if 0x41 <= c as u32 <= 0x5a {
        (c as u32 + 0x20) as u32
    } else {
        c as u32
    }
}

/// Character strings equal up to ASCII case, as HTTP header names are
/// compared.
pub open spec fn eq_ignore_ascii_case(a: Seq<char>, b: Seq<char>) -> bool {
    a.len() == b.len() && forall|i: int| 0 <= i < a.len() ==> lower_cp(a[i]) == lower_cp(b[i])
}

fn eq_ignore_ascii_case_exec(a: &str, b: &str) -> (r: bool)
    ensures
        r == eq_ignore_ascii_case(a@, b@),
{
    let na = a.unicode_len();
    let nb = b.unicode_len();
    if na != nb {
        return false;
    }
    let mut i: usize = 0;
    while i < na
        invariant
            i <= na == a@.len(),
            na == nb == b@.len(),
            forall|j: int| 0 <= j < i ==> lower_cp(a@[j]) == lower_cp(b@[j]),
        decreases na - i,
    {
        let ca = a.get_char(i) as u32;
        let cb = b.get_char(i) as u32;
        let la = if 0x41 <= ca && ca <= 0x5a {
            ca + 0x20
        } else {
            ca
        };
        let lb = if 0x41 <= cb && cb <= 0x5a {
            cb + 0x20
        } else {
            cb
        };
        if la != lb {
            return false;
        }
        i = i + 1;
    }
    true
}

/// The value of the first header whose name matches up to ASCII case.
pub open spec fn spec_header_lookup(hs: Seq<(Seq<char>, Seq<char>)>, name: Seq<char>) -> Option<
    Seq<char>,
>
    decreases hs.len(),
{
    if hs.len() == 0 {
        None
    } else if eq_ignore_ascii_case(hs[0].0, name) {
        Some(hs[0].1)
    } else {
        spec_header_lookup(hs.drop_first(), name)
    }
}

/// Looks a header up by name, case-insensitively, first match wins.
pub fn header_lookup(headers: &Vec<(String, String)>, name: &str) -> (r: Option<String>)
    ensures
        match r {
            Some(v) => spec_header_lookup(headers.deep_view(), name@) == Some(v@),
            None => spec_header_lookup(headers.deep_view(), name@) is None,
        },
{
    let ghost hs = headers.deep_view();
    proof {
        assert(hs.skip(0) =~= hs);
    }
    let mut i: usize = 0;
    while i < headers.len()
        invariant
            i <= headers@.len(),
            hs == headers.deep_view(),
            hs.len() == headers@.len(),
            spec_header_lookup(hs, name@) == spec_header_lookup(hs.skip(i as int), name@),
        decreases headers@.len() - i,
    {
        proof {
            assert(hs[i as int] == (headers@[i as int].0@, headers@[i as int].1@));
            assert(hs.skip(i as int)[0] == hs[i as int]);
        }
        if eq_ignore_ascii_case_exec(headers[i].0.as_str(), name) {
            let v = headers[i].1.clone();
            return Some(v);
        }
        proof {
            assert(hs.skip(i as int).drop_first() =~= hs.skip(i + 1 as int));
        }
        i = i + 1;
    }
    proof {
        assert(hs.skip(hs.len() as int) =~= Seq::<(Seq<char>, Seq<char>)>::empty());
    }
    None
}

/// A header value read as a number: defined only when the value is a
/// non-empty digit string.
pub open spec fn spec_parsed(v: Option<Seq<char>>) -> Option<nat> {
    match v {
        Some(s) => if is_digits(s) {
            Some(dec_val(s))
        } else {
            None
        },
        None => None,
    }
}

/// The rate-limit status carried by a header set: present exactly when
/// all three rate-limit headers parse as integers in range; no partial
/// status is ever produced.
pub open spec fn spec_rate_limit(hs: Seq<(Seq<char>, Seq<char>)>) -> Option<RateLimitStatus> {
    let l = spec_parsed(spec_header_lookup(hs, "X-Rate-Limit-Limit"@));
    let rm = spec_parsed(spec_header_lookup(hs, "X-Rate-Limit-Remaining"@));
    let rs = spec_parsed(spec_header_lookup(hs, "X-Rate-Limit-Reset"@));
    if (l matches Some(lv) && lv <= u32::MAX) && (rm matches Some(rv) && rv <= u32::MAX) && (
    rs matches Some(sv) && sv <= u64::MAX) {
        Some(
            RateLimitStatus {
                limit: l.unwrap() as u32,
                remaining: rm.unwrap() as u32,
                reset: rs.unwrap() as u64,
            },
        )
    } else {
        None
    }
}

fn header_u64(headers: &Vec<(String, String)>, name: &str) -> (r: Option<u64>)
    ensures
        r matches Some(v) ==> spec_parsed(spec_header_lookup(headers.deep_view(), name@))
            matches Some(n) && n == v,
        r is None ==> match spec_parsed(spec_header_lookup(headers.deep_view(), name@)) {
            Some(n) => n > u64::MAX,
            None => true,
        },
{
    match header_lookup(headers, name) {
        Some(v) => parse_dec_u64(v.as_str()),
        None => None,
    }
}

/// Reads the three rate-limit headers; the status is attached only when
/// all three are present and parse, and is absent otherwise.
pub fn rate_limit_status(headers: &Vec<(String, String)>) -> (r: Option<RateLimitStatus>)
    ensures
        r == spec_rate_limit(headers.deep_view()),
{
    let l = header_u64(headers, "X-Rate-Limit-Limit");
    let rm = header_u64(headers, "X-Rate-Limit-Remaining");
    let rs = header_u64(headers, "X-Rate-Limit-Reset");
    match (l, rm, rs) {
        (Some(lv), Some(rv), Some(sv)) => {
            if lv <= 0xffff_ffff && rv <= 0xffff_ffff {
                Some(RateLimitStatus { limit: lv as u32, remaining: rv as u32, reset: sv })
            } else {
                None
            }
        },
        _ => None,
    }
}

/// Maps a fully read response to the typed result.  A status in the 2xx
/// class is a success wrapping the raw body; anything else is an API
/// error response carrying the given decoded error entries, the raw body,
/// and whatever rate-limit status was parsed.
pub fn classify_response(
    status: u16,
    body: String,
    rate_limit: Option<RateLimitStatus>,
    errors: Option<Vec<Error>>,
) -> (r: TwitterResult<()>)
    ensures
        200 <= status < 300 ==> (r matches Ok(res) && res.object == () && res.raw_response@
            == body@ && res.rate_limit == rate_limit),
        !(200 <= status < 300) ==> (r matches Err(TwitterError::ErrorResponse(e)) && e.status
            == status && e.errors == errors && e.raw_response@ == body@ && e.rate_limit
            == rate_limit),
{
    if 200 <= status && status < 300 {
        Ok(TwitterResponse { object: (), raw_response: Rc::new(body), rate_limit })
    } else {
        Err(
            TwitterError::ErrorResponse(
                ErrorResponse { status, errors, raw_response: body, rate_limit },
            ),
        )
    }
}

/// Interprets the outcome of one HTTP exchange, end to end:
///
/// - a transport failure is returned unchanged as an `HttpError` result;
/// - a failure to read the body after a successful status line is a
///   distinct I/O error;
/// - otherwise the rate-limit headers are parsed (all three or none), a
///   2xx status is a success wrapping the raw body, and any other status
///   is an API error response whose entries are exactly what the body
///   decodes to under `errors`, else `error` (an unparseable body
///   degrades to no entries, the status itself is always preserved).
pub fn read_to_twitter_result(source: Result<RawResponse, HttpError>) -> (r: TwitterResult<()>)
    ensures
        (source matches Err(e) ==> (r matches Err(TwitterError::HttpError(he)) && he == e)),
        (source matches Ok(res) ==> match res.body {
            Err(m) => r matches Err(TwitterError::HttpError(HttpError::Io(im))) && im == m,
            Ok(b) => {
                let rl = spec_rate_limit(res.headers.deep_view());
                &&& (200 <= res.status < 300 ==> (r matches Ok(ok) && ok.object == ()
                    && ok.raw_response@ == b@ && ok.rate_limit == rl))
                &&& (!(200 <= res.status < 300) ==> (r matches Err(TwitterError::ErrorResponse(e))
                    && e.status == res.status && e.raw_response@ == b@ && e.rate_limit == rl
                    && (match e.errors {
                    Some(es) => crate::error_body::spec_decoded_errors(b@) == Some(
                        crate::error_body::errors_view(es@),
                    ),
                    None => crate::error_body::spec_decoded_errors(b@) is None,
                })))
            },
        }),
{
    match source {
        Err(e) => Err(TwitterError::HttpError(e)),
        Ok(res) => {
            let rate_limit = rate_limit_status(&res.headers);
            match res.body {
                Err(m) => Err(TwitterError::HttpError(HttpError::Io(m))),
                Ok(b) => {
                    let errors = if 200 <= res.status && res.status < 300 {
                        None
                    } else {
                        crate::error_body::decode_error_body(b.as_str())
                    };
                    classify_response(res.status, b, rate_limit, errors)
                },
            }
        },
    }
}

} // verus!
