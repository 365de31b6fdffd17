//! The OAuth 1.0 authentication strategy: per-request signing with a
//! fresh timestamp and nonce, delegated to an outside signing library,
//! with this module deciding which parameters enter the signature base.

use vstd::prelude::*;

use crate::HttpError;
use crate::conn::{
    Authenticator, Method, Parameter, PreparedRequest, param_pairs, prepare_request,
    signature_parameters, spec_existing_pairs, spec_has_body, spec_is_multipart, spec_opt_query,
    spec_signature_params,
};
use crate::encoding::spec_query;
use crate::response::{dec_val, is_digits, parse_dec_u64};

verus! {

/// What `url::Url::parse` makes of a URL string: `None` when it does not
/// parse, else the serialized bytes before the query and the query bytes.
/// A function of the input alone.
pub uninterp spec fn url_split_of(s: Seq<char>) -> Option<(Seq<u8>, Option<Seq<u8>>)>;

/// Relies on url::Url::parse and the accessors on its result (slicing up
/// to Position::AfterPath, Url::query): splits an absolute URL into its
/// serialized part before the query and its query.
#[verifier::external_body]
fn split_url(s: &str) -> (r: Option<(Vec<u8>, Option<Vec<u8>>)>)
    ensures
        (r is Some) == (url_split_of(s@) is Some),
        r matches Some(p) ==> (url_split_of(s@) matches Some(m) && p.0@ == m.0 && (match (
            p.1,
            m.1,
        ) {
            (Some(q), Some(mq)) => q@ == mq,
            (None, None) => true,
            _ => false,
        })),
{
    match url::Url::parse(s) {
        Ok(u) => {
            let base = u[..url::Position::AfterPath].as_bytes().to_vec();
            let query = u.query().map(|q| q.as_bytes().to_vec());
            Some((base, query))
        },
        Err(_) => None,
    }
}

/// Serialized URL bytes that begin with `http://` or `https://`: for
/// these the signing library accepts the URL (any port, host present).
pub open spec fn spec_http_base(b: Seq<u8>) -> bool {
    (b.len() >= 7 && b.subrange(0, 7) == seq![0x68u8, 0x74, 0x74, 0x70, 0x3a, 0x2f, 0x2f]) || (
    b.len() >= 8 && b.subrange(0, 8) == seq![0x68u8, 0x74, 0x74, 0x70, 0x73, 0x3a, 0x2f, 0x2f])
}

fn is_http_base(b: &Vec<u8>) -> (r: bool)
    ensures
        r == spec_http_base(b@),
{
    let plain = b.len() >= 7 && b[0] == 0x68 && b[1] == 0x74 && b[2] == 0x74 && b[3] == 0x70
        && b[4] == 0x3a && b[5] == 0x2f && b[6] == 0x2f;
    let tls = b.len() >= 8 && b[0] == 0x68 && b[1] == 0x74 && b[2] == 0x74 && b[3] == 0x70 && b[4]
        == 0x73 && b[5] == 0x3a && b[6] == 0x2f && b[7] == 0x2f;
    proof {
        if b@.len() >= 7 {
            assert(b@.subrange(0, 7) =~= seq![b@[0], b@[1], b@[2], b@[3], b@[4], b@[5], b@[6]]);
        }
        if b@.len() >= 8 {
            assert(b@.subrange(0, 8) =~= seq![
                b@[0],
                b@[1],
                b@[2],
                b@[3],
                b@[4],
                b@[5],
                b@[6],
                b@[7],
            ]);
        }
    }
    plain || tls
}

/// The authorization header that the signing library computes from the
/// request data, credentials, timestamp and nonce: a function of exactly
/// these arguments.
pub uninterp spec fn oauth_header_of(
    method: Seq<char>,
    url: Seq<char>,
    consumer_key: Seq<char>,
    consumer_secret: Seq<char>,
    token: Seq<char>,
    token_secret: Seq<char>,
    timestamp: u64,
    nonce: Seq<char>,
    params: Seq<(Seq<char>, Seq<char>)>,
) -> Seq<char>;

/// Relies on oauthcli's OAuthAuthorizationHeaderBuilder: the HMAC-SHA1
/// `Authorization` header value, deterministic in its inputs once the
/// timestamp and nonce are fixed.  The URL must parse and be usable for
/// HTTP or HTTPS, else the library panics.
#[verifier::external_body]
fn oauth_authorization_header(
    method: &str,
    url: &str,
    consumer_key: &str,
    consumer_secret: &str,
    token: &str,
    token_secret: &str,
    timestamp: u64,
    nonce: &str,
    params: &Vec<(String, String)>,
) -> (r: String)
    requires
        url_split_of(url@) matches Some(p) && spec_http_base(p.0),
    ensures
        r@ == oauth_header_of(
            method@,
            url@,
            consumer_key@,
            consumer_secret@,
            token@,
            token_secret@,
            timestamp,
            nonce@,
            params.deep_view(),
        ),
{
    let u = url::Url::parse(url).unwrap();
    let mut builder = oauthcli::OAuthAuthorizationHeaderBuilder::new(
        method,
        &u,
        consumer_key,
        consumer_secret,
        oauthcli::SignatureMethod::HmacSha1,
    );
    builder.token(token, token_secret).timestamp(timestamp).nonce(nonce).request_parameters(
        params.iter().map(|p| (p.0.clone(), p.1.clone())),
    );
    builder.finish().to_string()
}

/// Relies on oauthcli::timestamp: the current Unix time in seconds,
/// formatted as a decimal `u64`.
#[allow(deprecated)]
#[verifier::external_body]
fn oauth_timestamp() -> (r: String)
    ensures
        is_digits(r@),
        dec_val(r@) <= u64::MAX,
{
    oauthcli::timestamp()
}

/// Relies on oauthcli::nonce: a fresh random alphanumeric string of 42
/// characters; nothing is promised of its value.
#[verifier::external_body]
fn oauth_nonce() -> (r: String)
    ensures
        r@.len() == 42,
{
    oauthcli::nonce()
}

/// The method name as it enters the signature base.
pub open spec fn spec_method_str(m: Method) -> Seq<char> {
    match m {
        Method::Options => "OPTIONS"@,
        Method::Get => "GET"@,
        Method::Post => "POST"@,
        Method::Put => "PUT"@,
        Method::Delete => "DELETE"@,
        Method::Head => "HEAD"@,
        Method::Trace => "TRACE"@,
        Method::Connect => "CONNECT"@,
        Method::Patch => "PATCH"@,
        Method::Extension(s) => s@,
    }
}

fn method_str(m: &Method) -> (r: &str)
    ensures
        r@ == spec_method_str(*m),
{
    match m {
        Method::Options => "OPTIONS",
        Method::Get => "GET",
        Method::Post => "POST",
        Method::Put => "PUT",
        Method::Delete => "DELETE",
        Method::Head => "HEAD",
        Method::Trace => "TRACE",
        Method::Connect => "CONNECT",
        Method::Patch => "PATCH",
        Method::Extension(s) => s.as_str(),
    }
}

/// OAuth 1.0 credentials: the four values are fixed at construction.
#[derive(Clone, Debug)]
pub struct OAuthAuthenticator {
    pub consumer_key: String,
    pub consumer_secret: String,
    pub access_token: String,
    pub access_token_secret: String,
}

impl PartialEq for OAuthAuthenticator {
    fn eq(&self, other: &OAuthAuthenticator) -> (r: bool) {
        self.consumer_key == other.consumer_key && self.consumer_secret == other.consumer_secret
            && self.access_token == other.access_token && self.access_token_secret
            == other.access_token_secret
    }
}

impl vstd::std_specs::cmp::PartialEqSpecImpl for OAuthAuthenticator {
    open spec fn obeys_eq_spec() -> bool {
        true
    }

    open spec fn eq_spec(&self, other: &OAuthAuthenticator) -> bool {
        self.consumer_key@ == other.consumer_key@ && self.consumer_secret@
            == other.consumer_secret@ && self.access_token@ == other.access_token@
            && self.access_token_secret@ == other.access_token_secret@
    }
}

impl OAuthAuthenticator {
    /// Wraps the four OAuth credentials.
    pub fn new(
        consumer_key: &str,
        consumer_secret: &str,
        access_token: &str,
        access_token_secret: &str,
    ) -> (r: OAuthAuthenticator)
        ensures
            r.consumer_key@ == consumer_key@,
            r.consumer_secret@ == consumer_secret@,
            r.access_token@ == access_token@,
            r.access_token_secret@ == access_token_secret@,
    {
        OAuthAuthenticator {
            consumer_key: consumer_key.to_owned(),
            consumer_secret: consumer_secret.to_owned(),
            access_token: access_token.to_owned(),
            access_token_secret: access_token_secret.to_owned(),
        }
    }

    /// Builds the signed request for one call: parses the URL (a parse
    /// failure, or a URL not usable for HTTP, is a `Uri` error), signs
    /// with a fresh timestamp and nonce over the non-file parameters, and
    /// plans the dispatch.
    pub fn prepare_request(&self, method: Method, url: &str, params: &Vec<Parameter>) -> (r: Result<
        PreparedRequest,
        HttpError,
    >)
        requires
            !spec_is_multipart(params@),
        ensures
            r is Ok <==> (url_split_of(url@) matches Some(p) && spec_http_base(p.0)),
            r matches Err(e) ==> e is Uri,
            r matches Ok(req) ==> (url_split_of(url@) matches Some(p) && {
                &&& req.method == method
                &&& (!spec_has_body(method) ==> req.url@ == p.0 + seq![0x3fu8] + spec_query(
                    spec_existing_pairs(p.1) + param_pairs(params@),
                ) && req.body is None)
                &&& (spec_has_body(method) ==> req.url@ == p.0 + spec_opt_query(p.1)
                    && (req.body matches Some(b) && b@ == spec_query(param_pairs(params@))))
                &&& exists|ts: u64, nonce: Seq<char>|
                    req.authorization@ == oauth_header_of(
                        spec_method_str(method),
                        url@,
                        self.consumer_key@,
                        self.consumer_secret@,
                        self.access_token@,
                        self.access_token_secret@,
                        ts,
                        nonce,
                        spec_signature_params(params@),
                    )
            }),
    {
        let (base, query) = match split_url(url) {
            Some(p) => p,
            None => {
                return Err(HttpError::Uri(url.to_owned()));
            },
        };
        if !is_http_base(&base) {
            return Err(HttpError::Uri(url.to_owned()));
        }
        let auth_params = signature_parameters(params);
        let ts_str = oauth_timestamp();
        let ts = match parse_dec_u64(ts_str.as_str()) {
            Some(t) => t,
            None => {
                proof {
                    assert(false);
                }
                0
            },
        };
        let nonce = oauth_nonce();
        let authorization = oauth_authorization_header(
            method_str(&method),
            url,
            self.consumer_key.as_str(),
            self.consumer_secret.as_str(),
            self.access_token.as_str(),
            self.access_token_secret.as_str(),
            ts,
            nonce.as_str(),
            &auth_params,
        );
        let ghost nview = nonce@;
        let req = prepare_request(method, base, query, params, authorization);
        proof {
            let p = url_split_of(url@).unwrap();
            assert(query.deep_view() == p.1) by {
                match query {
                    Some(q) => {
                        assert(q.deep_view() =~= q@);
                    },
                    None => {},
                }
            }
            assert(req.authorization@ == oauth_header_of(
                spec_method_str(method),
                url@,
                self.consumer_key@,
                self.consumer_secret@,
                self.access_token@,
                self.access_token_secret@,
                ts,
                nview,
                spec_signature_params(params@),
            ));
        }
        Ok(req)
    }
}

impl Authenticator for OAuthAuthenticator {
    /// The strategy interface mirrors `prepare_request`'s contract.
    fn authorize_request(&self, method: Method, url: &str, params: &Vec<Parameter>) -> (r: Result<
        PreparedRequest,
        HttpError,
    >)
        ensures
            r is Ok <==> (url_split_of(url@) matches Some(p) && spec_http_base(p.0)),
            r matches Err(e) ==> e is Uri,
            r matches Ok(req) ==> (url_split_of(url@) matches Some(p) && {
                &&& req.method == method
                &&& (!spec_has_body(method) ==> req.url@ == p.0 + seq![0x3fu8] + spec_query(
                    spec_existing_pairs(p.1) + param_pairs(params@),
                ) && req.body is None)
                &&& (spec_has_body(method) ==> req.url@ == p.0 + spec_opt_query(p.1)
                    && (req.body matches Some(b) && b@ == spec_query(param_pairs(params@))))
                &&& exists|ts: u64, nonce: Seq<char>|
                    req.authorization@ == oauth_header_of(
                        spec_method_str(method),
                        url@,
                        self.consumer_key@,
                        self.consumer_secret@,
                        self.access_token@,
                        self.access_token_secret@,
                        ts,
                        nonce,
                        spec_signature_params(params@),
                    )
            }),
    {
        self.prepare_request(method, url, params)
    }
}

} // verus!
