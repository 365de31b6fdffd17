//! Building the one HTTP exchange of a call: the parameter model, the
//! method model, and the dispatch decision (query-only methods vs.
//! body-carrying methods).

use vstd::prelude::*;
use vstd::string::StrSliceExecFns;
use vstd::utf8::encode_utf8;

use crate::HttpError;
use crate::encoding::{create_query, parse_query, parse_query_pairs, spec_query};

verus! {

/// One request parameter: a scalar form/query field, or a file attachment
/// (the file's bytes) for a multipart upload.
pub enum Parameter {
    Value(String, String),
    File(String, Vec<u8>),
}

/// A request is multipart exactly when at least one parameter is a file.
pub open spec fn spec_is_multipart(ps: Seq<Parameter>) -> bool {
    exists|i: int| 0 <= i < ps.len() && ps[i] is File
}

/// Whether the parameter list requires a multipart request: true iff at
/// least one `File` parameter is present, and false for an empty list.
pub fn is_multipart(params: &Vec<Parameter>) -> (r: bool)
    ensures
        r == spec_is_multipart(params@),
{
    let mut i: usize = 0;
    while i < params.len()
        invariant
            i <= params@.len(),
            forall|j: int| 0 <= j < i ==> !(params@[j] is File),
        decreases params@.len() - i,
    {
        match &params[i] {
            Parameter::File(_, _) => {
                return true;
            },
            Parameter::Value(_, _) => {},
        }
        i = i + 1;
    }
    false
}

/// The (key, value) byte pairs of a parameter list, as they enter an
/// encoded query or body.  Meaningful only for lists without files.
pub open spec fn param_pairs(ps: Seq<Parameter>) -> Seq<(Seq<u8>, Seq<u8>)> {
    ps.map(
        |i: int, p: Parameter|
            match p {
                Parameter::Value(k, v) => (encode_utf8(k@), encode_utf8(v@)),
                Parameter::File(k, _) => (encode_utf8(k@), Seq::<u8>::empty()),
            },
    )
}

/// Extracts the (key, value) byte pairs of a file-free parameter list.
pub fn parameter_pairs(params: &Vec<Parameter>) -> (r: Vec<(Vec<u8>, Vec<u8>)>)
    requires
        !spec_is_multipart(params@),
    ensures
        r.deep_view() == param_pairs(params@),
{
    let mut out: Vec<(Vec<u8>, Vec<u8>)> = Vec::new();
    let mut i: usize = 0;
    while i < params.len()
        invariant
            i <= params@.len(),
            !spec_is_multipart(params@),
            out.deep_view() == param_pairs(params@.take(i as int)),
        decreases params@.len() - i,
    {
        let ghost out0 = out.deep_view();
        match &params[i] {
            Parameter::Value(k, v) => {
                let pair = (k.as_str().as_bytes_vec(), v.as_str().as_bytes_vec());
                proof {
                    assert(pair.0.deep_view() =~= pair.0@);
                    assert(pair.1.deep_view() =~= pair.1@);
                }
                out.push(pair);
            },
            Parameter::File(_, _) => {
                proof {
                    assert(params@[i as int] is File);
                    assert(false);
                }
            },
        }
        proof {
            assert(out.deep_view() =~= out0.push(param_pairs(params@)[i as int]));
            assert(param_pairs(params@.take(i + 1 as int)) =~= param_pairs(
                params@.take(i as int),
            ).push(param_pairs(params@)[i as int]));
        }
        i = i + 1;
    }
    proof {
        assert(params@.take(params@.len() as int) =~= params@);
    }
    out
}

/// The parameters that enter the OAuth signature base: every (key, value)
/// pair when the request is not multipart; none at all when it is, since
/// file uploads are excluded from the signature.
pub open spec fn spec_signature_params(ps: Seq<Parameter>) -> Seq<(Seq<char>, Seq<char>)> {
    if spec_is_multipart(ps) {
        Seq::empty()
    } else {
        ps.map(
            |i: int, p: Parameter|
                match p {
                    Parameter::Value(k, v) => (k@, v@),
                    Parameter::File(k, _) => (k@, Seq::<char>::empty()),
                },
        )
    }
}

/// The (key, value) pairs that enter the OAuth signature base.
pub fn signature_parameters(params: &Vec<Parameter>) -> (r: Vec<(String, String)>)
    ensures
        r.deep_view() == spec_signature_params(params@),
{
    let mut out: Vec<(String, String)> = Vec::new();
    if is_multipart(params) {
        proof {
            assert(out.deep_view() =~= spec_signature_params(params@));
        }
        return out;
    }
    let mut i: usize = 0;
    while i < params.len()
        invariant
            i <= params@.len(),
            !spec_is_multipart(params@),
            out.deep_view() == spec_signature_params(params@.take(i as int)),
        decreases params@.len() - i,
    {
        let ghost out0 = out.deep_view();
        match &params[i] {
            Parameter::Value(k, v) => {
                let pair = (k.clone(), v.clone());
                proof {
                    assert(pair.deep_view() == (k@, v@));
                }
                out.push(pair);
            },
            Parameter::File(_, _) => {
                proof {
                    assert(params@[i as int] is File);
                    assert(false);
                }
            },
        }
        proof {
            assert(!spec_is_multipart(params@.take(i as int)));
            assert(!spec_is_multipart(params@.take(i + 1 as int))) by {
                assert forall|j: int| 0 <= j < i + 1 implies !(#[trigger] params@.take(
                    i + 1 as int,
                )[j] is File) by {
                    assert(params@.take(i + 1 as int)[j] == params@[j]);
                }
            }
            assert(out.deep_view() =~= out0.push(spec_signature_params(params@)[i as int]));
            assert(spec_signature_params(params@.take(i + 1 as int)) =~= spec_signature_params(
                params@.take(i as int),
            ).push(spec_signature_params(params@)[i as int]));
        }
        i = i + 1;
    }
    proof {
        assert(params@.take(params@.len() as int) =~= params@);
    }
    out
}

/// Round-trip law: for a parameter list without files, splitting the
/// encoded query on `&` and `=` and form-decoding each side reproduces
/// the parameters' (key, value) byte pairs, in their original order.
pub proof fn lemma_params_round_trip(ps: Seq<Parameter>)
    requires
        !spec_is_multipart(ps),
    ensures
        parse_query(spec_query(param_pairs(ps))) == param_pairs(ps),
{
    crate::encoding::lemma_query_round_trip(param_pairs(ps));
}

/// The HTTP method of a request.
#[derive(Clone, Debug)]
pub enum Method {
    Options,
    Get,
    Post,
    Put,
    Delete,
    Head,
    Trace,
    Connect,
    Patch,
    Extension(String),
}

/// GET, DELETE and HEAD requests never carry a body; every other method
/// places its parameters in a form-encoded body.
pub open spec fn spec_has_body(m: Method) -> bool {
    !(m is Get || m is Delete || m is Head)
}

/// Whether requests with this method carry their parameters in the body.
pub fn method_has_body(m: &Method) -> (r: bool)
    ensures
        r == spec_has_body(*m),
{
    match m {
        Method::Get => false,
        Method::Delete => false,
        Method::Head => false,
        _ => true,
    }
}

/// A fully planned HTTP exchange: everything the transport needs.  When
/// `body` is present it is `application/x-www-form-urlencoded`.
pub struct PreparedRequest {
    pub method: Method,
    pub url: Vec<u8>,
    pub body: Option<Vec<u8>>,
    pub authorization: String,
}

/// The decoded pairs of a pre-existing URL query, empty when there is none.
pub open spec fn spec_existing_pairs(q: Option<Seq<u8>>) -> Seq<(Seq<u8>, Seq<u8>)> {
    match q {
        None => Seq::empty(),
        Some(qs) => parse_query(qs),
    }
}

/// A query as it is re-attached to a URL: `?` followed by the query, or
/// nothing at all.
pub open spec fn spec_opt_query(q: Option<Seq<u8>>) -> Seq<u8> {
    match q {
        None => Seq::empty(),
        Some(qs) => seq![0x3fu8] + qs,
    }
}

/// Plans the single HTTP exchange of a call, given the target URL split
/// into its part before the query and its query.
///
/// Bodyless methods (GET, DELETE, HEAD) merge every parameter into the URL
/// query: the pre-existing query pairs first, then the new parameters, all
/// re-encoded in that order.  Every other method keeps the URL as it is
/// and sends the parameters as a form-encoded body.  Multipart requests
/// are not supported by this transport layer.
pub fn prepare_request(
    method: Method,
    base: Vec<u8>,
    query: Option<Vec<u8>>,
    params: &Vec<Parameter>,
    authorization: String,
) -> (r: PreparedRequest)
    requires
        !spec_is_multipart(params@),
    ensures
        r.method == method,
        r.authorization == authorization,
        !spec_has_body(method) ==> r.url@ == base@ + seq![0x3fu8] + spec_query(
            spec_existing_pairs(query.deep_view()) + param_pairs(params@),
        ),
        !spec_has_body(method) ==> r.body is None,
        spec_has_body(method) ==> r.url@ == base@ + spec_opt_query(query.deep_view()),
        spec_has_body(method) ==> (r.body matches Some(b) && b@ == spec_query(
            param_pairs(params@),
        )),
{
    let has_body = method_has_body(&method);
    let mut url = base;
    if !has_body {
        let mut pairs = match &query {
            Some(q) => {
                proof {
                    assert(q.deep_view() =~= q@);
                }
                parse_query_pairs(q)
            },
            None => Vec::new(),
        };
        let ghost da = pairs.deep_view();
        let mut ppairs = parameter_pairs(params);
        let ghost db = ppairs.deep_view();
        pairs.append(&mut ppairs);
        proof {
            assert forall|ix: int| 0 <= ix < pairs@.len() implies pairs.deep_view()[ix] == (da
                + db)[ix] by {
                if ix < da.len() {
                } else {
                }
            }
            assert(pairs.deep_view() =~= da + db);
            assert(da + db =~= spec_existing_pairs(query.deep_view()) + param_pairs(params@))
                by {
                if query is None {
                    assert(da =~= Seq::<(Seq<u8>, Seq<u8>)>::empty());
                }
            }
        }
        let mut qs = create_query(&pairs);
        url.push(0x3f);
        url.append(&mut qs);
        proof {
            assert(url@ =~= base@ + seq![0x3fu8] + spec_query(
                spec_existing_pairs(query.deep_view()) + param_pairs(params@),
            ));
        }
        PreparedRequest { method, url, body: None, authorization }
    } else {
        match &query {
            Some(q) => {
                proof {
                    assert(q.deep_view() =~= q@);
                }
                url.push(0x3f);
                let mut qc = clone_bytes(q);
                url.append(&mut qc);
            },
            None => {},
        }
        proof {
            assert(url@ =~= base@ + spec_opt_query(query.deep_view()));
        }
        let pairs = parameter_pairs(params);
        let body = create_query(&pairs);
        PreparedRequest { method, url, body: Some(body), authorization }
    }
}

/// A plain copy of a byte string.
fn clone_bytes(v: &Vec<u8>) -> (r: Vec<u8>)
    ensures
        r@ == v@,
{
    let mut out: Vec<u8> = Vec::new();
    let mut i: usize = 0;
    while i < v.len()
        invariant
            i <= v@.len(),
            out@ == v@.take(i as int),
        decreases v@.len() - i,
    {
        out.push(v[i]);
        proof {
            assert(v@.take(i + 1 as int) =~= v@.take(i as int).push(v@[i as int]));
        }
        i = i + 1;
    }
    proof {
        assert(v@.take(v@.len() as int) =~= v@);
    }
    out
}

/// Anything that can stand as a scalar parameter value under a key.
pub trait ToParameter {
    /// Turns the value into a scalar parameter under the given key.
    fn to_parameter(self, key: &str) -> (r: Parameter)
        ensures
            r matches Parameter::Value(k, _) && k@ == key@,
    ;
}

impl<T: core::fmt::Display> ToParameter for T {
    fn to_parameter(self, key: &str) -> (r: Parameter) {
        Parameter::Value(key.to_owned(), self.to_string())
    }
}

/// A comma-join as list parameters are rendered: a separator is written
/// only when something has been written already, so empty renderings at
/// the front add no separator.
pub open spec fn comma_join_from(acc: Seq<char>, parts: Seq<Seq<char>>) -> Seq<char>
    decreases parts.len(),
{
    if parts.len() == 0 {
        acc
    } else {
        comma_join_from(
            if acc.len() > 0 {
                acc + seq![','] + parts[0]
            } else {
                acc + parts[0]
            },
            parts.drop_first(),
        )
    }
}

/// The comma-joined form of the given parts.
pub open spec fn comma_joined(parts: Seq<Seq<char>>) -> Seq<char> {
    comma_join_from(Seq::empty(), parts)
}

proof fn lemma_comma_join_snoc(acc: Seq<char>, ps: Seq<Seq<char>>, p: Seq<char>)
    ensures
        comma_join_from(acc, ps.push(p)) == (if comma_join_from(acc, ps).len() > 0 {
            comma_join_from(acc, ps) + seq![','] + p
        } else {
            comma_join_from(acc, ps) + p
        }),
    decreases ps.len(),
{
    if ps.len() == 0 {
        assert(ps.push(p)[0] == p);
        assert(ps.push(p).drop_first() =~= Seq::<Seq<char>>::empty());
        let acc2 = if acc.len() > 0 {
            acc + seq![','] + p
        } else {
            acc + p
        };
        assert(comma_join_from(acc, ps.push(p)) == comma_join_from(
            acc2,
            Seq::<Seq<char>>::empty(),
        ));
        assert(comma_join_from(acc2, Seq::<Seq<char>>::empty()) == acc2);
        assert(comma_join_from(acc, ps) == acc);
    } else {
        assert(ps.push(p)[0] == ps[0]);
        assert(ps.push(p).drop_first() =~= ps.drop_first().push(p));
        let acc2 = if acc.len() > 0 {
            acc + seq![','] + ps[0]
        } else {
            acc + ps[0]
        };
        lemma_comma_join_snoc(acc2, ps.drop_first(), p);
    }
}

/// Joins the given strings with commas, writing a separator only before a
/// part when something stands in the result already.
pub fn join_comma(parts: &Vec<String>) -> (r: String)
    ensures
        r@ == comma_joined(parts.deep_view()),
{
    let mut val = String::new();
    let mut i: usize = 0;
    proof {
        assert(parts.deep_view().take(0) =~= Seq::<Seq<char>>::empty());
    }
    while i < parts.len()
        invariant
            i <= parts@.len(),
            val@ == comma_joined(parts.deep_view().take(i as int)),
        decreases parts@.len() - i,
    {
        let ghost dv = parts.deep_view();
        if val.as_str().unicode_len() > 0 {
            val.append(",");
        }
        val.append(parts[i].as_str());
        proof {
            reveal_strlit(",");
            assert(","@ =~= seq![',']);
            assert(dv[i as int] == parts@[i as int]@);
            lemma_comma_join_snoc(Seq::empty(), dv.take(i as int), dv[i as int]);
            assert(dv.take(i + 1 as int) =~= dv.take(i as int).push(dv[i as int]));
        }
        i = i + 1;
    }
    proof {
        assert(parts.deep_view().take(parts.deep_view().len() as int) =~= parts.deep_view());
    }
    val
}

/// Joins the displayed items with commas under one key: the parameter
/// form of a list-valued argument.  The value is exactly the comma-join
/// of the items' `Display` renderings, in order.
pub fn vec_to_parameter<T: core::fmt::Display>(items: &Vec<T>, key: &str) -> (r: Parameter)
    ensures
        r matches Parameter::Value(k, v) && k@ == key@ && (exists|parts: Seq<String>|
            #![auto]
            parts.len() == items@.len() && (forall|i: int|
                0 <= i < parts.len() ==> vstd::string::to_string_from_display_ensures(
                    &items@[i],
                    parts[i],
                )) && v@ == comma_joined(parts.map_values(|p: String| p@))),
{
    let mut parts: Vec<String> = Vec::new();
    let mut i: usize = 0;
    while i < items.len()
        invariant
            i <= items@.len(),
            parts@.len() == i,
            forall|j: int|
                0 <= j < i ==> vstd::string::to_string_from_display_ensures(
                    &items@[j],
                    #[trigger] parts@[j],
                ),
        decreases items@.len() - i,
    {
        let s = (&items[i]).to_string();
        parts.push(s);
        i = i + 1;
    }
    let val = join_comma(&parts);
    proof {
        assert(parts.deep_view() =~= parts@.map_values(|p: String| p@));
    }
    Parameter::Value(key.to_owned(), val)
}

/// An authentication strategy: given a method, URL and parameters, it
/// produces the signed/authorized request to exchange.  The transport that
/// carries the request out is injected one layer up.  Every strategy owes
/// the dispatch decision: the planned request keeps the method, and
/// carries a body exactly when the method does.
pub trait Authenticator {
    fn authorize_request(&self, method: Method, url: &str, params: &Vec<Parameter>) -> (r: Result<
        PreparedRequest,
        HttpError,
    >)
        requires
            !spec_is_multipart(params@),
        ensures
            r matches Ok(p) ==> p.method == method && (p.body is Some) == spec_has_body(method),
    ;
}

} // verus!
