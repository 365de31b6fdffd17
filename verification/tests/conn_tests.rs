use tweetust::HttpError;
use tweetust::conn::{
    Authenticator, Method, Parameter, is_multipart, prepare_request, signature_parameters,
};
use tweetust::conn::ToParameter;
use tweetust::oauth_authenticator::OAuthAuthenticator;

fn bv(s: &str) -> Vec<u8> {
    s.as_bytes().to_vec()
}

fn value(k: &str, v: &str) -> Parameter {
    Parameter::Value(k.to_string(), v.to_string())
}

#[test]
fn is_multipart_false_for_empty_list() {
    assert!(!is_multipart(&Vec::new()));
}

#[test]
fn is_multipart_false_without_file() {
    let params = vec![value("a", "1"), value("b", "2")];
    assert!(!is_multipart(&params));
}

#[test]
fn is_multipart_true_with_file() {
    let params = vec![value("a", "1"), Parameter::File("media".to_string(), vec![1, 2, 3])];
    assert!(is_multipart(&params));
}

#[test]
fn get_merges_existing_query_then_new_params() {
    let params = vec![value("b", "2")];
    let req = prepare_request(
        Method::Get,
        bv("http://example.com/path"),
        Some(bv("a=1")),
        &params,
        "auth".to_string(),
    );
    assert_eq!(req.url, bv("http://example.com/path?a=1&b=2"));
    assert!(req.body.is_none());
    assert_eq!(req.authorization, "auth");
}

#[test]
fn post_keeps_url_and_encodes_body() {
    let params = vec![value("status", "hello world")];
    let req = prepare_request(
        Method::Post,
        bv("http://example.com/path"),
        Some(bv("a=1")),
        &params,
        "auth".to_string(),
    );
    assert_eq!(req.url, bv("http://example.com/path?a=1"));
    assert_eq!(req.body, Some(bv("status=hello%20world")));
}

#[test]
fn delete_and_head_carry_no_body() {
    for m in [Method::Delete, Method::Head] {
        let req = prepare_request(m, bv("http://example.com/x"), None, &Vec::new(), String::new());
        assert!(req.body.is_none());
        assert_eq!(req.url, bv("http://example.com/x?"));
    }
}

#[test]
fn signature_parameters_keep_values_without_file() {
    let params = vec![value("a", "1"), value("b", "2")];
    let sig = signature_parameters(&params);
    assert_eq!(sig, vec![("a".to_string(), "1".to_string()), ("b".to_string(), "2".to_string())]);
}

#[test]
fn signature_parameters_empty_when_multipart() {
    let params = vec![value("a", "1"), Parameter::File("media".to_string(), vec![0])];
    assert!(signature_parameters(&params).is_empty());
}

#[test]
fn oauth_get_merges_query_through_url_parsing() {
    let auth = OAuthAuthenticator::new("ck", "cs", "at", "ats");
    let params = vec![value("b", "2")];
    let req = auth.prepare_request(Method::Get, "http://example.com/path?a=1", &params).unwrap();
    assert_eq!(req.url, bv("http://example.com/path?a=1&b=2"));
    assert!(req.body.is_none());
    assert!(req.authorization.starts_with("OAuth "));
    assert!(req.authorization.contains("oauth_signature="));
}

#[test]
fn oauth_rejects_unparseable_url() {
    let auth = OAuthAuthenticator::new("ck", "cs", "at", "ats");
    let r = auth.prepare_request(Method::Get, "not a url", &Vec::new());
    assert!(matches!(r, Err(HttpError::Uri(_))));
}

#[test]
fn oauth_rejects_non_http_scheme() {
    let auth = OAuthAuthenticator::new("ck", "cs", "at", "ats");
    let r = auth.prepare_request(Method::Get, "ftp://example.com/x", &Vec::new());
    assert!(matches!(r, Err(HttpError::Uri(_))));
}

#[test]
fn two_signed_requests_have_distinct_authorization() {
    let auth = OAuthAuthenticator::new("ck", "cs", "at", "ats");
    let params = vec![value("a", "1")];
    let r1 = auth.prepare_request(Method::Post, "https://example.com/up", &params).unwrap();
    let r2 = auth.prepare_request(Method::Post, "https://example.com/up", &params).unwrap();
    assert_ne!(r1.authorization, r2.authorization);
}

#[test]
fn trait_strategy_plans_like_the_inherent_call() {
    let auth = OAuthAuthenticator::new("ck", "cs", "at", "ats");
    let params = vec![value("b", "2")];
    let req = auth.authorize_request(Method::Get, "https://example.com/p?a=1", &params).unwrap();
    assert_eq!(req.url, bv("https://example.com/p?a=1&b=2"));
}

#[test]
fn oauth_authenticators_compare_by_credentials() {
    let a = OAuthAuthenticator::new("ck", "cs", "at", "ats");
    let b = OAuthAuthenticator::new("ck", "cs", "at", "ats");
    let c = OAuthAuthenticator::new("ck2", "cs", "at", "ats");
    assert_eq!(a, b);
    assert_ne!(a, c);
}

#[test]
fn to_parameter_wraps_displayed_value() {
    let p = 42.to_parameter("count");
    match p {
        Parameter::Value(k, v) => {
            assert_eq!(k, "count");
            assert_eq!(v, "42");
        },
        _ => panic!("expected a scalar parameter"),
    }
}

#[test]
fn vec_to_parameter_joins_with_commas() {
    let p = tweetust::conn::vec_to_parameter(&vec![1, 2, 3], "ids");
    match p {
        Parameter::Value(k, v) => {
            assert_eq!(k, "ids");
            assert_eq!(v, "1,2,3");
        },
        _ => panic!("expected a scalar parameter"),
    }
}

#[test]
fn get_rereads_existing_query_with_form_semantics() {
    let params = vec![value("b", "2")];
    let req = prepare_request(
        Method::Get,
        bv("http://example.com/p"),
        Some(bv("a=1+2")),
        &params,
        String::new(),
    );
    // the existing pair (a, "1 2") is re-encoded with the OAuth set
    assert_eq!(req.url, bv("http://example.com/p?a=1%202&b=2"));
}

#[test]
fn join_comma_separates_only_after_text() {
    let parts = vec!["".to_string(), "a".to_string(), "".to_string(), "b".to_string()];
    assert_eq!(tweetust::conn::join_comma(&parts), "a,,b");
    assert_eq!(tweetust::conn::join_comma(&Vec::new()), "");
}
