use tweetust::models::RateLimitStatus;
use tweetust::response::{RawResponse, parse_dec_u64, rate_limit_status, read_to_twitter_result};
use tweetust::{HttpError, TwitterError};

fn h(name: &str, value: &str) -> (String, String) {
    (name.to_string(), value.to_string())
}

fn rate_headers() -> Vec<(String, String)> {
    vec![
        h("X-Rate-Limit-Limit", "180"),
        h("X-Rate-Limit-Remaining", "175"),
        h("X-Rate-Limit-Reset", "1700000000"),
    ]
}

#[test]
fn success_carries_body_and_rate_limit() {
    let res = RawResponse { status: 200, headers: rate_headers(), body: Ok("{}".to_string()) };
    let r = read_to_twitter_result(Ok(res)).unwrap();
    assert_eq!(*r.raw_response, "{}");
    assert_eq!(
        r.rate_limit,
        Some(RateLimitStatus { limit: 180, remaining: 175, reset: 1700000000 })
    );
}

#[test]
fn missing_remaining_header_means_no_rate_limit_at_all() {
    let headers = vec![h("X-Rate-Limit-Limit", "180"), h("X-Rate-Limit-Reset", "1700000000")];
    let res = RawResponse { status: 200, headers, body: Ok("{}".to_string()) };
    let r = read_to_twitter_result(Ok(res)).unwrap();
    assert_eq!(r.rate_limit, None);
}

#[test]
fn unparseable_header_value_means_no_rate_limit() {
    let headers = vec![
        h("X-Rate-Limit-Limit", "180"),
        h("X-Rate-Limit-Remaining", "soon"),
        h("X-Rate-Limit-Reset", "1700000000"),
    ];
    assert_eq!(rate_limit_status(&headers), None);
}

#[test]
fn header_names_match_case_insensitively() {
    let headers = vec![
        h("x-rate-limit-limit", "15"),
        h("X-RATE-LIMIT-REMAINING", "14"),
        h("x-Rate-Limit-Reset", "1"),
    ];
    assert_eq!(
        rate_limit_status(&headers),
        Some(RateLimitStatus { limit: 15, remaining: 14, reset: 1 })
    );
}

#[test]
fn status_429_with_error_body_yields_one_entry() {
    let body = r#"{"errors":[{"code":88,"message":"Rate limit exceeded"}]}"#;
    let res = RawResponse { status: 429, headers: rate_headers(), body: Ok(body.to_string()) };
    match read_to_twitter_result(Ok(res)) {
        Err(TwitterError::ErrorResponse(e)) => {
            assert_eq!(e.status, 429);
            let errors = e.errors.unwrap();
            assert_eq!(errors.len(), 1);
            assert_eq!(errors[0].code, 88);
            assert_eq!(errors[0].message, "Rate limit exceeded");
            assert_eq!(e.raw_response, body);
            assert_eq!(
                e.rate_limit,
                Some(RateLimitStatus { limit: 180, remaining: 175, reset: 1700000000 })
            );
        },
        _ => panic!("expected an API error response"),
    }
}

#[test]
fn error_key_is_used_when_errors_is_absent() {
    let body = r#"{"error":[{"code":34,"message":"Sorry, that page does not exist"}]}"#;
    let res = RawResponse { status: 404, headers: Vec::new(), body: Ok(body.to_string()) };
    match read_to_twitter_result(Ok(res)) {
        Err(TwitterError::ErrorResponse(e)) => {
            let errors = e.errors.unwrap();
            assert_eq!(errors[0].code, 34);
        },
        _ => panic!("expected an API error response"),
    }
}

#[test]
fn status_500_with_unparseable_body_keeps_status_and_no_entries() {
    let body = "<html>Internal Server Error</html>";
    let res = RawResponse { status: 500, headers: Vec::new(), body: Ok(body.to_string()) };
    match read_to_twitter_result(Ok(res)) {
        Err(TwitterError::ErrorResponse(e)) => {
            assert_eq!(e.status, 500);
            assert!(e.errors.is_none());
            assert_eq!(e.raw_response, body);
        },
        _ => panic!("expected an API error response"),
    }
}

#[test]
fn transport_failure_is_returned_unchanged() {
    let r = read_to_twitter_result(Err(HttpError::Connection("refused".to_string())));
    assert!(matches!(r, Err(TwitterError::HttpError(HttpError::Connection(m))) if m == "refused"));
}

#[test]
fn body_read_failure_is_a_distinct_io_error() {
    let res = RawResponse {
        status: 200,
        headers: Vec::new(),
        body: Err("unexpected EOF".to_string()),
    };
    let r = read_to_twitter_result(Ok(res));
    assert!(matches!(r, Err(TwitterError::HttpError(HttpError::Io(m))) if m == "unexpected EOF"));
}

#[test]
fn parse_dec_u64_accepts_digits_only() {
    assert_eq!(parse_dec_u64("0"), Some(0));
    assert_eq!(parse_dec_u64("1700000000"), Some(1700000000));
    assert_eq!(parse_dec_u64("18446744073709551615"), Some(u64::MAX));
}

#[test]
fn parse_dec_u64_rejects_junk_and_overflow() {
    assert_eq!(parse_dec_u64(""), None);
    assert_eq!(parse_dec_u64("12a"), None);
    assert_eq!(parse_dec_u64("-3"), None);
    assert_eq!(parse_dec_u64(" 5"), None);
    assert_eq!(parse_dec_u64("18446744073709551616"), None);
}
