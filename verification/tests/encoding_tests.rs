use tweetust::encoding::{create_query, parse_query_pairs};

fn bv(s: &str) -> Vec<u8> {
    s.as_bytes().to_vec()
}

#[test]
fn create_query_empty_input_yields_empty_string() {
    let pairs: Vec<(Vec<u8>, Vec<u8>)> = Vec::new();
    let q = create_query(&pairs);
    assert_eq!(q, bv(""));
}

#[test]
fn create_query_joins_pairs_in_order() {
    let pairs = vec![(bv("a"), bv("1")), (bv("b"), bv("2"))];
    assert_eq!(create_query(&pairs), bv("a=1&b=2"));
}

#[test]
fn create_query_escapes_ampersand_equals_and_space() {
    let pairs = vec![(bv("a&b"), bv("c=d e"))];
    assert_eq!(create_query(&pairs), bv("a%26b=c%3Dd%20e"));
}

#[test]
fn create_query_escapes_utf8_bytes_uppercase_hex() {
    let pairs = vec![(bv("k"), "ö".as_bytes().to_vec())];
    assert_eq!(create_query(&pairs), bv("k=%C3%B6"));
}

#[test]
fn create_query_keeps_unreserved_bytes() {
    let pairs = vec![(bv("AZaz09"), bv("-._~"))];
    assert_eq!(create_query(&pairs), bv("AZaz09=-._~"));
}

#[test]
fn query_round_trip_reproduces_pairs() {
    let pairs = vec![
        (bv("plain"), bv("value")),
        (bv("with&amp"), bv("with=eq")),
        (bv(""), bv("")),
        (bv("unicode"), "käse & brot".as_bytes().to_vec()),
    ];
    let q = create_query(&pairs);
    assert_eq!(parse_query_pairs(&q), pairs);
}

#[test]
fn encoded_output_has_no_raw_separators_from_input() {
    let pairs = vec![(bv("a&b"), bv("c")), (bv("d"), bv("e"))];
    let q = create_query(&pairs);
    // the single & is the pair separator; the & inside the key is escaped
    assert_eq!(q.iter().filter(|&&b| b == b'&').count(), 1);
    assert_eq!(q, bv("a%26b=c&d=e"));
}

#[test]
fn parse_query_pairs_splits_and_decodes() {
    let q = bv("a=1&b=%26&c");
    let pairs = parse_query_pairs(&q);
    assert_eq!(pairs, vec![(bv("a"), bv("1")), (bv("b"), bv("&")), (bv("c"), bv(""))]);
}

#[test]
fn parse_query_pairs_reads_plus_as_space() {
    let q = bv("a=1+2&b=%2B");
    let pairs = parse_query_pairs(&q);
    assert_eq!(pairs, vec![(bv("a"), bv("1 2")), (bv("b"), bv("+"))]);
}
