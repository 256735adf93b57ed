use mock_http_connector::handler::with::header::{check_headers, header_values};
use mock_http_connector::handler::with::HeaderCheck;
use mock_http_connector::Header;

fn header(name: &str, value: &str) -> Header {
    Header { name: name.to_string(), value: value.as_bytes().to_vec() }
}

fn sample() -> Vec<Header> {
    vec![
        header("authorization", "bearer 123"),
        header("authorization", "bearer 1234"),
        header("content-type", "application/json"),
    ]
}

fn bytes(text: &str) -> Vec<u8> {
    text.as_bytes().to_vec()
}

#[test]
fn test_check_headers() {
    let key = "authorization".to_string();
    let cases: Vec<(HeaderCheck, bool)> = vec![
        (HeaderCheck::AtLeastOnce(bytes("bearer 123")), true),
        (HeaderCheck::AtLeastOnce(bytes("bearer 1234")), true),
        (HeaderCheck::ExactlyOnce(bytes("bearer 123")), false),
        (HeaderCheck::ExactlyOnce(bytes("bearer 1234")), false),
        (HeaderCheck::All(vec![bytes("bearer 123")]), false),
        (HeaderCheck::All(vec![bytes("bearer 1234")]), false),
        (HeaderCheck::All(vec![bytes("bearer 123"), bytes("bearer 1234")]), true),
        (HeaderCheck::All(vec![bytes("bearer 1234"), bytes("bearer 123")]), true),
    ];
    for (check, expected) in cases {
        assert_eq!(check_headers(&sample(), &key, &check), expected, "{:?}", check);
    }
}

#[test]
fn exactly_once_holds_for_a_single_header() {
    let key = "content-type".to_string();
    let headers = sample();
    assert!(check_headers(&headers, &key, &HeaderCheck::ExactlyOnce(bytes("application/json"))));
    assert!(!check_headers(&headers, &key, &HeaderCheck::ExactlyOnce(bytes("text/html"))));
    assert!(check_headers(&headers, &key, &HeaderCheck::AtLeastOnce(bytes("application/json"))));
    assert!(!check_headers(&headers, &key, &HeaderCheck::AtLeastOnce(bytes("text/html"))));
}

#[test]
fn a_header_that_is_missing_meets_no_value() {
    let key = "accept".to_string();
    let headers = sample();
    assert!(!check_headers(&headers, &key, &HeaderCheck::AtLeastOnce(bytes("a"))));
    assert!(!check_headers(&headers, &key, &HeaderCheck::ExactlyOnce(bytes("a"))));
    assert!(!check_headers(&headers, &key, &HeaderCheck::All(vec![bytes("a")])));
    assert!(check_headers(&headers, &key, &HeaderCheck::All(vec![])));
}

#[test]
fn all_counts_how_often_a_value_stands() {
    let key = "x".to_string();
    let headers = vec![header("x", "b"), header("y", "c"), header("x", "a"), header("x", "b")];
    let check = |values: &[&str]| {
        HeaderCheck::All(values.iter().map(|v| bytes(v)).collect())
    };
    assert!(check_headers(&headers, &key, &check(&["a", "b", "b"])));
    assert!(check_headers(&headers, &key, &check(&["b", "a", "b"])));
    assert!(!check_headers(&headers, &key, &check(&["a", "b"])));
    assert!(!check_headers(&headers, &key, &check(&["a", "a", "b"])));
    assert!(!check_headers(&headers, &key, &check(&["a", "b", "b", "c"])));
}

#[test]
fn header_values_keeps_the_order() {
    let headers = vec![header("x", "b"), header("y", "c"), header("x", "a")];
    assert_eq!(header_values(&headers, &"x".to_string()), vec![bytes("b"), bytes("a")]);
    assert_eq!(header_values(&headers, &"y".to_string()), vec![bytes("c")]);
    assert!(header_values(&headers, &"z".to_string()).is_empty());
}
