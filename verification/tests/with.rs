use mock_http_connector::handler::with::predicate::Predicate;
use mock_http_connector::handler::with::Body;
use mock_http_connector::{
    DefaultWith, Error, Header, Json, Reason, Report, Request, With, WithHandler,
};

fn request(method: &str, uri: &str, headers: &[(&str, &str)], body: &str) -> Request {
    Request {
        method: method.to_string(),
        uri: uri.to_string(),
        headers: headers
            .iter()
            .map(|(n, v)| Header { name: n.to_string(), value: v.as_bytes().to_vec() })
            .collect(),
        body: body.to_string(),
    }
}

fn reasons(report: Report) -> Vec<Reason> {
    match report {
        Report::Match => panic!("the request matched"),
        Report::Mismatch(reasons) => reasons,
    }
}

#[test]
fn with_handler_uri() {
    for uri in ["http://hello.example/", "http://hello.example/abc"] {
        let with = WithHandler::default().with_uri(uri).unwrap();
        assert!(with.uri.is_some());
    }
}

#[test]
fn with_handler_uri_keeps_the_uri() {
    let with = WithHandler::default().with_uri("http://hello.example/abc?x=1").unwrap();
    assert_eq!(with.uri.as_deref(), Some("http://hello.example/abc?x=1"));
    let with = WithHandler::default().with_uri("http://hello.example").unwrap();
    assert_eq!(with.uri.as_deref(), Some("http://hello.example/"));
}

#[test]
fn with_handler_uri_refuses_what_is_no_uri() {
    assert!(matches!(WithHandler::default().with_uri("http://a b/"), Err(Error::Http(_))));
    assert!(matches!(WithHandler::default().with_uri(""), Err(Error::Http(_))));
}

#[test]
fn with_handler_method() {
    let with = WithHandler::default().with_method("GET").unwrap();
    assert_eq!(with.method.as_deref(), Some("GET"));
    let with = WithHandler::default().with_method("PURGE").unwrap();
    assert_eq!(with.method.as_deref(), Some("PURGE"));
    assert!(matches!(WithHandler::default().with_method("G T"), Err(Error::Http(_))));
    assert!(matches!(WithHandler::default().with_method(""), Err(Error::Http(_))));
}

#[test]
fn with_handler_header() {
    let with = WithHandler::default().with_header("authorization", "Bearer 1234").unwrap();
    assert_eq!(with.headers.len(), 1);
    assert_eq!(with.headers[0].0, "authorization");
}

#[test]
fn with_handler_header_puts_the_name_in_lower_case() {
    let with = WithHandler::default().with_header("Content-Type", "text/html").unwrap();
    assert_eq!(with.headers[0].0, "content-type");
    let with = with.with_header_once("X-One", "1").unwrap();
    assert_eq!(with.headers.len(), 2);
    assert_eq!(with.headers[1].0, "x-one");
}

#[test]
fn with_handler_header_refuses_bad_names_and_values() {
    assert!(matches!(WithHandler::default().with_header("a b", "v"), Err(Error::Http(_))));
    assert!(matches!(WithHandler::default().with_header("a", "v\n"), Err(Error::Http(_))));
    assert!(matches!(WithHandler::default().with_header_once("", "v"), Err(Error::Http(_))));
    let values = vec!["ok".to_string(), "not\rok".to_string()];
    assert!(matches!(WithHandler::default().with_header_all("a", &values), Err(Error::Http(_))));
    let values = vec!["ok".to_string(), "fine\ttoo".to_string()];
    assert!(WithHandler::default().with_header_all("a", &values).is_ok());
}

#[test]
fn with_handler_body() {
    let with = WithHandler::default().with_body("TEST");
    assert!(matches!(with.body, Some(Body::String(ref b)) if b == "TEST"));
}

#[test]
fn with_handler_json() {
    let with = WithHandler::default().with_json(Json::Null).unwrap();
    assert!(matches!(with.body, Some(Body::Json(Json::Null))));
    let with = WithHandler::default().with_json_partial(Json::Bool(true)).unwrap();
    assert!(matches!(
        with.body,
        Some(Body::JsonPartial(Json::Bool(true)))
    ));
}

#[test]
fn default_with_takes_everything() {
    let req = request("DELETE", "http://x.test/", &[], "anything");
    assert_eq!(DefaultWith.with(&req).unwrap(), Report::Match);
}

#[test]
fn handler_without_conditions_takes_everything() {
    let req = request("DELETE", "http://x.test/", &[("a", "b")], "anything");
    assert_eq!(WithHandler::default().with(&req).unwrap(), Report::Match);
}

#[test]
fn handler_reports_every_reason() {
    let with = WithHandler::default()
        .with_method("POST")
        .unwrap()
        .with_uri("http://x.test/a")
        .unwrap()
        .with_header("accept", "text/html")
        .unwrap()
        .with_header_once("x-id", "1")
        .unwrap()
        .with_body("hello");
    let req = request("GET", "http://x.test/b", &[("x-id", "1"), ("x-id", "2")], "bye");
    let mut found = reasons(with.with(&req).unwrap());
    found.sort_by_key(|r| r.as_str());
    assert_eq!(
        found,
        vec![
            Reason::Body,
            Reason::Header("accept".to_string()),
            Reason::Header("x-id".to_string()),
            Reason::Method,
            Reason::Uri,
        ]
    );
    let headers = [("accept", "text/html"), ("x-id", "1")];
    let req = request("POST", "http://x.test/a", &headers, "hello");
    assert_eq!(with.with(&req).unwrap(), Report::Match);
}

#[test]
fn a_reason_stands_once() {
    let with = WithHandler::default()
        .with_header("accept", "a")
        .unwrap()
        .with_header("accept", "b")
        .unwrap();
    let req = request("GET", "http://x.test/", &[], "");
    assert_eq!(reasons(with.with(&req).unwrap()), vec![Reason::Header("accept".to_string())]);
}

#[test]
fn uri_is_compared_as_a_uri() {
    let with = WithHandler::default().with_uri("http://X.test/a").unwrap();
    assert_eq!(with.with(&request("GET", "http://x.test/a", &[], "")).unwrap(), Report::Match);
    assert_eq!(
        reasons(with.with(&request("GET", "http://x.test/A", &[], "")).unwrap()),
        vec![Reason::Uri]
    );
    assert_eq!(
        reasons(with.with(&request("GET", "https://x.test/a", &[], "")).unwrap()),
        vec![Reason::Uri]
    );
    assert_eq!(
        reasons(with.with(&request("GET", "not a uri", &[], "")).unwrap()),
        vec![Reason::Uri]
    );
}

#[test]
fn exact_json_body_refuses_more_than_expected() {
    let expected = Json::parse("{\"a\":1}").unwrap();
    let with = WithHandler::default().with_json(expected).unwrap();
    let more = request("POST", "http://x.test/", &[], "{\"a\":1,\"b\":2}");
    assert_eq!(reasons(with.with(&more).unwrap()), vec![Reason::Body]);
    let same = request("POST", "http://x.test/", &[], " { \"a\" : 1 } ");
    assert_eq!(with.with(&same).unwrap(), Report::Match);

    let expected = Json::parse("{\"a\":1}").unwrap();
    let partial = WithHandler::default().with_json_partial(expected).unwrap();
    assert_eq!(partial.with(&more).unwrap(), Report::Match);
    let less = request("POST", "http://x.test/", &[], "{\"b\":2}");
    assert_eq!(reasons(partial.with(&less).unwrap()), vec![Reason::Body]);
}

#[test]
fn json_condition_fails_on_a_body_that_is_no_json() {
    let with = WithHandler::default().with_method("PUT").unwrap().with_json(Json::Null).unwrap();
    let req = request("GET", "http://x.test/", &[], "not json");
    assert!(matches!(with.with(&req), Err(Error::Json(_))));
    let with = WithHandler::default().with_json_partial(Json::Null).unwrap();
    assert!(matches!(with.with(&req), Err(Error::Json(_))));
}

#[test]
fn predicate_says_what_its_function_says() {
    let with = Predicate::new(|req: &Request| Ok(Report::from_bool(req.body.contains("hello"))));
    assert_eq!(with.with(&request("GET", "/", &[], "oh hello")).unwrap(), Report::Match);
    assert_eq!(
        with.with(&request("GET", "/", &[], "bye")).unwrap(),
        Report::Mismatch(vec![])
    );
    let fails = Predicate::new(|_req: &Request| Err("broken".to_string()));
    assert_eq!(
        fails.with(&request("GET", "/", &[], "")),
        Err(Error::Runtime("broken".to_string()))
    );
}

#[test]
fn reports_from_plain_values() {
    assert_eq!(Report::from_bool(true), Report::Match);
    assert_eq!(Report::from_bool(false), Report::Mismatch(vec![]));
    assert_eq!(Report::from_reasons(vec![]), Report::Match);
    assert_eq!(
        Report::from_reasons(vec![Reason::Uri, Reason::Body, Reason::Uri]),
        Report::Mismatch(vec![Reason::Uri, Reason::Body])
    );
    assert_eq!(Report::from_reason(None), Report::Match);
    assert_eq!(Report::from_reason(Some(Reason::Method)), Report::Mismatch(vec![Reason::Method]));
    assert!(Report::Match.is_match());
    assert!(!Report::from_bool(false).is_match());
}

#[test]
fn reason_as_str() {
    assert_eq!(Reason::Method.as_str(), "method");
    assert_eq!(Reason::Uri.as_str(), "uri");
    assert_eq!(Reason::Header("accept".to_string()).as_str(), "header `accept`");
    assert_eq!(Reason::Body.as_str(), "body");
}
