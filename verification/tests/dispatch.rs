use mock_http_connector::bindings::httparse::RequestHead;
use mock_http_connector::connector::into_request;
use mock_http_connector::{
    Checkpoint, Connector, Error, Header, Json, Level, Reason, Request, Response,
};

fn get(uri: &str) -> Request {
    Request {
        method: "GET".to_string(),
        uri: uri.to_string(),
        headers: vec![],
        body: String::new(),
    }
}

fn post(uri: &str, body: &str) -> Request {
    Request {
        method: "POST".to_string(),
        uri: uri.to_string(),
        headers: vec![],
        body: body.to_string(),
    }
}

fn answer(connector: &mut Connector, req: Request) -> Result<Response, Error> {
    let index = connector.inner.select(&req)?;
    connector.inner.cases[index].returning.returning(req)
}

fn seen(connector: &Connector) -> Vec<usize> {
    connector.inner.cases.iter().map(|case| case.seen).collect()
}

#[test]
fn one_call_meets_the_expectation_and_two_do_not() {
    let mut builder = Connector::builder();
    builder
        .expect()
        .with_method("GET")
        .with_uri("http://x.test/a")
        .times(1)
        .returning("OK")
        .unwrap();
    let mut connector = builder.build();

    let response = answer(&mut connector, get("http://x.test/a")).unwrap();
    assert_eq!(response.status, 200);
    assert_eq!(response.body, "OK");
    assert_eq!(connector.checkpoint(), Ok(()));

    answer(&mut connector, get("http://x.test/a")).unwrap();
    assert_eq!(
        connector.checkpoint(),
        Err(Error::Checkpoint(vec![Checkpoint { expected: 1, got: 2 }]))
    );
}

#[test]
fn exact_json_case_refuses_a_larger_body() {
    let mut builder = Connector::builder();
    builder.expect().with_json(Json::parse("{\"a\":1}").unwrap()).returning("OK").unwrap();
    let mut connector = builder.build();
    let result = answer(&mut connector, post("http://x.test/", "{\"a\":1,\"b\":2}"));
    assert!(matches!(result, Err(Error::NotFound { .. })));
    assert!(answer(&mut connector, post("http://x.test/", "{\"a\":1}")).is_ok());
}

#[test]
fn no_match_fails_and_leaves_the_counts() {
    let mut builder = Connector::builder();
    builder.expect().with_uri("http://x.test/a").times(0).returning("OK").unwrap();
    builder.expect().with_method("PUT").returning("OK").unwrap();
    let mut connector = builder.build();
    let before = connector.checkpoint();
    let req = get("http://x.test/other");
    match answer(&mut connector, get("http://x.test/other")) {
        Err(Error::NotFound { request, reports }) => {
            assert_eq!(request, req);
            assert_eq!(reports, Some(vec![vec![Reason::Uri], vec![Reason::Method]]));
        },
        other => panic!("{:?}", other),
    }
    assert_eq!(seen(&connector), vec![0, 0]);
    assert_eq!(connector.checkpoint(), before);
    assert_eq!(connector.checkpoint(), Ok(()));
}

#[test]
fn the_level_decides_whether_reasons_are_given() {
    for (level, told) in [(Level::Silent, false), (Level::Error, false), (Level::Missing, true)] {
        let mut builder = Connector::builder();
        builder.level(level);
        builder.expect().with_method("PUT").returning("OK").unwrap();
        let mut connector = builder.build();
        match answer(&mut connector, get("http://x.test/")) {
            Err(Error::NotFound { reports, .. }) => assert_eq!(reports.is_some(), told),
            other => panic!("{:?}", other),
        }
    }
}

#[test]
fn registration_order_wins_over_the_closer_match() {
    let mut builder = Connector::builder();
    builder.expect().with_uri("http://x.test/a").returning("first").unwrap();
    builder
        .expect()
        .with_uri("http://x.test/a")
        .with_method("GET")
        .returning("second")
        .unwrap();
    let mut connector = builder.build();
    let response = answer(&mut connector, get("http://x.test/a")).unwrap();
    assert_eq!(response.body, "first");
    assert_eq!(seen(&connector), vec![1, 0]);
}

#[test]
fn the_first_case_that_matches_is_counted_alone() {
    let mut builder = Connector::builder();
    builder.expect().with_method("PUT").returning("put").unwrap();
    builder.expect().with_method("GET").returning("get").unwrap();
    builder.expect().returning("any").unwrap();
    let mut connector = builder.build();
    assert_eq!(connector.inner.select(&get("http://x.test/")), Ok(1));
    assert_eq!(seen(&connector), vec![0, 1, 0]);
    assert_eq!(connector.inner.select(&post("http://x.test/", "")), Ok(2));
    assert_eq!(seen(&connector), vec![0, 1, 1]);
    assert_eq!(connector.inner.select(&get("http://x.test/")), Ok(1));
    assert_eq!(seen(&connector), vec![0, 2, 1]);
}

#[test]
fn a_matcher_that_fails_ends_the_search() {
    let mut builder = Connector::builder();
    builder.expect().with_method("PUT").returning("put").unwrap();
    builder.expect().with_json(Json::Null).returning("json").unwrap();
    builder.expect().returning("any").unwrap();
    let mut connector = builder.build();
    let result = connector.inner.select(&post("http://x.test/", "no json"));
    assert!(matches!(result, Err(Error::Json(_))));
    assert_eq!(seen(&connector), vec![0, 0, 0]);
}

#[test]
fn the_count_wraps_at_its_limit() {
    let mut builder = Connector::builder();
    builder.expect().returning("any").unwrap();
    let mut connector = builder.build();
    connector.inner.cases[0].seen = usize::MAX;
    assert_eq!(connector.inner.select(&get("http://x.test/")), Ok(0));
    assert_eq!(seen(&connector), vec![0]);
}

#[test]
fn checkpoint_names_every_case_that_fails() {
    let mut builder = Connector::builder();
    builder.expect().with_method("GET").times(2).returning("a").unwrap();
    builder.expect().with_method("PUT").returning("b").unwrap();
    builder.expect().with_method("POST").times(0).returning("c").unwrap();
    builder.expect().with_method("HEAD").times(1).returning("d").unwrap();
    let mut connector = builder.build();
    answer(&mut connector, get("http://x.test/")).unwrap();
    answer(&mut connector, post("http://x.test/", "")).unwrap();
    let first = connector.checkpoint();
    assert_eq!(
        first,
        Err(Error::Checkpoint(vec![
            Checkpoint { expected: 2, got: 1 },
            Checkpoint { expected: 0, got: 1 },
            Checkpoint { expected: 1, got: 0 },
        ]))
    );
    assert_eq!(connector.checkpoint(), first);
}

#[test]
fn checkpoint_of_no_cases_passes() {
    assert_eq!(Connector::builder().build().checkpoint(), Ok(()));
}

#[test]
fn a_builder_that_failed_adds_no_case() {
    let mut builder = Connector::builder();
    let result = builder.expect().with_uri("http://a b/").with_method("GET").returning("OK");
    assert!(matches!(result, Err(Error::Http(_))));
    let result = builder.expect().with_method("GET").with_header("a b", "c").returning("OK");
    assert!(matches!(result, Err(Error::Http(_))));
    assert_eq!(builder.inner.cases.len(), 0);
}

#[test]
fn matches_puts_the_request_together_and_answers() {
    let mut builder = Connector::builder();
    builder
        .expect()
        .with_uri("http://x.test/a?b=1")
        .with_method("POST")
        .with_header("content-type", "text/plain")
        .with_body("héllo")
        .times(1)
        .returning((201u16, "made"))
        .unwrap();
    let mut connector = builder.build();
    let head = RequestHead {
        method: Some("POST".to_string()),
        path: Some("/a?b=1".to_string()),
        headers: vec![
            Header { name: "Content-Type".to_string(), value: b"text/plain".to_vec() },
            Header { name: String::new(), value: vec![] },
        ],
    };
    let response = connector.inner.matches(&head, "héllo".as_bytes(), "http://x.test/").unwrap();
    assert_eq!(response.status, 201);
    assert_eq!(response.body, "made");
    assert_eq!(connector.checkpoint(), Ok(()));
}

#[test]
fn into_request_gives_the_parts() {
    let head = RequestHead {
        method: None,
        path: None,
        headers: vec![Header { name: "X-Id".to_string(), value: vec![0xff] }],
    };
    let request = into_request(&head, b"body", "http://x.test/base").unwrap();
    assert_eq!(
        request,
        Request {
            method: "GET".to_string(),
            uri: "http://x.test/base".to_string(),
            headers: vec![Header { name: "x-id".to_string(), value: vec![0xff] }],
            body: "body".to_string(),
        }
    );
    let head = RequestHead {
        method: Some("PUT".to_string()),
        path: Some("/p".to_string()),
        headers: vec![],
    };
    let request = into_request(&head, b"", "https://x.test:8080/old?q=1").unwrap();
    assert_eq!(request.method, "PUT");
    assert_eq!(request.uri, "https://x.test:8080/p");
}

#[test]
fn into_request_refuses_what_cannot_be_a_request() {
    let head = |method: &str, path: &str, name: &str, value: &[u8]| RequestHead {
        method: Some(method.to_string()),
        path: Some(path.to_string()),
        headers: vec![Header { name: name.to_string(), value: value.to_vec() }],
    };
    let uri = "http://x.test/";
    assert!(into_request(&head("GET", "/", "a", b"b"), b"ok", uri).is_ok());
    let bad = [
        into_request(&head("GET", "/", "a", b"b"), &[0xff, 0xfe], uri),
        into_request(&head("GET", "/a b", "a", b"b"), b"", uri),
        into_request(&head("G T", "/", "a", b"b"), b"", uri),
        into_request(&head("GET", "/", "a b", b"b"), b"", uri),
        into_request(&head("GET", "/", "a", b"b\n"), b"", uri),
        into_request(&head("GET", "/", "a", b"b"), b"", "x.test"),
    ];
    for result in bad {
        assert!(matches!(result, Err(Error::Runtime(_))), "{:?}", result);
    }
}

#[test]
fn not_found_comes_only_where_no_case_matches() {
    let mut builder = Connector::builder();
    builder.expect().with_method("PUT").returning("a").unwrap();
    builder.expect().with_method("GET").returning(42u16).unwrap();
    let mut connector = builder.build();
    let head = RequestHead { method: Some("GET".to_string()), path: None, headers: vec![] };
    // the responder of the case that took the request fails: the call is
    // counted, and the failure is the responder's own
    let result = connector.inner.matches(&head, b"", "http://x.test/");
    assert!(matches!(result, Err(Error::Http(_))));
    assert_eq!(seen(&connector), vec![0, 1]);
    // no case matches: no call is counted
    let head = RequestHead { method: Some("POST".to_string()), path: None, headers: vec![] };
    let result = connector.inner.matches(&head, b"", "http://x.test/");
    assert!(matches!(result, Err(Error::NotFound { .. })));
    assert_eq!(seen(&connector), vec![0, 1]);
    // the request cannot be put together
    let result = connector.inner.matches(&head, &[0xff], "http://x.test/");
    assert!(matches!(result, Err(Error::Runtime(_))));
    assert_eq!(seen(&connector), vec![0, 1]);
}

#[test]
fn the_rebuilt_uri_reads_back_as_the_uri_of_its_parts() {
    let base = "https://x.test:8080/old?q=1";
    for path in ["/", "/a", "/a/b?c=d&e", "/a%20b", "//a", "/?", "/a?b=/c"] {
        let head = RequestHead {
            method: Some("GET".to_string()),
            path: Some(path.to_string()),
            headers: vec![],
        };
        let request = into_request(&head, b"", base).unwrap();
        let mut parts = base.parse::<hyper::Uri>().unwrap().into_parts();
        parts.path_and_query = Some(path.parse().unwrap());
        let built = hyper::Uri::from_parts(parts).unwrap();
        assert_eq!(request.uri.parse::<hyper::Uri>().unwrap(), built, "{}", path);
    }
}
