use mock_http_connector::handler::{DefaultErrorHandler, DefaultHandler, DefaultMissingHandler};
use mock_http_connector::text::push_decimal;
use mock_http_connector::{
    Case, Checkpoint, DefaultWith, Error, Function, Header, IntoResponse, Json, Level, Predicate,
    Report, Request, Response, Returning, With,
};

fn request() -> Request {
    Request {
        method: "GET".to_string(),
        uri: "http://x.test/".to_string(),
        headers: vec![],
        body: String::new(),
    }
}

#[test]
fn case_new() {
    let _case = Case::new(
        Predicate::new(|_req: &Request| Ok(Report::from_bool(true))),
        Function::new(|_req: Request| {
            Ok(Response { status: 200, headers: vec![], body: String::new() })
        }),
        None,
    );
}

#[test]
fn case_new_holds_what_it_is_given() {
    let case = Case::new(DefaultWith, (201u16, "made"), Some(3));
    assert_eq!(case.count, Some(3));
    assert_eq!(case.seen, 0);
    assert_eq!(case.with.with(&request()), Ok(Report::Match));
    let response = case.returning.returning(request()).unwrap();
    assert_eq!(response, Response { status: 201, headers: vec![], body: "made".to_string() });
}

#[test]
fn case_checkpoint() {
    let mut case = Case::new(DefaultWith, "OK", Some(2));
    assert_eq!(case.checkpoint(), Some(Checkpoint { expected: 2, got: 0 }));
    case.seen = 2;
    assert_eq!(case.checkpoint(), None);
    case.seen = 3;
    assert_eq!(case.checkpoint(), Some(Checkpoint { expected: 2, got: 3 }));
    let mut free = Case::new(DefaultWith, "OK", None);
    free.seen = 7;
    assert_eq!(free.checkpoint(), None);
}

#[test]
fn checkpoint_check() {
    assert_eq!(Checkpoint::check(1, 1), None);
    assert_eq!(Checkpoint::check(0, 0), None);
    assert_eq!(Checkpoint::check(1, 2), Some(Checkpoint { expected: 1, got: 2 }));
    assert_eq!(Checkpoint::check(3, 0), Some(Checkpoint { expected: 3, got: 0 }));
}

#[test]
fn checkpoint_message() {
    assert_eq!(Checkpoint { expected: 1, got: 2 }.message(), "expected 1, got 2");
    assert_eq!(Checkpoint { expected: 120, got: 0 }.message(), "expected 120, got 0");
}

#[test]
fn decimal_digits() {
    for n in [0usize, 7, 10, 99, 100, 4096, 1234567890, usize::MAX] {
        let mut text = String::from("n=");
        push_decimal(&mut text, n);
        assert_eq!(text, format!("n={}", n));
    }
}

#[test]
fn level_order() {
    assert_eq!(Level::default(), Level::Missing);
    assert!(Level::Error < Level::Missing);
    assert!(Level::Silent < Level::Error);
    assert!(Level::Silent < Level::Missing);
    assert!(!(Level::Missing < Level::Error));
    assert_eq!(Level::Missing, Level::Missing);
    assert!(Level::Missing >= Level::Missing);
    assert_eq!(Level::Error.partial_cmp(&Level::Error), Some(std::cmp::Ordering::Equal));
    assert_eq!(Level::Error.partial_cmp(&Level::Silent), Some(std::cmp::Ordering::Greater));
}

#[test]
fn level_reports() {
    assert!(Level::Missing.reports_missing());
    assert!(!Level::Error.reports_missing());
    assert!(!Level::Silent.reports_missing());
    assert!(Level::Missing.reports_errors());
    assert!(Level::Error.reports_errors());
    assert!(!Level::Silent.reports_errors());
}

#[test]
fn into_response_of_texts() {
    let expected = Response { status: 200, headers: vec![], body: "some_str".to_string() };
    assert_eq!("some_str".into_response(), Ok(expected.clone()));
    assert_eq!("some_str".to_string().into_response(), Ok(expected.clone()));
    assert_eq!(expected.clone().into_response(), Ok(expected.clone()));
    assert_eq!(Ok::<_, String>("some_str").into_response(), Ok(expected));
    assert_eq!(
        Err::<&str, String>("no".to_string()).into_response(),
        Err(Error::Runtime("no".to_string()))
    );
}

#[test]
fn into_response_of_a_status_and_a_text() {
    let expected = Response { status: 400, headers: vec![], body: "FILE NOT FOUND".to_string() };
    assert_eq!((400u16, "FILE NOT FOUND").into_response(), Ok(expected.clone()));
    assert_eq!((400u16, "FILE NOT FOUND".to_string()).into_response(), Ok(expected));
    for status in [0u16, 99, 1000, u16::MAX] {
        assert!(matches!((status, "x").into_response(), Err(Error::Http(_))));
        assert!(matches!((status, "x".to_string()).into_response(), Err(Error::Http(_))));
    }
    for status in [100u16, 999] {
        assert_eq!((status, "x").into_response().unwrap().status, status);
    }
}

#[test]
fn into_response_of_json() {
    let payload = Json::parse("{ \"message\": \"some response\" }").unwrap();
    assert_eq!(
        payload.into_response(),
        Ok(Response {
            status: 200,
            headers: vec![Header {
                name: "content-type".to_string(),
                value: b"application/json".to_vec()
            }],
            body: "{\"message\":\"some response\"}".to_string(),
        })
    );
}

#[test]
fn returning_of_plain_values() {
    let ok = |body: &str| Response { status: 200, headers: vec![], body: body.to_string() };
    assert_eq!("OK".returning(request()), Ok(ok("OK")));
    assert_eq!("OK".to_string().returning(request()), Ok(ok("OK")));
    assert_eq!(
        204u16.returning(request()),
        Ok(Response { status: 204, headers: vec![], body: String::new() })
    );
    assert!(matches!(42u16.returning(request()), Err(Error::Http(_))));
    assert!(matches!((1000u16, "x").returning(request()), Err(Error::Http(_))));
    assert!(matches!((1000u16, "x".to_string()).returning(request()), Err(Error::Http(_))));
    assert_eq!(
        (302u16, "moved".to_string()).returning(request()).unwrap(),
        Response { status: 302, headers: vec![], body: "moved".to_string() }
    );
    assert_eq!(Json::Null.returning(request()).unwrap().body, "null");
}

#[test]
fn returning_of_a_function() {
    let echo = Function::new(|req: Request| {
        if req.body.is_empty() {
            Err("nothing to say".to_string())
        } else {
            Ok(Response { status: 200, headers: vec![], body: req.body })
        }
    });
    let mut req = request();
    assert_eq!(echo.returning(req.clone()), Err(Error::Runtime("nothing to say".to_string())));
    req.body = "again".to_string();
    assert_eq!(echo.returning(req).unwrap().body, "again");
}

#[test]
fn default_handlers() {
    assert_eq!(
        DefaultErrorHandler.handle(),
        Response { status: 500, headers: vec![], body: String::new() }
    );
    assert_eq!(
        DefaultMissingHandler.handle(),
        Response { status: 404, headers: vec![], body: String::new() }
    );
}
