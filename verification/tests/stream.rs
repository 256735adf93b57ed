use mock_http_connector::chunked::{dechunk, Chunked};
use mock_http_connector::stream::{into_data, Read, Written};
use mock_http_connector::{Connector, Error, Function, Header, Json, MockStream, Request, Response};

/// Sends the chunks of a request over a new stream and reads the response.
fn exchange(connector: &mut Connector, uri: &str, chunks: &[&[u8]]) -> Result<Vec<u8>, Error> {
    let mut stream = MockStream::new(uri.to_string());
    assert_eq!(stream.poll_read(16), Read::Pending);
    for chunk in chunks {
        match stream.poll_write(&mut connector.inner, chunk)? {
            Written::Partial => assert_eq!(stream.poll_read(16), Read::Pending),
            Written::Malformed(_) => break,
            Written::Dispatched(index, request) => {
                assert_eq!(stream.poll_read(16), Read::Pending);
                let response = connector.inner.cases[index].returning.returning(request)?;
                stream.resolve(&response)?;
            },
        }
    }
    let mut data = Vec::new();
    loop {
        match stream.poll_read(7) {
            Read::Pending => panic!("the stream has no response"),
            Read::Failed => panic!("the response has failed"),
            Read::Ready(bytes) if bytes.is_empty() => return Ok(data),
            Read::Ready(bytes) => data.extend(bytes),
        }
    }
}

fn text(bytes: Vec<u8>) -> String {
    String::from_utf8(bytes).unwrap()
}

#[test]
fn test_method() {
    for method in ["POST", "OPTIONS"] {
        let mut builder = Connector::builder();
        builder.expect().times(1).with_method(method).returning((202u16, "OK")).unwrap();
        let mut connector = builder.build();

        let raw = format!("{} / HTTP/1.1\r\nhost: test.example\r\n\r\n", method);
        let res = exchange(&mut connector, "http://test.example", &[raw.as_bytes()]);
        assert_eq!(text(res.unwrap()), "HTTP/1.1 202 202\r\n\r\nOK");

        let res = exchange(
            &mut connector,
            "http://test.example",
            &[b"GET / HTTP/1.1\r\nhost: test.example\r\n\r\n"],
        );
        assert!(matches!(res, Err(Error::NotFound { .. })));
    }
}

#[test]
fn test_header() {
    for (name, value) in [("accept", "application/json"), ("authorization", "Bearer some-token")] {
        let mut builder = Connector::builder();
        builder.expect().times(1).with_header(name, value).returning((202u16, "OK")).unwrap();
        let mut connector = builder.build();

        let raw = format!("GET / HTTP/1.1\r\n{}: {}\r\n\r\n", name, value);
        let res = exchange(&mut connector, "http://test.example", &[raw.as_bytes()]);
        assert!(text(res.unwrap()).starts_with("HTTP/1.1 202 "));

        let res = exchange(&mut connector, "http://test.example", &[b"GET / HTTP/1.1\r\n\r\n"]);
        assert!(res.is_err());

        let raw = format!("GET / HTTP/1.1\r\n{}: SOME OTHER VALUE\r\n\r\n", name);
        let res = exchange(&mut connector, "http://test.example", &[raw.as_bytes()]);
        assert!(res.is_err());
    }
}

#[test]
fn test_headers() {
    let mut builder = Connector::builder();
    builder
        .expect()
        .times(1)
        .with_header("accept", "application/json")
        .with_header("authorization", "Bearer some-token")
        .returning((202u16, "OK"))
        .unwrap();
    let mut connector = builder.build();

    let raw = b"GET / HTTP/1.1\r\nAccept: application/json\r\n\
        Authorization: Bearer some-token\r\n\r\n";
    let res = exchange(&mut connector, "http://test.example", &[raw]);
    assert!(text(res.unwrap()).starts_with("HTTP/1.1 202 "));

    let raw = b"GET / HTTP/1.1\r\nAccept: application/json\r\n\r\n";
    assert!(exchange(&mut connector, "http://test.example", &[raw]).is_err());
}

#[test]
fn test_uri() {
    for uri in ["http://example.test/some/path", "https://test.example/some/other/path"] {
        let mut builder = Connector::builder();
        builder.expect().times(1).with_uri(uri).returning((202u16, "OK")).unwrap();
        let mut connector = builder.build();

        let path = &uri[uri.find("/some").unwrap()..];
        let raw = format!("GET {} HTTP/1.1\r\n\r\n", path);
        let res = exchange(&mut connector, uri, &[raw.as_bytes()]);
        assert!(text(res.unwrap()).starts_with("HTTP/1.1 202 "));

        let res = exchange(&mut connector, "http://invalid.uri", &[b"GET / HTTP/1.1\r\n\r\n"]);
        assert!(res.is_err());
    }
}

#[test]
fn test_status_u16() {
    for status in [202u16, 303, 404, 406, 500] {
        let mut builder = Connector::builder();
        builder.expect().times(1).with_uri("http://test.example").returning(status).unwrap();
        let mut connector = builder.build();
        let res = exchange(&mut connector, "http://test.example", &[b"GET / HTTP/1.1\r\n\r\n"]);
        assert_eq!(text(res.unwrap()), format!("HTTP/1.1 {0} {0}\r\n\r\n", status));
        assert_eq!(connector.checkpoint(), Ok(()));
    }
}

#[test]
fn test_status_tuple() {
    for status in [202u16, 303, 404, 406, 500] {
        let mut builder = Connector::builder();
        builder
            .expect()
            .times(1)
            .with_uri("http://test.example")
            .returning((status, "moved"))
            .unwrap();
        let mut connector = builder.build();
        let res = exchange(&mut connector, "http://test.example", &[b"GET / HTTP/1.1\r\n\r\n"]);
        assert_eq!(text(res.unwrap()), format!("HTTP/1.1 {0} {0}\r\n\r\nmoved", status));
        assert_eq!(connector.checkpoint(), Ok(()));
    }
}

#[test]
fn test_status_fn() {
    for status in [202u16, 303, 404, 406, 500] {
        let mut builder = Connector::builder();
        builder
            .expect()
            .times(1)
            .with_uri("http://test.example")
            .returning(Function::new(move |_req: Request| {
                Ok(Response {
                    status,
                    headers: vec![Header {
                        name: "location".to_string(),
                        value: b"/some-location".to_vec(),
                    }],
                    body: String::new(),
                })
            }))
            .unwrap();
        let mut connector = builder.build();
        let res = exchange(&mut connector, "http://test.example", &[b"GET / HTTP/1.1\r\n\r\n"]);
        assert_eq!(
            text(res.unwrap()),
            format!("HTTP/1.1 {0} {0}\r\nlocation: /some-location\r\n\r\n", status)
        );
        assert_eq!(connector.checkpoint(), Ok(()));
    }
}

#[test]
fn test_async() {
    let mut builder = Connector::builder();
    builder
        .expect()
        .times(1)
        .with_uri("http://test.example")
        .returning(Function::new(|_req: Request| {
            Ok(Response { status: 200, headers: vec![], body: "hello".to_string() })
        }))
        .unwrap();
    let mut connector = builder.build();
    let res = exchange(&mut connector, "http://test.example", &[b"GET / HTTP/1.1\r\n\r\n"]);
    assert_eq!(text(res.unwrap()), "HTTP/1.1 200 200\r\n\r\nhello");
    assert_eq!(connector.checkpoint(), Ok(()));
}

#[test]
fn test_json() {
    let mut builder = Connector::builder();
    builder
        .expect()
        .times(1)
        .with_uri("http://test.example")
        .returning(Json::parse("{\"value\": 3}").unwrap())
        .unwrap();
    let mut connector = builder.build();
    let res = exchange(&mut connector, "http://test.example", &[b"GET / HTTP/1.1\r\n\r\n"]);
    assert_eq!(
        text(res.unwrap()),
        "HTTP/1.1 200 200\r\ncontent-type: application/json\r\n\r\n{\"value\":3}"
    );
    assert_eq!(connector.checkpoint(), Ok(()));
}

#[test]
fn test_body_stream() {
    let mut builder = Connector::builder();
    builder
        .expect()
        .times(1)
        .with_method("POST")
        .with_header("transfer-encoding", "chunked")
        .with_body("hello world!")
        .returning((202u16, "OK"))
        .unwrap();
    let mut connector = builder.build();
    let raw = "POST / HTTP/1.1\r\ntransfer-encoding: chunked\r\n\r\n\
        6\r\nhello \r\n6\r\nworld!\r\n0\r\n\r\n";
    let res = exchange(&mut connector, "http://test.example", &[raw.as_bytes()]);
    assert!(text(res.unwrap()).starts_with("HTTP/1.1 202 "));
    assert_eq!(connector.checkpoint(), Ok(()));
}

#[test]
fn test_stream() {
    let mut builder = Connector::builder();
    builder
        .expect()
        .times(1)
        .with_method("POST")
        .with_header("transfer-encoding", "chunked")
        .with_body("world!hello ")
        .returning((202u16, "OK"))
        .unwrap();
    let mut connector = builder.build();
    let raw = "POST / HTTP/1.1\r\ntransfer-encoding: chunked\r\n\r\n\
        6\r\nworld!\r\n6\r\nhello \r\n0\r\n\r\n";
    let (head, rest) = raw.as_bytes().split_at(20);
    let res = exchange(&mut connector, "http://test.example", &[head, rest]);
    assert!(text(res.unwrap()).starts_with("HTTP/1.1 202 "));
    assert_eq!(connector.checkpoint(), Ok(()));
}

#[test]
fn the_framing_of_chunks_is_no_part_of_the_body() {
    let mut builder = Connector::builder();
    builder.expect().with_method("POST").with_body("hello world!").returning("OK").unwrap();
    let mut connector = builder.build();
    let framed = "6\r\nhello \r\n6\r\nworld!\r\n0\r\n\r\n";
    let raw = format!("POST / HTTP/1.1\r\nTransfer-Encoding: Chunked\r\n\r\n{}", framed);
    let mut stream = MockStream::new("http://test.example".to_string());
    match stream.poll_write(&mut connector.inner, raw.as_bytes()).unwrap() {
        Written::Dispatched(index, request) => {
            assert_eq!(index, 0);
            assert_eq!(request.body, "hello world!");
        },
        other => panic!("{:?}", other),
    }
    // without the header the bytes behind the head are the body as they are
    let raw = format!("POST / HTTP/1.1\r\n\r\n{}", framed);
    let mut stream = MockStream::new("http://test.example".to_string());
    let result = stream.poll_write(&mut connector.inner, raw.as_bytes());
    assert!(matches!(result, Err(Error::NotFound { .. })));
}

#[test]
fn chunks_that_come_one_by_one_are_awaited() {
    let mut builder = Connector::builder();
    builder.expect().with_body("hello world!").times(1).returning("OK").unwrap();
    let mut connector = builder.build();
    let mut stream = MockStream::new("http://test.example".to_string());
    let pieces: [&[u8]; 6] = [
        b"POST / HTTP/1.1\r\ntransfer-encoding: chunked\r\n\r\n",
        b"6\r\nhel",
        b"lo \r",
        b"\n6;name=value\r\nworld!\r\n",
        b"0\r\nx-trailer: 1\r\n",
        b"\r\n",
    ];
    for piece in &pieces[..5] {
        let written = stream.poll_write(&mut connector.inner, piece).unwrap();
        assert!(matches!(written, Written::Partial), "{:?}", written);
        assert_eq!(stream.poll_read(10), Read::Pending);
    }
    assert_eq!(connector.inner.cases[0].seen, 0);
    let written = stream.poll_write(&mut connector.inner, pieces[5]).unwrap();
    assert!(matches!(written, Written::Dispatched(0, _)));
    assert_eq!(connector.checkpoint(), Ok(()));
}

#[test]
fn chunks_that_are_none_get_an_error_response() {
    let mut builder = Connector::builder();
    builder.expect().returning("OK").unwrap();
    let mut connector = builder.build();
    for body in ["zz\r\nhello\r\n0\r\n\r\n", "\r\n", "5\r\nhelloXX0\r\n\r\n"] {
        let raw = format!("POST / HTTP/1.1\r\ntransfer-encoding: chunked\r\n\r\n{}", body);
        let mut stream = MockStream::new("http://test.example".to_string());
        let written = stream.poll_write(&mut connector.inner, raw.as_bytes()).unwrap();
        assert!(matches!(written, Written::Malformed(_)), "{:?}", body);
        assert_eq!(stream.poll_read(100), Read::Ready(b"HTTP/1.1 500 500\r\n\r\n".to_vec()));
    }
    assert_eq!(connector.inner.cases[0].seen, 0);
}

#[test]
fn dechunk_puts_the_body_together() {
    let decode = |text: &str| dechunk(&text.as_bytes().to_vec());
    assert_eq!(decode("0\r\n\r\n"), Chunked::Complete(vec![]));
    assert_eq!(decode("3\r\nabc\r\n0\r\n\r\n"), Chunked::Complete(b"abc".to_vec()));
    assert_eq!(
        decode("A\r\n0123456789\r\n1a\r\nabcdefghijklmnopqrstuvwxyz\r\n00\r\n\r\nrest"),
        Chunked::Complete(b"0123456789abcdefghijklmnopqrstuvwxyz".to_vec())
    );
    assert_eq!(
        decode("2\r\n\r\n\r\n0\r\na: b\r\nc: d\r\n\r\n"),
        Chunked::Complete(b"\r\n".to_vec())
    );
    for partial in ["", "3", "3\r\nab", "3\r\nabc\r\n", "3\r\nabc\r\n0\r\n", "0\r\na: b\r\n"] {
        assert_eq!(decode(partial), Chunked::Incomplete, "{:?}", partial);
    }
    for bad in ["\r\n", "g\r\n", "3 \r\nabc\r\n", ";x\r\n", "3\r\nabcd\r\n0\r\n\r\n"] {
        assert_eq!(decode(bad), Chunked::Malformed, "{:?}", bad);
    }
    assert_eq!(decode("fffffffffffffffffffff\r\n"), Chunked::Malformed);
}

#[test]
fn a_response_that_failed_fails_every_read() {
    let mut builder = Connector::builder();
    builder.expect().returning("OK").unwrap();
    let mut connector = builder.build();
    let mut stream = MockStream::new("http://test.example".to_string());
    stream.poll_write(&mut connector.inner, b"GET / HTTP/1.1\r\n\r\n").unwrap();
    assert_eq!(stream.poll_read(10), Read::Pending);
    assert_eq!(stream.fail(), Read::Failed);
    assert!(!stream.wake());
    assert_eq!(stream.poll_read(10), Read::Failed);
    assert_eq!(stream.poll_read(0), Read::Failed);
}

#[test]
fn a_partial_request_keeps_the_reader_waiting() {
    let mut builder = Connector::builder();
    builder.expect().returning("OK").unwrap();
    let mut connector = builder.build();
    let mut stream = MockStream::new("http://test.example".to_string());
    assert_eq!(stream.poll_read(10), Read::Pending);
    for chunk in [&b"GET / HT"[..], b"TP/1.1\r\nhost:", b" test.example\r\n"] {
        assert!(matches!(stream.poll_write(&mut connector.inner, chunk), Ok(Written::Partial)));
        assert_eq!(stream.poll_read(10), Read::Pending);
    }
    assert_eq!(connector.inner.cases[0].seen, 0);
    match stream.poll_write(&mut connector.inner, b"\r\n").unwrap() {
        Written::Dispatched(index, request) => {
            assert_eq!(index, 0);
            assert_eq!(request.uri, "http://test.example/");
            assert_eq!(request.headers.len(), 1);
        },
        other => panic!("{:?}", other),
    }
    assert_eq!(connector.inner.cases[0].seen, 1);
    assert_eq!(stream.poll_read(10), Read::Pending);
}

#[test]
fn a_malformed_request_gets_an_error_response() {
    let mut builder = Connector::builder();
    builder.expect().returning("OK").unwrap();
    let mut connector = builder.build();
    let mut stream = MockStream::new("http://test.example".to_string());
    let written = stream.poll_write(&mut connector.inner, b"GET\x01 / HTTP/1.1\r\n\r\n").unwrap();
    assert!(matches!(written, Written::Malformed(_)));
    assert_eq!(stream.poll_read(100), Read::Ready(b"HTTP/1.1 500 500\r\n\r\n".to_vec()));
    assert_eq!(stream.poll_read(100), Read::Ready(vec![]));
    assert_eq!(connector.inner.cases[0].seen, 0);
}

#[test]
fn too_many_headers_are_malformed() {
    let mut connector = Connector::builder().build();
    let mut raw = String::from("GET / HTTP/1.1\r\n");
    for i in 0..65 {
        raw.push_str(&format!("x-{}: {}\r\n", i, i));
    }
    raw.push_str("\r\n");
    let mut stream = MockStream::new("http://test.example".to_string());
    let written = stream.poll_write(&mut connector.inner, raw.as_bytes()).unwrap();
    assert!(matches!(written, Written::Malformed(_)));
}

#[test]
fn reads_go_on_where_the_last_one_ended() {
    let mut stream = MockStream::new("http://test.example".to_string());
    let response = Response { status: 200, headers: vec![], body: "0123456789".to_string() };
    stream.resolve(&response).unwrap();
    assert_eq!(stream.poll_read(0), Read::Ready(vec![]));
    assert_eq!(stream.poll_read(9), Read::Ready(b"HTTP/1.1 ".to_vec()));
    assert_eq!(stream.poll_read(9), Read::Ready(b"200 200\r\n".to_vec()));
    assert_eq!(stream.poll_read(5), Read::Ready(b"\r\n012".to_vec()));
    assert_eq!(stream.poll_read(100), Read::Ready(b"3456789".to_vec()));
    assert_eq!(stream.poll_read(100), Read::Ready(vec![]));
}

#[test]
fn into_data_writes_the_response_out() {
    let response = Response {
        status: 404,
        headers: vec![
            Header { name: "b".to_string(), value: b"2".to_vec() },
            Header { name: "a".to_string(), value: b"1\t".to_vec() },
            Header { name: "b".to_string(), value: b"3 4".to_vec() },
        ],
        body: "nö".to_string(),
    };
    assert_eq!(
        into_data(&response).unwrap(),
        "HTTP/1.1 404 404\r\nb: 2\r\na: 1\t\r\nb: 3 4\r\n\r\nnö".as_bytes().to_vec()
    );
}

#[test]
fn into_data_refuses_a_header_that_is_no_text() {
    for value in [&[0xe9u8][..], &[127], &[31], &[b'a', 0]] {
        let response = Response {
            status: 200,
            headers: vec![Header { name: "a".to_string(), value: value.to_vec() }],
            body: String::new(),
        };
        assert!(matches!(into_data(&response), Err(Error::Runtime(_))));
        let mut stream = MockStream::new("http://test.example".to_string());
        assert!(matches!(stream.resolve(&response), Err(Error::Runtime(_))));
        assert_eq!(stream.poll_read(10), Read::Failed);
    }
}

#[test]
fn a_request_that_no_case_takes_fails_the_write() {
    let mut builder = Connector::builder();
    builder.expect().with_method("PUT").returning("OK").unwrap();
    let mut connector = builder.build();
    let mut stream = MockStream::new("http://test.example".to_string());
    let result = stream.poll_write(&mut connector.inner, b"GET / HTTP/1.1\r\n\r\n");
    assert!(matches!(result, Err(Error::NotFound { .. })));
    assert_eq!(stream.poll_read(10), Read::Pending);
    let result = stream.poll_write(&mut connector.inner, &[0xff]);
    assert!(matches!(result, Err(Error::Runtime(_))));
}

#[test]
fn a_waiting_reader_is_woken_once_when_the_request_is_complete() {
    let mut builder = Connector::builder();
    builder.expect().returning("OK").unwrap();
    let mut connector = builder.build();
    let mut stream = MockStream::new("http://test.example".to_string());
    assert!(!stream.wake());
    assert_eq!(stream.poll_read(10), Read::Pending);
    assert!(!stream.wake());
    stream.poll_write(&mut connector.inner, b"GET / HTTP/1.1\r\n").unwrap();
    assert!(!stream.wake());
    stream.poll_write(&mut connector.inner, b"\r\n").unwrap();
    assert!(stream.wake());
    assert!(!stream.wake());
    assert_eq!(stream.poll_read(10), Read::Pending);
    assert!(stream.wake());
    let response = Response { status: 200, headers: vec![], body: String::new() };
    stream.resolve(&response).unwrap();
    assert!(!stream.wake());
    assert!(matches!(stream.poll_read(10), Read::Ready(_)));
    assert!(!stream.wake());
}
