use http_server::{
    body_bytes_missing, echo, echo_segment, error_response, file_name, file_response, handle,
    header_end, parse_framed, parse_request, respond, route, user_agent, written_response, Action,
    Method, Request, RequestError, Response, Route,
};

fn reply(action: Action) -> Response {
    match action {
        Action::Reply(r) => r,
        _ => panic!("expected a reply"),
    }
}

fn wire(action: Action) -> Vec<u8> {
    reply(action).to_bytes()
}

fn header<'a>(r: &'a Response, name: &str) -> Option<&'a [u8]> {
    r.headers
        .iter()
        .rev()
        .find(|(k, _)| k.as_slice() == name.as_bytes())
        .map(|(_, v)| v.as_slice())
}

#[test]
fn body_read_in_one_part() {
    let data = b"POST /files/a HTTP/1.1\r\nContent-Length: 5\r\n\r\nhello";
    assert_eq!(body_bytes_missing(data), 0);
    let req = parse_request(data).unwrap();
    assert_eq!(req.body, b"hello".to_vec());
    assert_eq!(req.method, Method::Post);
    assert_eq!(req.path, b"/files/a".to_vec());
    assert_eq!(req.http_version, b"HTTP/1.1".to_vec());
}

#[test]
fn body_read_in_two_parts() {
    let head = b"POST /files/a HTTP/1.1\r\nHost: x\r\nContent-Length: 11\r\n\r\n".to_vec();
    let body = b"hello world".to_vec();
    for k in 0..=body.len() {
        let mut first = head.clone();
        first.extend_from_slice(&body[..k]);
        assert_eq!(body_bytes_missing(&first), body.len() - k);
        let mut whole = first.clone();
        whole.extend_from_slice(&body[k..]);
        assert_eq!(body_bytes_missing(&whole), 0);
        assert_eq!(parse_request(&whole).unwrap().body, body);
    }
}

#[test]
fn binary_body_is_kept_byte_for_byte() {
    let mut data = b"POST /files/bin HTTP/1.1\r\nContent-Length: 4\r\n\r\n".to_vec();
    data.extend_from_slice(&[0xff, 0x00, 0x0d, 0x0a]);
    let req = parse_request(&data).unwrap();
    assert_eq!(req.body, vec![0xff, 0x00, 0x0d, 0x0a]);
}

#[test]
fn extra_bytes_after_body_are_ignored() {
    let data = b"POST /files/a HTTP/1.1\r\nContent-Length: 3\r\n\r\nabcdef";
    assert_eq!(parse_request(data).unwrap().body, b"abc".to_vec());
}

#[test]
fn short_body_is_truncated() {
    let data = b"POST /files/a HTTP/1.1\r\nContent-Length: 10\r\n\r\nabc";
    assert_eq!(body_bytes_missing(data), 7);
    assert_eq!(parse_request(data).unwrap().body, b"abc".to_vec());
}

#[test]
fn no_content_length_means_empty_body() {
    let data = b"POST /files/a HTTP/1.1\r\nHost: x\r\n\r\ntrailing";
    assert_eq!(body_bytes_missing(data), 0);
    assert!(parse_request(data).unwrap().body.is_empty());
}

#[test]
fn headers_are_trimmed_and_last_wins() {
    let data = b"GET / HTTP/1.1\r\n  Accept :  */*  \r\nX: 1\r\nnot a header\r\nX: 2\r\n\r\n";
    let req = parse_request(data).unwrap();
    assert_eq!(
        req.headers,
        vec![
            (b"Accept".to_vec(), b"*/*".to_vec()),
            (b"X".to_vec(), b"1".to_vec()),
            (b"X".to_vec(), b"2".to_vec()),
        ]
    );
    let ua = b"GET /user-agent HTTP/1.1\r\nUser-Agent: a\r\nUser-Agent: b\r\n\r\n";
    assert_eq!(reply(handle(ua)).body, b"b".to_vec());
}

#[test]
fn header_value_may_hold_colons() {
    let data = b"GET / HTTP/1.1\r\nHost: localhost:4221\r\n\r\n";
    let req = parse_request(data).unwrap();
    assert_eq!(req.headers, vec![(b"Host".to_vec(), b"localhost:4221".to_vec())]);
}

#[test]
fn header_end_is_first_blank_line() {
    assert_eq!(header_end(b"GET / HTTP/1.1\r\n\r\nx\r\n\r\n"), Some(14));
    assert_eq!(header_end(b"GET / HTTP/1.1\r\n"), None);
    assert_eq!(header_end(b""), None);
}

#[test]
fn parse_framed_reads_request_line() {
    let data = b"GET /echo/x HTTP/1.0\r\n\r\n";
    let req = parse_framed(data, 20).unwrap();
    assert_eq!(req.method, Method::Get);
    assert_eq!(req.path, b"/echo/x".to_vec());
    assert_eq!(req.http_version, b"HTTP/1.0".to_vec());
}

#[test]
fn request_line_words_split_on_whitespace() {
    let req = parse_request(b"  POST \t/files/a   HTTP/1.1 \r\n\r\n").unwrap();
    assert_eq!(req.method, Method::Post);
    assert_eq!(req.path, b"/files/a".to_vec());
    assert_eq!(req.http_version, b"HTTP/1.1".to_vec());
}

#[test]
fn method_tokens() {
    assert_eq!(parse_request(b"POSTED / HTTP/1.1\r\n\r\n").unwrap().method, Method::Post);
    assert_eq!(parse_request(b"PUT / HTTP/1.1\r\n\r\n").unwrap().method, Method::Get);
    assert_eq!(parse_request(b"GETX / HTTP/1.1\r\n\r\n").unwrap().method, Method::Get);
}

#[test]
fn request_errors() {
    assert_eq!(
        parse_request(b"GET / HTTP/1.1\r\nHost: x\r\n").err(),
        Some(RequestError::MissingHeaderEnd)
    );
    assert_eq!(
        parse_request(b"GET /\xff HTTP/1.1\r\n\r\n").err(),
        Some(RequestError::NotText)
    );
    assert_eq!(
        parse_request(b"GET /\r\n\r\n").err(),
        Some(RequestError::BadRequestLine)
    );
    assert_eq!(
        parse_request(b"GET / HTTP/1.1 extra\r\n\r\n").err(),
        Some(RequestError::BadRequestLine)
    );
    assert_eq!(parse_request(b"\r\n\r\n").err(), Some(RequestError::BadRequestLine));
    assert_eq!(
        parse_request(b"POST /files/a HTTP/1.1\r\nContent-Length: 1x\r\n\r\n").err(),
        Some(RequestError::BadContentLength)
    );
    assert_eq!(
        parse_request(b"POST /files/a HTTP/1.1\r\nContent-Length: 99999999999999999999999\r\n\r\n")
            .err(),
        Some(RequestError::BadContentLength)
    );
    assert_eq!(
        parse_request(b"POST /files/a HTTP/1.1\r\nContent-Length: \r\n\r\n").err(),
        Some(RequestError::BadContentLength)
    );
    let r = error_response(RequestError::NotText);
    assert_eq!(r.to_bytes(), b"HTTP/1.1 400 BAD REQUEST\r\n\r\n".to_vec());
    assert_eq!(wire(handle(b"garbage")), b"HTTP/1.1 400 BAD REQUEST\r\n\r\n".to_vec());
}

#[test]
fn echo_answers_segment() {
    let out = wire(handle(b"GET /echo/abc HTTP/1.1\r\nHost: x\r\n\r\n"));
    assert_eq!(
        out,
        b"HTTP/1.1 200 OK\r\nContent-Type: text/plain\r\nContent-Length: 3\r\n\r\nabc".to_vec()
    );
}

#[test]
fn echo_length_is_decimal() {
    let r = reply(handle(b"GET /echo/twelve-bytes HTTP/1.1\r\n\r\n"));
    assert_eq!(r.status_code, 200);
    assert_eq!(header(&r, "Content-Length"), Some(&b"12"[..]));
    assert_eq!(r.body, b"twelve-bytes".to_vec());
}

#[test]
fn echo_segment_rules() {
    assert_eq!(echo_segment(b"/echo/abc"), Some(b"abc".to_vec()));
    assert_eq!(echo_segment(b"/echo/abc/"), Some(b"abc".to_vec()));
    assert_eq!(echo_segment(b"/echo/a/b"), Some(b"a/b".to_vec()));
    assert_eq!(echo_segment(b"//echo/abc"), Some(b"abc".to_vec()));
    assert_eq!(echo_segment(b"/echo"), None);
    assert_eq!(echo_segment(b"/echo/"), None);
}

#[test]
fn echo_without_segment_is_bad_request() {
    let mut req = Request::new();
    req.path = b"/echo".to_vec();
    let r = echo(&req);
    assert_eq!(r.status_code, 400);
    assert!(r.body.is_empty());
}

#[test]
fn user_agent_answers_header() {
    let out = wire(handle(b"GET /user-agent HTTP/1.1\r\nUser-Agent: foobar/1.2.3\r\n\r\n"));
    assert_eq!(
        out,
        b"HTTP/1.1 200 OK\r\nContent-Type: text/plain\r\nContent-Length: 12\r\n\r\nfoobar/1.2.3"
            .to_vec()
    );
}

#[test]
fn user_agent_missing_is_bad_request() {
    let mut req = Request::new();
    req.path = b"/user-agent".to_vec();
    let r = user_agent(&req);
    assert_eq!(r.status_code, 400);
    assert!(r.body.is_empty());
}

#[test]
fn file_round_trip() {
    let body = b"some file\r\ncontents".to_vec();
    let mut post = b"POST /files/notes.txt HTTP/1.1\r\nContent-Length: 19\r\n\r\n".to_vec();
    post.extend_from_slice(&body);
    let written = match handle(&post) {
        Action::WriteFile(name, bytes) => {
            assert_eq!(name, b"notes.txt".to_vec());
            bytes
        }
        _ => panic!("expected a write"),
    };
    assert_eq!(written, body);
    assert_eq!(written_response(true).to_bytes(), b"HTTP/1.1 201 CREATED\r\n\r\n".to_vec());
    match handle(b"GET /files/notes.txt HTTP/1.1\r\n\r\n") {
        Action::ReadFile(name) => assert_eq!(name, b"notes.txt".to_vec()),
        _ => panic!("expected a read"),
    }
    let r = file_response(Some(written));
    assert_eq!(r.status_code, 200);
    assert_eq!(r.body, body);
    assert_eq!(header(&r, "Content-Type"), Some(&b"application/octet-stream"[..]));
    assert_eq!(header(&r, "Content-Length"), Some(&b"19"[..]));
}

#[test]
fn missing_file_is_not_found() {
    let r = file_response(None);
    assert_eq!(r.status_code, 404);
    assert!(r.body.is_empty());
    assert_eq!(r.to_bytes(), b"HTTP/1.1 404 NOT FOUND\r\n\r\n".to_vec());
}

#[test]
fn failed_write_is_server_error() {
    assert_eq!(
        written_response(false).to_bytes(),
        b"HTTP/1.1 500 INTERNAL SERVER ERROR\r\n\r\n".to_vec()
    );
}

#[test]
fn file_names() {
    assert_eq!(file_name(b"/files/a.txt"), Some(b"a.txt".to_vec()));
    assert_eq!(file_name(b"/files/"), Some(Vec::new()));
    assert_eq!(file_name(b"/files"), None);
    assert_eq!(wire(handle(b"GET /files HTTP/1.1\r\n\r\n")), b"HTTP/1.1 400 BAD REQUEST\r\n\r\n".to_vec());
}

#[test]
fn root_is_ok_and_unmatched_is_not_found() {
    assert_eq!(wire(handle(b"GET / HTTP/1.1\r\n\r\n")), b"HTTP/1.1 200 OK\r\n\r\n".to_vec());
    assert_eq!(
        wire(handle(b"GET /unknown HTTP/1.1\r\n\r\n")),
        b"HTTP/1.1 404 NOT FOUND\r\n\r\n".to_vec()
    );
    assert_eq!(
        wire(handle(b"POST /unknown HTTP/1.1\r\n\r\n")),
        b"HTTP/1.1 404 NOT FOUND\r\n\r\n".to_vec()
    );
    assert_eq!(
        wire(handle(b"POST / HTTP/1.1\r\n\r\n")),
        b"HTTP/1.1 404 NOT FOUND\r\n\r\n".to_vec()
    );
}

#[test]
fn routing_table() {
    assert_eq!(route(Method::Get, b"/"), Route::Root);
    assert_eq!(route(Method::Get, b"/echo/x"), Route::Echo);
    assert_eq!(route(Method::Get, b"/echoes"), Route::Echo);
    assert_eq!(route(Method::Get, b"/user-agent"), Route::UserAgent);
    assert_eq!(route(Method::Get, b"/user-agent/x"), Route::NotFound);
    assert_eq!(route(Method::Get, b"/files/a"), Route::GetFile);
    assert_eq!(route(Method::Post, b"/files/a"), Route::PostFile);
    assert_eq!(route(Method::Post, b"/echo/a"), Route::NotFound);
    assert_eq!(route(Method::Get, b""), Route::NotFound);
}

#[test]
fn connections_do_not_mix() {
    let names: Vec<String> = (0..8).map(|i| format!("s{}", i)).collect();
    let requests: Vec<Vec<u8>> = names
        .iter()
        .map(|s| format!("GET /echo/{} HTTP/1.1\r\n\r\n", s).into_bytes())
        .collect();
    let actions: Vec<Action> = requests.iter().rev().map(|r| handle(r)).collect();
    for (action, s) in actions.into_iter().rev().zip(names.iter()) {
        assert_eq!(reply(action).body, s.as_bytes().to_vec());
    }
}

#[test]
fn respond_to_built_request() {
    let mut req = Request::new();
    assert_eq!(req.method, Method::Get);
    assert!(req.path.is_empty() && req.http_version.is_empty());
    assert!(req.headers.is_empty() && req.body.is_empty());
    req.path = b"/echo/hi".to_vec();
    assert_eq!(reply(respond(&req)).body, b"hi".to_vec());
}

#[test]
fn builders_set_fields() {
    let r = Response::new()
        .http_version(b"HTTP/1.0".to_vec())
        .status_code(204)
        .status_message(b"No Content".to_vec())
        .headers(vec![(b"A".to_vec(), b"b".to_vec())])
        .body(b"x".to_vec());
    assert_eq!(r.to_bytes(), b"HTTP/1.0 204 No Content\r\nA: b\r\n\r\nx".to_vec());
    let e = Response::new();
    assert_eq!(e.status_code, 0);
    assert_eq!(e.to_bytes(), b" 0 \r\n\r\n".to_vec());
    assert_eq!(Response::ok().to_bytes(), b"HTTP/1.1 200 OK\r\n\r\n".to_vec());
    assert_eq!(Response::not_found().status_code, 404);
}
