use mini_http::request::{HttpMethod, HttpRequest, MethodToken};
use mini_http::response::{HttpResponse, HttpResponseContent, HttpResponseStatus};
use mini_http::router::{handle_request, route};

fn parsed(text: &str) -> HttpRequest {
    match HttpRequest::try_from(text) {
        Ok(req) => req,
        Err(()) => panic!("no request in {:?}", text),
    }
}

#[test]
fn root_is_answered_with_200() {
    let out = handle_request("GET / HTTP/1.1\r\n\r\n");
    assert_eq!(out, "HTTP/1.1 200 OK\r\n\r\n");
    assert_eq!(out.lines().next(), Some("HTTP/1.1 200 OK"));
}

#[test]
fn root_with_headers_is_answered_with_200() {
    let out = handle_request("GET / HTTP/1.1\r\nHost: localhost:5555\r\nAccept: */*\r\n\r\n");
    assert_eq!(out, "HTTP/1.1 200 OK\r\n\r\n");
}

#[test]
fn root_in_a_zero_filled_buffer() {
    let mut text = String::from("GET / HTTP/1.1\r\nHost: a\r\n\r\n");
    while text.len() < 1024 {
        text.push('\0');
    }
    assert_eq!(handle_request(&text), "HTTP/1.1 200 OK\r\n\r\n");
}

#[test]
fn echo_returns_the_text() {
    let out = handle_request("GET /echo/abc HTTP/1.1\r\n\r\n");
    assert_eq!(
        out,
        "HTTP/1.1 200 OK\r\nContent-Length: 3\r\nContent-Type: text/plain\r\n\r\nabc\r\n"
    );
}

#[test]
fn echo_counts_bytes_not_characters() {
    let out = handle_request("GET /echo/h\u{e9}llo\u{20ac} HTTP/1.1\r\n\r\n");
    assert_eq!(
        out,
        "HTTP/1.1 200 OK\r\nContent-Length: 9\r\nContent-Type: text/plain\r\n\r\nh\u{e9}llo\u{20ac}\r\n"
    );
}

#[test]
fn echo_of_many_texts() {
    let samples = ["", "a", "hello-world", "a/b/c?x=1&y=2", "%20%41", "::", "0123456789012"];
    for s in samples {
        let out = handle_request(&format!("GET /echo/{} HTTP/1.1\r\n\r\n", s));
        let expected = format!(
            "HTTP/1.1 200 OK\r\nContent-Length: {}\r\nContent-Type: text/plain\r\n\r\n{}\r\n",
            s.len(),
            s
        );
        assert_eq!(out, expected);
    }
}

#[test]
fn echo_of_the_empty_text() {
    let out = handle_request("GET /echo/ HTTP/1.1\r\n\r\n");
    assert_eq!(
        out,
        "HTTP/1.1 200 OK\r\nContent-Length: 0\r\nContent-Type: text/plain\r\n\r\n\r\n"
    );
}

#[test]
fn echo_stops_at_white_space() {
    let out = handle_request("GET /echo/a b HTTP/1.1\r\n\r\n");
    assert_eq!(
        out,
        "HTTP/1.1 200 OK\r\nContent-Length: 1\r\nContent-Type: text/plain\r\n\r\na\r\n"
    );
}

#[test]
fn echo_without_the_second_slash_is_not_found() {
    assert_eq!(handle_request("GET /echo HTTP/1.1\r\n\r\n"), "HTTP/1.1 404 Not Found\r\n\r\n");
}

#[test]
fn user_agent_is_reflected() {
    let out = handle_request("GET /user-agent HTTP/1.1\r\nUser-Agent: test-agent\r\n\r\n");
    assert_eq!(
        out,
        "HTTP/1.1 200 OK\r\nContent-Length: 10\r\nContent-Type: text/plain\r\n\r\ntest-agent\r\n"
    );
}

#[test]
fn user_agent_among_other_headers() {
    let out = handle_request(
        "GET /user-agent HTTP/1.1\r\nHost: x\r\nUser-Agent:   curl/8.0 (linux)  \r\nAccept: */*\r\n\r\nbody",
    );
    assert_eq!(
        out,
        "HTTP/1.1 200 OK\r\nContent-Length: 16\r\nContent-Type: text/plain\r\n\r\ncurl/8.0 (linux)\r\n"
    );
}

#[test]
fn user_agent_missing_is_a_bad_request() {
    let out = handle_request("GET /user-agent HTTP/1.1\r\nHost: x\r\n\r\n");
    assert_eq!(out, "HTTP/1.1 400 Bad Request\r\n\r\n");
}

#[test]
fn user_agent_name_is_matched_by_case() {
    let out = handle_request("GET /user-agent HTTP/1.1\r\nuser-agent: x\r\n\r\n");
    assert_eq!(out, "HTTP/1.1 400 Bad Request\r\n\r\n");
}

#[test]
fn user_agent_after_the_empty_line_is_not_read() {
    let out = handle_request("GET /user-agent HTTP/1.1\r\n\r\nUser-Agent: late\r\n");
    assert_eq!(out, "HTTP/1.1 400 Bad Request\r\n\r\n");
}

#[test]
fn unknown_method_is_not_implemented() {
    assert_eq!(handle_request("POST / HTTP/1.1\r\n\r\n"), "HTTP/1.1 501 Not Implemented\r\n\r\n");
    assert_eq!(
        handle_request("get /echo/x HTTP/1.1\r\n\r\n"),
        "HTTP/1.1 501 Not Implemented\r\n\r\n"
    );
    assert_eq!(
        handle_request("DELETE /user-agent HTTP/1.1\r\nUser-Agent: a\r\n\r\n"),
        "HTTP/1.1 501 Not Implemented\r\n\r\n"
    );
}

#[test]
fn missing_path_is_a_bad_request() {
    assert!(HttpRequest::try_from("GET\r\n\r\n").is_err());
    assert_eq!(handle_request("GET\r\n\r\n"), "HTTP/1.1 400 Bad Request\r\n\r\n");
    assert_eq!(handle_request("  GET  \r\n\r\n"), "HTTP/1.1 400 Bad Request\r\n\r\n");
}

#[test]
fn empty_text_is_a_bad_request() {
    assert!(HttpRequest::try_from("").is_err());
    assert_eq!(handle_request(""), "HTTP/1.1 400 Bad Request\r\n\r\n");
    assert_eq!(handle_request("\r\n"), "HTTP/1.1 400 Bad Request\r\n\r\n");
}

#[test]
fn header_without_colon_fails_the_whole_request() {
    assert!(HttpRequest::try_from("GET / HTTP/1.1\r\nHost: a\r\nbroken\r\n\r\n").is_err());
    assert_eq!(
        handle_request("GET / HTTP/1.1\r\nHost: a\r\nbroken\r\n\r\n"),
        "HTTP/1.1 400 Bad Request\r\n\r\n"
    );
}

#[test]
fn line_without_colon_after_the_empty_line_is_not_read() {
    assert_eq!(handle_request("GET / HTTP/1.1\r\n\r\nbroken\r\n"), "HTTP/1.1 200 OK\r\n\r\n");
}

#[test]
fn lone_carriage_return_at_the_end_is_a_line() {
    assert!(HttpRequest::try_from("GET / HTTP/1.1\r\n\r").is_err());
    assert!(HttpRequest::try_from("GET / HTTP/1.1\r\n\r\n").is_ok());
    assert!(HttpRequest::try_from("GET / HTTP/1.1\r").is_ok());
}

#[test]
fn unknown_path_is_not_found() {
    assert_eq!(handle_request("GET /nothing HTTP/1.1\r\n\r\n"), "HTTP/1.1 404 Not Found\r\n\r\n");
    assert_eq!(handle_request("GET /user-agent/ HTTP/1.1\r\n\r\n"), "HTTP/1.1 404 Not Found\r\n\r\n");
}

#[test]
fn version_is_not_needed() {
    assert_eq!(handle_request("GET /"), "HTTP/1.1 200 OK\r\n\r\n");
    assert_eq!(handle_request("GET / FTP/9 and more\n\n"), "HTTP/1.1 200 OK\r\n\r\n");
}

#[test]
fn parser_keeps_method_path_and_headers() {
    let req = parsed("GET /a?b=c HTTP/1.1\r\nHost: example.org:80\r\n  X-Pad  :  v 1  \r\nEmpty:\r\n\r\nbody");
    assert_eq!(req.method, MethodToken::Known(HttpMethod::GET));
    assert_eq!(req.path, "/a?b=c");
    assert_eq!(req.headers.len(), 3);
    assert_eq!(req.headers.get("Host").map(|v| v.as_str()), Some("example.org:80"));
    assert_eq!(req.headers.get("X-Pad").map(|v| v.as_str()), Some("v 1"));
    assert_eq!(req.headers.get("Empty").map(|v| v.as_str()), Some(""));
    assert!(req.headers.get("body").is_none());
}

#[test]
fn parser_keeps_an_unknown_method_as_received() {
    let req = parsed("PATCH /x HTTP/1.1\r\n\r\n");
    assert_eq!(req.method, MethodToken::Unknown(String::from("PATCH")));
    assert_eq!(req.path, "/x");
    assert!(req.headers.is_empty());
}

#[test]
fn later_header_replaces_earlier() {
    let req = parsed("GET /user-agent HTTP/1.1\r\nUser-Agent: one\r\nUser-Agent: two\r\n\r\n");
    assert_eq!(req.headers.len(), 1);
    assert_eq!(req.headers.get("User-Agent").map(|v| v.as_str()), Some("two"));
    let out: String = route(&req).into();
    assert_eq!(
        out,
        "HTTP/1.1 200 OK\r\nContent-Length: 3\r\nContent-Type: text/plain\r\n\r\ntwo\r\n"
    );
}

#[test]
fn tokens_are_split_on_unicode_white_space() {
    let req = parsed("\u{a0}GET\u{2003}\t/p\u{3000}HTTP/1.1\nA\u{85}:\u{2028}b\u{1680}\n\n");
    assert_eq!(req.method, MethodToken::Known(HttpMethod::GET));
    assert_eq!(req.path, "/p");
    assert_eq!(req.headers.get("A").map(|v| v.as_str()), Some("b"));
}

#[test]
fn method_from_str() {
    assert_eq!(HttpMethod::from_str("GET"), Ok(HttpMethod::GET));
    assert_eq!(HttpMethod::from_str("get"), Err(()));
    assert_eq!(HttpMethod::from_str("GET "), Err(()));
    assert_eq!(HttpMethod::from_str(""), Err(()));
    assert_eq!(HttpMethod::from_str("POST"), Err(()));
}

#[test]
fn status_to_string() {
    assert_eq!(HttpResponseStatus::Okay.to_string(), "200 OK");
    assert_eq!(HttpResponseStatus::NotFound.to_string(), "404 Not Found");
    assert_eq!(HttpResponseStatus::BadRequest.to_string(), "400 Bad Request");
    assert_eq!(HttpResponseStatus::NotImplemented.to_string(), "501 Not Implemented");
    assert_eq!(HttpResponseStatus::NotFound.as_str(), "404 Not Found");
}

#[test]
fn new_has_no_content() {
    let r = HttpResponse::new(HttpResponseStatus::NotFound);
    assert_eq!(r.status, HttpResponseStatus::NotFound);
    assert_eq!(r.content, HttpResponseContent::Empty);
}

#[test]
fn with_content_text_plain_sets_the_body() {
    let r = HttpResponse::new(HttpResponseStatus::BadRequest).with_content_text_plain("why");
    assert_eq!(r.status, HttpResponseStatus::BadRequest);
    assert_eq!(r.content, HttpResponseContent::TextPlain(String::from("why")));
    let again = r.with_content_text_plain("other");
    assert_eq!(again.content, HttpResponseContent::TextPlain(String::from("other")));
}

#[test]
fn serializing_twice_gives_the_same_text() {
    let r = HttpResponse::new(HttpResponseStatus::Okay).with_content_text_plain("same");
    let first = r.clone().into();
    let second = r.into();
    assert_eq!(first, second);
    let e = HttpResponse::new(HttpResponseStatus::NotImplemented);
    assert_eq!(e.clone().into(), e.into());
}

#[test]
fn empty_content_is_a_status_line_and_an_empty_line() {
    let all = [
        (HttpResponseStatus::Okay, "HTTP/1.1 200 OK\r\n\r\n"),
        (HttpResponseStatus::NotFound, "HTTP/1.1 404 Not Found\r\n\r\n"),
        (HttpResponseStatus::BadRequest, "HTTP/1.1 400 Bad Request\r\n\r\n"),
        (HttpResponseStatus::NotImplemented, "HTTP/1.1 501 Not Implemented\r\n\r\n"),
    ];
    for (status, expected) in all {
        let out = HttpResponse::new(status).into();
        assert_eq!(out, expected);
        assert_eq!(out.matches("\r\n\r\n").count(), 1);
        assert!(out.ends_with("\r\n\r\n"));
        assert!(!out.contains("Content-Length"));
        assert!(!out.contains("Content-Type"));
    }
}

#[test]
fn body_is_followed_by_one_more_line_ending() {
    let out = HttpResponse::new(HttpResponseStatus::NotFound).with_content_text_plain("a\r\nb").into();
    assert_eq!(
        out,
        "HTTP/1.1 404 Not Found\r\nContent-Length: 4\r\nContent-Type: text/plain\r\n\r\na\r\nb\r\n"
    );
}

#[test]
fn long_body_length_in_decimal() {
    let body = "x".repeat(12345);
    let out = HttpResponse::new(HttpResponseStatus::Okay).with_content_text_plain(&body).into();
    assert!(out.starts_with("HTTP/1.1 200 OK\r\nContent-Length: 12345\r\nContent-Type: text/plain\r\n\r\nxxx"));
    assert_eq!(out.len(), 68 + 12345 + 2);
}
