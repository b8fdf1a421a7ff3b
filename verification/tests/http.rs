use carbon::http::{Method, Request, Response};
use carbon::server::Message;

fn message(text: &str) -> Message {
    Message { buf: text.as_bytes().to_vec() }
}

#[test]
fn method_names() {
    assert_eq!(Method::GET.to_str(), "GET");
    assert_eq!(Method::POST.to_str(), "POST");
    assert_eq!(Method::PUT.to_str(), "PUT");
    assert_eq!(Method::DELETE.to_str(), "DELETE");
    assert_eq!(Method::NONE.to_str(), "NONE");
}

#[test]
fn method_from_token_reads_names_back() {
    for m in [Method::GET, Method::POST, Method::PUT, Method::DELETE] {
        assert_eq!(Method::from_token(&m.to_str().to_string()), m);
    }
    assert_eq!(Method::from_token(&"PATCH".to_string()), Method::NONE);
    assert_eq!(Method::from_token(&"get".to_string()), Method::NONE);
}

#[test]
fn parse_get_request() {
    let req = Request::parse(&message("GET /index.html HTTP/1.1\r\nHost: a\r\n\r\n"));
    assert_eq!(req.method(), Method::GET);
    assert_eq!(req.uri(), "/index.html");
}

#[test]
fn parse_partial_request_line_is_enough() {
    let req = Request::parse(&message("DELETE /x HTTP/1.0\r\nHost:"));
    assert_eq!(req.method(), Method::DELETE);
    assert_eq!(req.uri(), "/x");
}

#[test]
fn parse_unknown_method_gives_none() {
    let req = Request::parse(&message("PATCH /y HTTP/1.1\r\n\r\n"));
    assert_eq!(req.method(), Method::NONE);
    assert_eq!(req.uri(), "/y");
}

#[test]
fn try_parse_rejects_invalid_version() {
    assert!(Request::try_parse(&message("GET / HTTP/2.0\r\n\r\n")).is_none());
}

#[test]
fn try_parse_rejects_missing_path() {
    assert!(Request::try_parse(&message("GET ")).is_none());
}

#[test]
fn from_parsed_needs_every_part() {
    assert!(Request::from_parsed(None).is_none());
    assert!(Request::from_parsed(Some((Some("GET".to_string()), None, Some(1)))).is_none());
    let r = Request::from_parsed(Some((Some("POST".to_string()), Some("/p".to_string()), Some(0))))
        .unwrap();
    assert_eq!(r.method(), Method::POST);
    assert_eq!(r.uri(), "/p");
}

fn field_lines(text: &str) -> Vec<String> {
    let head = text.split("\n\n").next().unwrap();
    head.lines().skip(1).map(|l| l.to_string()).collect()
}

#[test]
fn fresh_responses_have_default_fields() {
    for (r, status) in [
        (Response::ok(), "200 OK"),
        (Response::not_found(), "404 NOT FOUND"),
        (Response::server_error(), "500 Internal Server Error"),
    ] {
        let text = r.to_string();
        assert!(text.starts_with(&format!("HTTP/1.1 {}\n", status)));
        assert!(text.ends_with("\n\n"));
        let fields = field_lines(&text);
        assert_eq!(fields.len(), 4);
        assert!(fields[0].starts_with("Date: "));
        assert_eq!(fields[1], "Server: Rust-server/0.0.0");
        assert_eq!(fields[2], "Content-Length: 0");
        assert_eq!(fields[3], "Content-Type: text/html");
    }
}

#[test]
fn body_sets_content_length_in_bytes() {
    let text = Response::ok().body("héllo".to_string()).to_string();
    let fields = field_lines(&text);
    assert_eq!(fields.len(), 4);
    assert_eq!(fields[2], "Content-Length: 6");
    assert!(text.ends_with("\n\nhéllo"));
}

#[test]
fn body_twice_keeps_one_content_length() {
    let text = Response::ok().body("abc".to_string()).body("0123456789ab".to_string()).to_string();
    let fields = field_lines(&text);
    assert_eq!(fields.len(), 4);
    assert_eq!(fields[2], "Content-Length: 12");
    assert!(text.ends_with("\n\n0123456789ab"));
}

#[test]
fn to_message_holds_the_text_bytes() {
    let r = Response::not_found().body("<p>x</p>".to_string());
    let m = r.to_message();
    assert_eq!(m.buf, r.to_string().into_bytes());
    assert_eq!(m.to_str(), r.to_string());
}

#[test]
fn dated_response_text_is_exact() {
    let r = Response::with_date("200 OK".to_string(), "2020-01-02 03:04:05".to_string());
    assert_eq!(
        r.to_string(),
        "HTTP/1.1 200 OK\nDate: 2020-01-02 03:04:05\nServer: Rust-server/0.0.0\nContent-Length: 0\nContent-Type: text/html\n\n"
    );
}

#[test]
fn ok_response_with_body_has_six_line_breaks() {
    let s = Response::ok().body("hi".to_string()).to_string();
    assert!(s.starts_with("HTTP/1.1 200 OK\n"));
    assert!(s.ends_with("\n\nhi"));
    assert!(s.contains("\nContent-Length: 2\n"));
    assert!(s.contains("\nServer: Rust-server/0.0.0\n"));
    assert!(s.contains("\nContent-Type: text/html\n"));
    assert!(s.contains("\nDate: "));
    assert_eq!(s.matches('\n').count(), 6);
}

#[test]
fn fresh_response_date_uses_date_characters_only() {
    let text = Response::ok().to_string();
    let date_line = field_lines(&text)[0].clone();
    let date = &date_line["Date: ".len()..];
    assert_eq!(date.len(), 19);
    for (i, c) in date.chars().enumerate() {
        match i {
            4 | 7 => assert_eq!(c, '-'),
            10 => assert_eq!(c, ' '),
            13 | 16 => assert_eq!(c, ':'),
            _ => assert!(c.is_ascii_digit()),
        }
    }
}
