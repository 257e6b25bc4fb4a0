use worker_pool::http::{render, resource_name, respond, route, starts_with, Route};

fn request_buffer(text: &[u8]) -> Vec<u8> {
    let mut buffer = vec![0u8; 1024];
    buffer[..text.len()].copy_from_slice(text);
    buffer
}

#[test]
fn root_request_line_selects_the_root_resource() {
    assert_eq!(route(b"GET / HTTP/1.1\r\n"), Route::Root);
    assert_eq!(route(b"GET / HTTP/1.1\r\nHost: localhost\r\n\r\n"), Route::Root);
    assert_eq!(route(&request_buffer(b"GET / HTTP/1.1\r\n")), Route::Root);
}

#[test]
fn any_other_request_selects_the_not_found_resource() {
    assert_eq!(route(b""), Route::NotFound);
    assert_eq!(route(b"GET / HTTP/1.1\r"), Route::NotFound);
    assert_eq!(route(b"GET / HTTP/1.1\n\r"), Route::NotFound);
    assert_eq!(route(b"GET /index.html HTTP/1.1\r\n"), Route::NotFound);
    assert_eq!(route(b"get / HTTP/1.1\r\n"), Route::NotFound);
    assert_eq!(route(b" GET / HTTP/1.1\r\n"), Route::NotFound);
    assert_eq!(route(b"POST / HTTP/1.1\r\n"), Route::NotFound);
    assert_eq!(route(b"GET / HTTP/1.0\r\n"), Route::NotFound);
    assert_eq!(route(&request_buffer(b"")), Route::NotFound);
}

#[test]
fn resources_have_their_names() {
    assert_eq!(resource_name(Route::Root), "../serve.html");
    assert_eq!(resource_name(Route::NotFound), "../404.html");
}

#[test]
fn root_response_announces_the_length_of_its_body() {
    let body = b"<html><body>Hello</body></html>";
    assert_eq!(body.len(), 31);
    let out = render(Route::Root, body);
    let mut expected = b"HTTP/1.1 200 OK\r\nContent-Length: 31\r\n\r\n".to_vec();
    expected.extend_from_slice(body);
    assert_eq!(out, expected);
}

#[test]
fn not_found_response_is_status_and_body() {
    let out = render(Route::NotFound, b"<h1>Oops!</h1>");
    assert_eq!(out, b"HTTP/1.1 404 NOT FOUND\r\n\r\n<h1>Oops!</h1>".to_vec());
    assert_eq!(render(Route::NotFound, b""), b"HTTP/1.1 404 NOT FOUND\r\n\r\n".to_vec());
}

#[test]
fn content_length_is_written_in_base_ten() {
    let cases: [(usize, &str); 8] = [
        (0, "0"),
        (1, "1"),
        (9, "9"),
        (10, "10"),
        (99, "99"),
        (100, "100"),
        (1024, "1024"),
        (70509, "70509"),
    ];
    for (len, digits) in cases {
        let body = vec![b'x'; len];
        let out = render(Route::Root, &body);
        let head = format!("HTTP/1.1 200 OK\r\nContent-Length: {}\r\n\r\n", digits);
        assert_eq!(&out[..head.len()], head.as_bytes());
        assert_eq!(&out[head.len()..], &body[..]);
    }
}

#[test]
fn body_bytes_pass_through_unchanged() {
    let body: Vec<u8> = (0..=255u8).collect();
    let out = render(Route::NotFound, &body);
    assert_eq!(&out[out.len() - 256..], &body[..]);
    let out = render(Route::Root, &body);
    assert_eq!(&out[..38], b"HTTP/1.1 200 OK\r\nContent-Length: 256\r\n");
    assert_eq!(&out[out.len() - 256..], &body[..]);
}

#[test]
fn exact_root_request_is_answered_with_the_root_resource() {
    let root = b"<p>root</p>";
    let missing = b"<p>missing</p>";
    let out = respond(b"GET / HTTP/1.1\r\n", root, missing);
    assert_eq!(out, b"HTTP/1.1 200 OK\r\nContent-Length: 11\r\n\r\n<p>root</p>".to_vec());
    let text = String::from_utf8(out).unwrap();
    let mut lines = text.split("\r\n");
    assert_eq!(lines.next(), Some("HTTP/1.1 200 OK"));
    assert_eq!(lines.next(), Some("Content-Length: 11"));
}

#[test]
fn other_requests_are_answered_with_the_not_found_resource() {
    let root = b"<p>root</p>";
    let missing = b"<p>missing</p>";
    let expected = b"HTTP/1.1 404 NOT FOUND\r\n\r\n<p>missing</p>".to_vec();
    assert_eq!(respond(b"GET /other HTTP/1.1\r\n", root, missing), expected);
    assert_eq!(respond(b"", root, missing), expected);
    assert_eq!(respond(&request_buffer(b"GET /"), root, missing), expected);
}

#[test]
fn starts_with_compares_byte_for_byte() {
    assert!(starts_with(b"abc", b""));
    assert!(starts_with(b"", b""));
    assert!(starts_with(b"abc", b"ab"));
    assert!(starts_with(b"abc", b"abc"));
    assert!(!starts_with(b"abc", b"abcd"));
    assert!(!starts_with(b"abc", b"b"));
    assert!(!starts_with(b"abc", b"abd"));
    assert!(!starts_with(b"", b"a"));
}
