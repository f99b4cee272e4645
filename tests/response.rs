use async_http::{decimal, HttpHeaders, HttpResponse, HttpStatus};

#[test]
fn encoding_has_status_line_header_and_body() {
    let mut r = HttpResponse::new(HttpStatus::OK);
    r.set_header("Content-Type", "text/plain");
    r.set_body("text/plain", "hi");
    let wire = r.encode();
    assert!(wire.starts_with("HTTP/1.1 200 OK\r\n"));
    assert!(wire.contains("Content-Type: text/plain\r\n"));
    assert!(wire.ends_with("hi"));
}

#[test]
fn encoding_exact_with_one_header() {
    let mut r = HttpResponse::new(HttpStatus::OK);
    r.set_header("Content-Type", "text/plain");
    assert_eq!(r.encode(), "HTTP/1.1 200 OK\r\nContent-Type: text/plain\r\n\r\n");
}

#[test]
fn not_found_encoding() {
    let r = HttpResponse::http_404();
    assert_eq!(r.status(), HttpStatus::NotFound);
    assert_eq!(r.headers().len(), 0);
    assert!(r.body().is_none());
    assert_eq!(r.encode(), "HTTP/1.1 404 Not found\r\n\r\n");
}

#[test]
fn body_sets_content_type_and_length() {
    let mut r = HttpResponse::new(HttpStatus::OK);
    r.set_body("text/html", "<h1>Hello world</h1>");
    assert_eq!(r.headers().get("Content-Type").map(|v| v.as_str()), Some("text/html"));
    assert_eq!(r.headers().get("Content-Length").map(|v| v.as_str()), Some("20"));
    assert_eq!(r.body().map(|b| b.as_str()), Some("<h1>Hello world</h1>"));
    let wire = r.encode();
    assert!(wire.contains("Content-Length: 20\r\n"));
    assert!(wire.ends_with("\r\n\r\n<h1>Hello world</h1>"));
}

#[test]
fn content_length_counts_bytes() {
    let mut r = HttpResponse::new(HttpStatus::OK);
    r.set_body("text/plain", "héllo");
    assert_eq!(r.headers().get("Content-Length").map(|v| v.as_str()), Some("6"));
}

#[test]
fn status_can_be_replaced() {
    let mut r = HttpResponse::new(HttpStatus::OK);
    r.set_header("A", "1");
    r.set_status(HttpStatus::InternalServerError);
    assert_eq!(r.encode(), "HTTP/1.1 500 Internal server error\r\nA: 1\r\n\r\n");
    r.set_status(HttpStatus::BadRequest);
    assert!(r.encode().starts_with("HTTP/1.1 400 Bad request\r\n"));
}

#[test]
fn other_status_codes_are_unknown() {
    let r = HttpResponse::new(HttpStatus::Other(418));
    assert_eq!(r.encode(), "HTTP/1.1 418 Unknown\r\n\r\n");
    assert_eq!(HttpStatus::Other(404).reason(), "Not found");
}

#[test]
fn status_conversions() {
    assert_eq!(u32::from(&HttpStatus::OK), 200);
    assert_eq!(u32::from(&HttpStatus::BadRequest), 400);
    assert_eq!(u32::from(&HttpStatus::NotFound), 404);
    assert_eq!(u32::from(&HttpStatus::InternalServerError), 500);
    let s: &str = (&HttpStatus::NotFound).into();
    assert_eq!(s, "Not found");
    assert_eq!(HttpStatus::Other(7).code(), 7);
}

#[test]
fn set_header_replaces_value() {
    let mut r = HttpResponse::new(HttpStatus::OK);
    r.set_header("X", "1");
    r.set_header("X", "2");
    assert_eq!(r.headers().len(), 1);
    assert_eq!(r.encode(), "HTTP/1.1 200 OK\r\nX: 2\r\n\r\n");
}

#[test]
fn headers_map_operations() {
    let mut h = HttpHeaders::new();
    assert_eq!(h.len(), 0);
    h.insert("a", "1");
    h.insert("b", "2");
    h.insert("a", "3");
    assert_eq!(h.len(), 2);
    assert_eq!(h.get("a").map(|v| v.as_str()), Some("3"));
    assert_eq!(h.get("c"), None);
    let (n, v) = h.entry(1);
    assert_eq!((n.as_str(), v.as_str()), ("b", "2"));
}

#[test]
fn decimal_notation() {
    assert_eq!(decimal(0), "0");
    assert_eq!(decimal(7), "7");
    assert_eq!(decimal(200), "200");
    assert_eq!(decimal(18446744073709551615), "18446744073709551615");
}
