use async_http::{
    parse_header_line, parse_status_line, DecodeStage, HttpInnerStream, HttpRequest,
    HttpRequestParseError, RequestDecoder,
};

fn decode(lines: &[&str]) -> Result<HttpRequest<String>, HttpRequestParseError> {
    let mut decoder = RequestDecoder::new();
    let mut rest: Vec<&str> = Vec::new();
    let mut done = false;
    for line in lines {
        if done {
            rest.push(line);
            continue;
        }
        if decoder.feed_line(line)? == DecodeStage::Complete {
            done = true;
        }
    }
    if !done {
        // the stream ends: the reader hands over an empty line
        decoder.feed_line("")?;
        if decoder.stage() != DecodeStage::Complete {
            decoder.feed_line("")?;
        }
    }
    Ok(decoder.finish(rest.concat()))
}

#[test]
fn well_formed_request_decodes() {
    let r = decode(&["GET /a HTTP/1.1\r\n", "K: V\r\n", "\r\n"]).unwrap();
    assert_eq!(r.method(), "GET");
    assert_eq!(r.path(), "/a");
    assert_eq!(r.headers().len(), 1);
    assert_eq!(r.header("K").map(|v| v.as_str()), Some("V"));
}

#[test]
fn well_formed_request_other_method_and_path() {
    let r = decode(&["POST /items/7 HTTP/1.1\r\n", "Content-Type: text/plain\r\n", "\r\n"]).unwrap();
    assert_eq!(r.method(), "POST");
    assert_eq!(r.path(), "/items/7");
    assert_eq!(r.header("Content-Type").map(|v| v.as_str()), Some("text/plain"));
}

#[test]
fn empty_stream_is_missing_status_line() {
    assert!(matches!(decode(&[]), Err(HttpRequestParseError::MissingStatusLine)));
    assert!(matches!(decode(&[""]), Err(HttpRequestParseError::MissingStatusLine)));
    assert!(matches!(parse_status_line("\r\n"), Err(HttpRequestParseError::MissingStatusLine)));
}

#[test]
fn status_line_without_path_is_missing_path() {
    assert!(matches!(decode(&["GET\r\n", "\r\n"]), Err(HttpRequestParseError::MissingPath)));
    assert!(matches!(parse_status_line("GET  /a\r\n"), Err(HttpRequestParseError::MissingPath)));
}

#[test]
fn header_without_colon_is_an_error() {
    match decode(&["GET / HTTP/1.1\r\n", "X-Broken\r\n", "\r\n"]) {
        Err(HttpRequestParseError::MissingHeaderValue(line)) => assert_eq!(line, "X-Broken"),
        _ => panic!("expected a missing header value"),
    }
}

#[test]
fn header_without_name_is_accepted() {
    let h = parse_header_line(": v\r\n").unwrap().unwrap();
    assert_eq!(h, (String::new(), "v".to_string()));
    let r = decode(&["GET / HTTP/1.1\r\n", ": v\r\n", "\r\n"]).unwrap();
    assert_eq!(r.header("").map(|v| v.as_str()), Some("v"));
}

#[test]
fn unicode_whitespace_is_trimmed() {
    assert!(matches!(parse_status_line("\u{b}\r\n"), Err(HttpRequestParseError::MissingStatusLine)));
    assert!(matches!(parse_status_line("\u{3000}\u{a0}\n"), Err(HttpRequestParseError::MissingStatusLine)));
    let (m, p) = parse_status_line("\u{a0}GET /a\u{2003}\r\n").unwrap();
    assert_eq!(m, "GET");
    assert_eq!(p, "/a");
    let h = parse_header_line("K:\u{85}v\u{205f}\r\n").unwrap().unwrap();
    assert_eq!(h, ("K".to_string(), "v".to_string()));
}

#[test]
fn tab_inside_method_is_kept() {
    let (m, p) = parse_status_line("G\tET /a HTTP/1.1\r\n").unwrap();
    assert_eq!(m, "G\tET");
    assert_eq!(p, "/a");
}

#[test]
fn request_without_headers_decodes() {
    let r = decode(&["GET / HTTP/1.1\r\n", "\r\n"]).unwrap();
    assert_eq!(r.headers().len(), 0);
    assert_eq!(r.header("K"), None);
}

#[test]
fn body_is_left_for_the_handler() {
    let r = decode(&["POST /p HTTP/1.1\r\n", "\r\n", "body text"]).unwrap();
    assert_eq!(r.body_stream(), "body text");
    assert_eq!(r.unpack_stream(), "body text");
}

#[test]
fn stream_may_end_after_headers() {
    let r = decode(&["GET /x HTTP/1.1\r\n", "A: 1\r\n"]).unwrap();
    assert_eq!(r.header("A").map(|v| v.as_str()), Some("1"));
}

#[test]
fn header_value_keeps_later_colons() {
    let h = parse_header_line("Host: localhost:8080\r\n").unwrap().unwrap();
    assert_eq!(h, ("Host".to_string(), "localhost:8080".to_string()));
}

#[test]
fn header_value_may_be_empty() {
    let h = parse_header_line("X-Empty:\r\n").unwrap().unwrap();
    assert_eq!(h, ("X-Empty".to_string(), String::new()));
}

#[test]
fn lf_line_breaks_are_accepted() {
    let r = decode(&["GET /lf\n", "A: b\n", "\n"]).unwrap();
    assert_eq!(r.path(), "/lf");
    assert_eq!(r.header("A").map(|v| v.as_str()), Some("b"));
}

#[test]
fn third_token_is_ignored() {
    let (m, p) = parse_status_line("DELETE /z anything else\r\n").unwrap();
    assert_eq!(m, "DELETE");
    assert_eq!(p, "/z");
}

#[test]
fn duplicate_header_last_wins_and_names_are_case_sensitive() {
    let r = decode(&["GET / HTTP/1.1\r\n", "A: 1\r\n", "a: 2\r\n", "A: 3\r\n", "\r\n"]).unwrap();
    assert_eq!(r.headers().len(), 2);
    assert_eq!(r.header("A").map(|v| v.as_str()), Some("3"));
    assert_eq!(r.header("a").map(|v| v.as_str()), Some("2"));
}

#[test]
fn failed_line_leaves_decoder_as_it_was() {
    let mut d = RequestDecoder::new();
    assert_eq!(d.feed_line("GET /a HTTP/1.1\r\n").unwrap(), DecodeStage::Headers);
    assert!(d.feed_line("broken\r\n").is_err());
    assert_eq!(d.stage(), DecodeStage::Headers);
    assert_eq!(d.feed_line("\r\n").unwrap(), DecodeStage::Complete);
    let r = d.finish(());
    assert_eq!(r.method(), "GET");
}

#[test]
fn error_messages() {
    assert_eq!(
        HttpRequestParseError::MissingStatusLine.message(),
        "Error while parsing HttpRequest: Missing status line."
    );
    assert_eq!(
        HttpRequestParseError::MissingPath.message(),
        "Error while parsing HttpRequest: Missing path."
    );
    assert_eq!(
        HttpRequestParseError::MissingMethod.message(),
        "Error while parsing HttpRequest: Missing method."
    );
    assert_eq!(
        HttpRequestParseError::MissingHeaderName.message(),
        "Error while parsing HttpRequest: Missing header name. Maybe an empty header?"
    );
    assert_eq!(
        HttpRequestParseError::MissingHeaderValue("X".to_string()).message(),
        "Error while parsing HttpRequest: Missing header value for X"
    );
    let e = std::io::Error::new(std::io::ErrorKind::Other, "boom");
    assert_eq!(
        HttpRequestParseError::StreamError(e).message(),
        "Error while parsing HttpRequest: Stream error: boom."
    );
}

#[test]
fn request_from_parts() {
    let mut headers = async_http::HttpHeaders::new();
    headers.insert("Accept", "*/*");
    let r = HttpRequest::new("PUT".to_string(), "/doc".to_string(), headers, 5u8);
    assert_eq!(r.method(), "PUT");
    assert_eq!(r.path(), "/doc");
    assert_eq!(r.header("Accept").map(|v| v.as_str()), Some("*/*"));
    assert_eq!(r.header("accept"), None);
    assert_eq!(*r.body_stream(), 5u8);
    assert_eq!(r.unpack_stream(), 5u8);
}
