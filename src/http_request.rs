use vstd::prelude::*;

use crate::headers::HttpHeaders;
use crate::text::{
    chars_of, find_char, is_space, lemma_split_first, lemma_trim_end, lemma_trim_start, split_first,
    trim, trim_bounds,
};

verus! {

/// std's I/O error, carried as it is when reading a request fails.
#[verifier::external_type_specification]
#[verifier::external_body]
pub struct ExIoError(std::io::Error);

/// Why a request could not be decoded.
#[derive(Debug)]
pub enum HttpRequestParseError {
    /// Reading from the connection failed.
    StreamError(std::io::Error),
    /// The first line is empty, or the stream ended before it.
    MissingStatusLine,
    /// The first line holds no method.
    MissingMethod,
    /// The first line holds no path after the method.
    MissingPath,
    /// A header without a name. Decoding accepts a line that starts with its
    /// colon, as a header with an empty name, so it never gives this error.
    MissingHeaderName,
    /// A header line, given here, holds no colon.
    MissingHeaderValue(String),
}

/// The words that open every message of a decoding error.
pub open spec fn message_prefix() -> Seq<char> {
    "Error while parsing HttpRequest: "@
}

impl HttpRequestParseError {
    /// A message that says what went wrong, for a log.
    pub fn message(&self) -> (r: String)
        ensures
            match self {
                HttpRequestParseError::StreamError(_) => r@.len() >= message_prefix().len()
                    + "Stream error: "@.len() && r@.subrange(0, message_prefix().len() as int)
                    == message_prefix() && r@.subrange(
                    message_prefix().len() as int,
                    message_prefix().len() + "Stream error: "@.len() as int,
                ) == "Stream error: "@,
                HttpRequestParseError::MissingStatusLine => r@ == message_prefix()
                    + "Missing status line."@,
                HttpRequestParseError::MissingMethod => r@ == message_prefix() + "Missing method."@,
                HttpRequestParseError::MissingPath => r@ == message_prefix() + "Missing path."@,
                HttpRequestParseError::MissingHeaderName => r@ == message_prefix()
                    + "Missing header name. Maybe an empty header?"@,
                HttpRequestParseError::MissingHeaderValue(h) => r@ == message_prefix()
                    + "Missing header value for "@ + h@,
            },
    {
        let mut r = String::from_str("Error while parsing HttpRequest: ");
        match self {
            HttpRequestParseError::StreamError(e) => {
                r.append("Stream error: ");
                let detail = e.to_string();
                r.append(detail.as_str());
                r.append(".");
                proof {
                    let p = message_prefix();
                    let q = "Stream error: "@;
                    assert(r@.subrange(0, p.len() as int) =~= p);
                    assert(r@.subrange(p.len() as int, p.len() + q.len() as int) =~= q);
                }
            },
            HttpRequestParseError::MissingStatusLine => {
                r.append("Missing status line.");
            },
            HttpRequestParseError::MissingMethod => {
                r.append("Missing method.");
            },
            HttpRequestParseError::MissingPath => {
                r.append("Missing path.");
            },
            HttpRequestParseError::MissingHeaderName => {
                r.append("Missing header name. Maybe an empty header?");
            },
            HttpRequestParseError::MissingHeaderValue(h) => {
                r.append("Missing header value for ");
                r.append(h.as_str());
            },
        }
        r
    }
}

/// What the first line of a request gives: its method and its path, or why it
/// gives none. The line is taken without its surrounding spaces and cut at
/// single spaces; a third token, if any, is ignored.
pub open spec fn status_line_spec(line: Seq<char>) -> Result<
    (Seq<char>, Seq<char>),
    HttpRequestParseError,
> {
    let t = trim(line);
    if t.len() == 0 {
        Err(HttpRequestParseError::MissingStatusLine)
    } else {
        let (method, rest) = split_first(t, ' ');
        if method.len() == 0 {
            Err(HttpRequestParseError::MissingMethod)
        } else {
            match rest {
                None => Err(HttpRequestParseError::MissingPath),
                Some(r) => {
                    let path = split_first(r, ' ').0;
                    if path.len() == 0 {
                        Err(HttpRequestParseError::MissingPath)
                    } else {
                        Ok((method, path))
                    }
                },
            }
        }
    }
}

/// What a line after the first one is.
pub enum HeaderLine {
    /// An empty line (or the end of the stream): the headers are over.
    End,
    /// A header with its name and value.
    Field(Seq<char>, Seq<char>),
    /// A line, given here, without a colon.
    MissingValue(Seq<char>),
}

/// Reads a header line: without its surrounding spaces, it is cut at its first
/// colon; the name is what comes before (possibly nothing), the value what
/// comes after, without its surrounding spaces. Only a line without a colon is
/// an error.
pub open spec fn header_line_spec(line: Seq<char>) -> HeaderLine {
    let t = trim(line);
    if t.len() == 0 {
        HeaderLine::End
    } else {
        let (name, rest) = split_first(t, ':');
        match rest {
            None => HeaderLine::MissingValue(name),
            Some(r) => HeaderLine::Field(name, trim(r)),
        }
    }
}

/// Reads the first line of a request (see `status_line_spec`).
pub fn parse_status_line(line: &str) -> (r: Result<(String, String), HttpRequestParseError>)
    ensures
        match r {
            Ok((m, p)) => status_line_spec(line@) == Ok::<(Seq<char>, Seq<char>), HttpRequestParseError>((m@, p@)),
            Err(e) => status_line_spec(line@) == Err::<(Seq<char>, Seq<char>), HttpRequestParseError>(e),
        },
{
    let cs = chars_of(line);
    let (a, b) = trim_bounds(&cs);
    let ghost t = cs@.subrange(a as int, b as int);
    if a == b {
        return Err(HttpRequestParseError::MissingStatusLine);
    }
    match find_char(&cs, a, b, ' ') {
        None => {
            proof {
                lemma_split_first(t, ' ', t.len() as int);
            }
            Err(HttpRequestParseError::MissingPath)
        },
        Some(i) => {
            proof {
                lemma_split_first(t, ' ', i - a);
                assert(t.subrange(0, i - a) =~= cs@.subrange(a as int, i as int));
            }
            if i == a {
                return Err(HttpRequestParseError::MissingMethod);
            }
            let end = match find_char(&cs, i + 1, b, ' ') {
                Some(j) => j,
                None => b,
            };
            proof {
                let rest = t.subrange(i - a + 1, t.len() as int);
                assert(rest =~= cs@.subrange(i + 1, b as int));
                lemma_split_first(rest, ' ', end - (i + 1));
                assert(rest.subrange(0, end - (i + 1)) =~= cs@.subrange(i + 1, end as int));
            }
            if end == i + 1 {
                return Err(HttpRequestParseError::MissingPath);
            }
            let method = line.substring_char(a, i).to_owned();
            let path = line.substring_char(i + 1, end).to_owned();
            Ok((method, path))
        },
    }
}

/// Whether `r`, the result of reading a header line, is what `h` says.
pub open spec fn header_result_is(
    r: Result<Option<(String, String)>, HttpRequestParseError>,
    h: HeaderLine,
) -> bool {
    match h {
        HeaderLine::End => r matches Ok(None),
        HeaderLine::Field(n, v) => r matches Ok(Some((rn, rv))) && rn@ == n && rv@ == v,
        HeaderLine::MissingValue(n) => r matches Err(HttpRequestParseError::MissingHeaderValue(rn))
            && rn@ == n,
    }
}

/// Reads a line after the first one (see `header_line_spec`): `None` for the
/// empty line that ends the headers.
pub fn parse_header_line(line: &str) -> (r: Result<Option<(String, String)>, HttpRequestParseError>)
    ensures
        header_result_is(r, header_line_spec(line@)),
{
    let cs = chars_of(line);
    let (a, b) = trim_bounds(&cs);
    let ghost t = cs@.subrange(a as int, b as int);
    if a == b {
        return Ok(None);
    }
    match find_char(&cs, a, b, ':') {
        None => {
            proof {
                lemma_split_first(t, ':', t.len() as int);
            }
            Err(HttpRequestParseError::MissingHeaderValue(line.substring_char(a, b).to_owned()))
        },
        Some(i) => {
            proof {
                lemma_split_first(t, ':', i - a);
                assert(t.subrange(0, i - a) =~= cs@.subrange(a as int, i as int));
            }
            let rest = line.substring_char(i + 1, b);
            let rest_chars = chars_of(rest);
            let (c, d) = trim_bounds(&rest_chars);
            proof {
                assert(t.subrange(i - a + 1, t.len() as int) =~= cs@.subrange(i + 1, b as int));
            }
            let name = line.substring_char(a, i).to_owned();
            let value = rest.substring_char(c, d).to_owned();
            Ok(Some((name, value)))
        },
    }
}

/// A decoded request: its method, its path, its headers, and the stream that
/// holds what follows the headers (the body, which is never read here).
pub struct HttpRequest<B> {
    method: String,
    path: String,
    headers: HttpHeaders,
    body_stream: B,
}

impl<B> HttpRequest<B> {
    pub closed spec fn method_spec(&self) -> Seq<char> {
        self.method@
    }

    pub closed spec fn path_spec(&self) -> Seq<char> {
        self.path@
    }

    pub closed spec fn headers_spec(&self) -> HttpHeaders {
        self.headers
    }

    pub closed spec fn body_spec(&self) -> B {
        self.body_stream
    }

    /// A request made of its parts.
    pub fn new(method: String, path: String, headers: HttpHeaders, body_stream: B) -> (r: HttpRequest<B>)
        ensures
            r.method_spec() == method@,
            r.path_spec() == path@,
            r.headers_spec() == headers,
            r.body_spec() == body_stream,
    {
        HttpRequest { method, path, headers, body_stream }
    }

    /// The method, such as "GET".
    pub fn method(&self) -> (r: &str)
        ensures
            r@ == self.method_spec(),
    {
        self.method.as_str()
    }

    /// The path, as it came.
    pub fn path(&self) -> (r: &str)
        ensures
            r@ == self.path_spec(),
    {
        self.path.as_str()
    }

    /// The header mapping.
    pub fn headers(&self) -> (r: &HttpHeaders)
        ensures
            *r == self.headers_spec(),
    {
        &self.headers
    }

    /// The value of the header `key`, if the request has it.
    pub fn header(&self, key: &str) -> (r: Option<&String>)
        ensures
            match r {
                Some(v) => self.headers_spec()@.contains_key(key@) && v@ == self.headers_spec()@[key@],
                None => !self.headers_spec()@.contains_key(key@),
            },
    {
        self.headers.get(key)
    }

    /// The stream that holds the body.
    pub fn body_stream(&self) -> (r: &B)
        ensures
            *r == self.body_spec(),
    {
        &self.body_stream
    }
}

/// Gives back the stream that a request was read from.
pub trait HttpInnerStream: Sized {
    type Stream;

    spec fn inner_stream(&self) -> Self::Stream;

    fn unpack_stream(self) -> (r: Self::Stream)
        ensures
            r == self.inner_stream(),
    ;
}

impl<B> HttpInnerStream for HttpRequest<B> {
    type Stream = B;

    open spec fn inner_stream(&self) -> B {
        self.body_spec()
    }

    fn unpack_stream(self) -> (r: B) {
        self.body_stream
    }
}

/// How far the decoding of a request has come.
#[derive(Clone, Copy, Debug, PartialEq, Eq, Structural)]
pub enum DecodeStage {
    /// The first line is awaited.
    StatusLine,
    /// Header lines are awaited.
    Headers,
    /// The empty line after the headers has come: the request is complete.
    Complete,
}

/// Decodes a request one line at a time, as the lines are read from the
/// connection; what follows the empty line after the headers is left unread.
pub struct RequestDecoder {
    stage: DecodeStage,
    method: String,
    path: String,
    headers: HttpHeaders,
}

impl RequestDecoder {
    pub closed spec fn stage_spec(&self) -> DecodeStage {
        self.stage
    }

    pub closed spec fn method_spec(&self) -> Seq<char> {
        self.method@
    }

    pub closed spec fn path_spec(&self) -> Seq<char> {
        self.path@
    }

    pub closed spec fn headers_spec(&self) -> HttpHeaders {
        self.headers
    }

    /// A decoder that awaits the first line.
    pub fn new() -> (r: RequestDecoder)
        ensures
            r.stage_spec() == DecodeStage::StatusLine,
            r.headers_spec()@ == Map::<Seq<char>, Seq<char>>::empty(),
    {
        RequestDecoder {
            stage: DecodeStage::StatusLine,
            method: String::new(),
            path: String::new(),
            headers: HttpHeaders::new(),
        }
    }

    /// How far decoding has come.
    pub fn stage(&self) -> (r: DecodeStage)
        ensures
            r == self.stage_spec(),
    {
        self.stage
    }

    /// Takes the next line read from the connection, with its line break; at
    /// the end of the stream, the empty string. Returns the new stage, or the
    /// error that ends decoding, in which case the decoder is left as it was.
    pub fn feed_line(&mut self, line: &str) -> (r: Result<DecodeStage, HttpRequestParseError>)
        requires
            old(self).stage_spec() != DecodeStage::Complete,
        ensures
            old(self).stage_spec() == DecodeStage::StatusLine ==> match status_line_spec(line@) {
                Ok((m, p)) => {
                    &&& r matches Ok(DecodeStage::Headers)
                    &&& final(self).stage_spec() == DecodeStage::Headers
                    &&& final(self).method_spec() == m
                    &&& final(self).path_spec() == p
                    &&& final(self).headers_spec() == old(self).headers_spec()
                },
                Err(e) => r == Err::<DecodeStage, HttpRequestParseError>(e) && *final(self) == *old(self),
            },
            old(self).stage_spec() == DecodeStage::Headers ==> match header_line_spec(line@) {
                HeaderLine::End => {
                    &&& r matches Ok(DecodeStage::Complete)
                    &&& final(self).stage_spec() == DecodeStage::Complete
                    &&& final(self).method_spec() == old(self).method_spec()
                    &&& final(self).path_spec() == old(self).path_spec()
                    &&& final(self).headers_spec() == old(self).headers_spec()
                },
                HeaderLine::Field(n, v) => {
                    &&& r matches Ok(DecodeStage::Headers)
                    &&& final(self).stage_spec() == DecodeStage::Headers
                    &&& final(self).method_spec() == old(self).method_spec()
                    &&& final(self).path_spec() == old(self).path_spec()
                    &&& final(self).headers_spec()@ == old(self).headers_spec()@.insert(n, v)
                },
                HeaderLine::MissingValue(n) => {
                    &&& r matches Err(HttpRequestParseError::MissingHeaderValue(rn))
                    &&& rn@ == n
                    &&& *final(self) == *old(self)
                },
            },
    {
        if self.stage == DecodeStage::StatusLine {
            match parse_status_line(line) {
                Ok((method, path)) => {
                    self.method = method;
                    self.path = path;
                    self.stage = DecodeStage::Headers;
                    Ok(DecodeStage::Headers)
                },
                Err(e) => Err(e),
            }
        } else {
            match parse_header_line(line) {
                Ok(None) => {
                    self.stage = DecodeStage::Complete;
                    Ok(DecodeStage::Complete)
                },
                Ok(Some((name, value))) => {
                    self.headers.insert(name.as_str(), value.as_str());
                    Ok(DecodeStage::Headers)
                },
                Err(e) => Err(e),
            }
        }
    }

    /// The decoded request, with `body_stream` for what follows the headers.
    pub fn finish<B>(self, body_stream: B) -> (r: HttpRequest<B>)
        requires
            self.stage_spec() == DecodeStage::Complete,
        ensures
            r.method_spec() == self.method_spec(),
            r.path_spec() == self.path_spec(),
            r.headers_spec() == self.headers_spec(),
            r.body_spec() == body_stream,
    {
        HttpRequest::new(self.method, self.path, self.headers, body_stream)
    }
}

/// A first line that decodes gives a method and a path that are not empty.
pub proof fn lemma_status_tokens_not_empty(line: Seq<char>)
    requires
        status_line_spec(line) is Ok,
    ensures
        status_line_spec(line)->Ok_0.0.len() > 0,
        status_line_spec(line)->Ok_0.1.len() > 0,
{
}

/// A token of the first line: not empty, without a space (' '), and not
/// starting with a character that trimming drops.
pub open spec fn is_token(s: Seq<char>) -> bool {
    &&& s.len() > 0
    &&& !is_space(s[0])
    &&& forall|i: int| 0 <= i < s.len() ==> #[trigger] s[i] != ' '
}

/// A header name: not empty, without a colon, and not starting with a
/// character that trimming drops.
pub open spec fn is_header_name(s: Seq<char>) -> bool {
    &&& s.len() > 0
    &&& !is_space(s[0])
    &&& forall|i: int| 0 <= i < s.len() ==> #[trigger] s[i] != ':'
}

/// A header value: no spaces at either end.
pub open spec fn is_header_value(s: Seq<char>) -> bool {
    s.len() > 0 ==> !is_space(s[0]) && !is_space(s.last())
}

/// A line made only of spaces and line breaks (the empty line among them).
pub open spec fn is_blank(s: Seq<char>) -> bool {
    forall|i: int| 0 <= i < s.len() ==> is_space(#[trigger] s[i])
}

/// " HTTP/1.1" and a line break: the end of a well-formed first line.
pub open spec fn version_suffix() -> Seq<char> {
    seq![' ', 'H', 'T', 'T', 'P', '/', '1', '.', '1', '\r', '\n']
}

proof fn lemma_trim_blank(s: Seq<char>)
    requires
        is_blank(s),
    ensures
        trim(s).len() == 0,
{
    lemma_trim_start(s, s.len() as int);
    lemma_trim_end(s.subrange(s.len() as int, s.len() as int), 0);
}

/// Trims a line that starts with a non-space and ends with `k` spaces.
proof fn lemma_trim_line(s: Seq<char>, k: int)
    requires
        0 <= k < s.len(),
        !is_space(s[0]),
        !is_space(s[s.len() - k - 1]),
        forall|j: int| s.len() - k <= j < s.len() ==> is_space(s[j]),
    ensures
        trim(s) == s.subrange(0, s.len() - k),
{
    lemma_trim_start(s, 0);
    assert(s.subrange(0, s.len() as int) =~= s);
    lemma_trim_end(s, s.len() - k);
}

/// A blank line read as the first line is a missing status line; read after
/// it, it ends the headers (so a request may have no headers at all).
pub proof fn lemma_blank_line(line: Seq<char>)
    requires
        is_blank(line),
    ensures
        status_line_spec(line) == Err::<(Seq<char>, Seq<char>), HttpRequestParseError>(
            HttpRequestParseError::MissingStatusLine,
        ),
        header_line_spec(line) == HeaderLine::End,
{
    lemma_trim_blank(line);
}

/// A well-formed first line `<M> <P> HTTP/1.1` gives method M and path P;
/// a header line `<K>: <V>` gives the header K with value V.
pub proof fn lemma_well_formed_lines(m: Seq<char>, p: Seq<char>, k: Seq<char>, v: Seq<char>)
    requires
        is_token(m),
        is_token(p),
        is_header_name(k),
        is_header_value(v),
    ensures
        status_line_spec(m + seq![' '] + p + version_suffix()) == Ok::<
            (Seq<char>, Seq<char>),
            HttpRequestParseError,
        >((m, p)),
        header_line_spec(k + seq![':', ' '] + v + seq!['\r', '\n']) == HeaderLine::Field(k, v),
{
    let s = m + seq![' '] + p + version_suffix();
    assert(s[0] == m[0]);
    assert(s[s.len() - 3] == '1');
    lemma_trim_line(s, 2);
    let t = s.subrange(0, s.len() - 2);
    assert forall|j: int| 0 <= j < m.len() implies t[j] != ' ' by {
        assert(t[j] == m[j]);
    }
    lemma_split_first(t, ' ', m.len() as int);
    assert(t.subrange(0, m.len() as int) =~= m);
    let rest = t.subrange(m.len() as int + 1, t.len() as int);
    assert forall|j: int| 0 <= j < p.len() implies rest[j] != ' ' by {
        assert(rest[j] == p[j]);
    }
    assert(rest[p.len() as int] == ' ');
    lemma_split_first(rest, ' ', p.len() as int);
    assert(rest.subrange(0, p.len() as int) =~= p);

    let h = k + seq![':', ' '] + v + seq!['\r', '\n'];
    assert(h[0] == k[0]);
    let cut = if v.len() == 0 { 3 } else { 2 };
    assert forall|j: int| h.len() - cut <= j < h.len() implies is_space(h[j]) by {}
    if v.len() > 0 {
        assert(h[h.len() - 3] == v.last());
    } else {
        assert(h[h.len() - 4] == ':');
    }
    lemma_trim_line(h, cut);
    let ht = h.subrange(0, h.len() - cut);
    assert forall|j: int| 0 <= j < k.len() implies ht[j] != ':' by {
        assert(ht[j] == k[j]);
    }
    assert(ht[k.len() as int] == ':');
    lemma_split_first(ht, ':', k.len() as int);
    assert(ht.subrange(0, k.len() as int) =~= k);
    let hr = ht.subrange(k.len() as int + 1, ht.len() as int);
    if v.len() > 0 {
        assert(hr =~= seq![' '] + v);
        lemma_trim_start(hr, 1);
        assert(hr.subrange(1, hr.len() as int) =~= v);
        lemma_trim_end(v, v.len() as int);
        assert(v.subrange(0, v.len() as int) =~= v);
    } else {
        assert(hr.len() == 0);
        assert(hr =~= v);
    }
}

/// A first line with a method and nothing after it is a missing path.
pub proof fn lemma_missing_path(m: Seq<char>)
    requires
        is_token(m),
        !is_space(m.last()),
    ensures
        status_line_spec(m + seq!['\r', '\n']) == Err::<(Seq<char>, Seq<char>), HttpRequestParseError>(
            HttpRequestParseError::MissingPath,
        ),
{
    let s = m + seq!['\r', '\n'];
    assert(s[0] == m[0]);
    assert(s[s.len() - 3] == m.last());
    lemma_trim_line(s, 2);
    let t = s.subrange(0, s.len() - 2);
    assert(t =~= m);
    lemma_split_first(t, ' ', t.len() as int);
}

/// A header line that starts with its colon is a header with an empty name.
pub proof fn lemma_header_without_name(v: Seq<char>)
    requires
        v.len() > 0,
        is_header_value(v),
    ensures
        header_line_spec(seq![':', ' '] + v + seq!['\r', '\n']) == HeaderLine::Field(
            Seq::<char>::empty(),
            v,
        ),
{
    let h = seq![':', ' '] + v + seq!['\r', '\n'];
    assert(h[0] == ':');
    assert(h[h.len() - 3] == v.last());
    lemma_trim_line(h, 2);
    let ht = h.subrange(0, h.len() - 2);
    lemma_split_first(ht, ':', 0);
    assert(ht.subrange(0, 0) =~= Seq::<char>::empty());
    let hr = ht.subrange(1, ht.len() as int);
    assert(hr =~= seq![' '] + v);
    lemma_trim_start(hr, 1);
    assert(hr.subrange(1, hr.len() as int) =~= v);
    lemma_trim_end(v, v.len() as int);
    assert(v.subrange(0, v.len() as int) =~= v);
}

/// A header line without a colon is an error that names the line.
pub proof fn lemma_header_without_colon(k: Seq<char>)
    requires
        is_header_name(k),
        !is_space(k.last()),
    ensures
        header_line_spec(k + seq!['\r', '\n']) == HeaderLine::MissingValue(k),
{
    let s = k + seq!['\r', '\n'];
    assert(s[0] == k[0]);
    assert(s[s.len() - 3] == k.last());
    lemma_trim_line(s, 2);
    let t = s.subrange(0, s.len() - 2);
    assert(t =~= k);
    lemma_split_first(t, ':', t.len() as int);
}

} // verus!
