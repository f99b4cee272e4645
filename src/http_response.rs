use vstd::prelude::*;

use crate::assoc::pairs_map;
use crate::headers::HttpHeaders;
use crate::text::{decimal, decimal_spec};

verus! {

/// The status of a response: the common ones by name, any other by its code.
#[derive(Clone, Copy, Debug, PartialEq, Eq, Structural)]
pub enum HttpStatus {
    OK,
    BadRequest,
    NotFound,
    InternalServerError,
    Other(u32),
}

impl HttpStatus {
    /// The numeric status code.
    pub open spec fn code_spec(self) -> u32 {
        match self {
            HttpStatus::OK => 200,
            HttpStatus::BadRequest => 400,
            HttpStatus::NotFound => 404,
            HttpStatus::InternalServerError => 500,
            HttpStatus::Other(code) => code,
        }
    }

    /// The numeric status code.
    pub fn code(&self) -> (r: u32)
        ensures
            r == self.code_spec(),
    {
        match self {
            HttpStatus::OK => 200,
            HttpStatus::BadRequest => 400,
            HttpStatus::NotFound => 404,
            HttpStatus::InternalServerError => 500,
            HttpStatus::Other(code) => *code,
        }
    }

    /// The reason phrase that goes with the code.
    pub fn reason(&self) -> (r: &'static str)
        ensures
            r@ == reason_spec(self.code_spec()),
            r == reason_str(self.code_spec()),
    {
        reason_phrase(self.code())
    }
}

/// The reason phrase of a status code: "Unknown" for a code without one.
pub open spec fn reason_spec(code: u32) -> Seq<char> {
    if code == 200 {
        "OK"@
    } else if code == 400 {
        "Bad request"@
    } else if code == 404 {
        "Not found"@
    } else if code == 500 {
        "Internal server error"@
    } else {
        "Unknown"@
    }
}

/// The reason phrase of a status code, as a string.
pub open spec fn reason_str(code: u32) -> &'static str {
    if code == 200 {
        "OK"
    } else if code == 400 {
        "Bad request"
    } else if code == 404 {
        "Not found"
    } else if code == 500 {
        "Internal server error"
    } else {
        "Unknown"
    }
}

/// The reason phrase of a status code.
pub fn reason_phrase(code: u32) -> (r: &'static str)
    ensures
        r@ == reason_spec(code),
        r == reason_str(code),
{
    if code == 200 {
        "OK"
    } else if code == 400 {
        "Bad request"
    } else if code == 404 {
        "Not found"
    } else if code == 500 {
        "Internal server error"
    } else {
        "Unknown"
    }
}

impl From<&HttpStatus> for u32 {
    fn from(value: &HttpStatus) -> (r: u32) {
        value.code()
    }
}

impl vstd::std_specs::convert::FromSpecImpl<&HttpStatus> for u32 {
    open spec fn obeys_from_spec() -> bool {
        true
    }

    open spec fn from_spec(v: &HttpStatus) -> u32 {
        v.code_spec()
    }
}

impl<'a, 'b> From<&'a HttpStatus> for &'b str {
    fn from(value: &'a HttpStatus) -> (r: &'b str) {
        value.reason()
    }
}

impl<'a, 'b> vstd::std_specs::convert::FromSpecImpl<&'a HttpStatus> for &'b str {
    open spec fn obeys_from_spec() -> bool {
        true
    }

    open spec fn from_spec(v: &'a HttpStatus) -> &'b str {
        reason_str(v.code_spec())
    }
}

/// A line break on the wire.
pub open spec fn crlf() -> Seq<char> {
    seq!['\r', '\n']
}

/// The first line of an encoded response: `HTTP/1.1 <code> <reason>` and a line break.
pub open spec fn status_line(status: HttpStatus) -> Seq<char> {
    seq!['H', 'T', 'T', 'P', '/', '1', '.', '1', ' '] + decimal_spec(status.code_spec() as nat)
        + seq![' '] + reason_spec(status.code_spec()) + crlf()
}

/// One encoded header: `<name>: <value>` and a line break.
pub open spec fn header_line(header: (Seq<char>, Seq<char>)) -> Seq<char> {
    header.0 + seq![':', ' '] + header.1 + crlf()
}

/// The encoded headers, one line each, in the order given.
pub open spec fn header_block(s: Seq<(Seq<char>, Seq<char>)>) -> Seq<char>
    decreases s.len(),
{
    if s.len() == 0 {
        Seq::empty()
    } else {
        header_block(s.drop_last()) + header_line(s.last())
    }
}

/// A response: a status, a header mapping and, possibly, a body.
pub struct HttpResponse {
    status: HttpStatus,
    headers: HttpHeaders,
    body: Option<String>,
}

impl HttpResponse {
    pub closed spec fn status_spec(&self) -> HttpStatus {
        self.status
    }

    pub closed spec fn headers_spec(&self) -> HttpHeaders {
        self.headers
    }

    pub closed spec fn body_spec(&self) -> Option<Seq<char>> {
        match self.body {
            Some(b) => Some(b@),
            None => None,
        }
    }

    /// The response as it goes on the wire: the status line, each header on a
    /// line of its own, an empty line, then the body if there is one.
    pub open spec fn wire(&self) -> Seq<char> {
        status_line(self.status_spec()) + header_block(self.headers_spec().pairs()) + crlf()
            + match self.body_spec() {
            Some(b) => b,
            None => Seq::empty(),
        }
    }

    /// A response with the given status, no headers and no body.
    pub fn new(status: HttpStatus) -> (r: HttpResponse)
        ensures
            r.status_spec() == status,
            r.headers_spec().pairs() == Seq::<(Seq<char>, Seq<char>)>::empty(),
            r.headers_spec()@ == Map::<Seq<char>, Seq<char>>::empty(),
            r.body_spec() == None::<Seq<char>>,
    {
        HttpResponse { status, headers: HttpHeaders::new(), body: None }
    }

    /// The "not found" response: status 404, no headers, no body.
    pub fn http_404() -> (r: HttpResponse)
        ensures
            r.status_spec() == HttpStatus::NotFound,
            r.headers_spec().pairs() == Seq::<(Seq<char>, Seq<char>)>::empty(),
            r.headers_spec()@ == Map::<Seq<char>, Seq<char>>::empty(),
            r.body_spec() == None::<Seq<char>>,
    {
        HttpResponse::new(HttpStatus::NotFound)
    }

    /// Replaces the status.
    pub fn set_status(&mut self, status: HttpStatus)
        ensures
            final(self).status_spec() == status,
            final(self).headers_spec() == old(self).headers_spec(),
            final(self).body_spec() == old(self).body_spec(),
    {
        self.status = status;
    }

    /// Gives the header `name` the value `value`, replacing any earlier value.
    pub fn set_header(&mut self, name: &str, value: &str)
        ensures
            final(self).status_spec() == old(self).status_spec(),
            final(self).headers_spec()@ == old(self).headers_spec()@.insert(name@, value@),
            final(self).body_spec() == old(self).body_spec(),
    {
        self.headers.insert(name, value);
    }

    /// Sets the body to `content`, with a "Content-Type" header of `content_type`
    /// and a "Content-Length" header of the body's length in bytes (UTF-8).
    /// Content-Length is the length of the body, not of the content type: this
    /// departs, on purpose, from earlier releases of this server, which sent
    /// the content type's length there.
    pub fn set_body(&mut self, content_type: &str, content: &str)
        ensures
            final(self).status_spec() == old(self).status_spec(),
            final(self).headers_spec()@ == old(self).headers_spec()@.insert(
                "Content-Type"@,
                content_type@,
            ).insert("Content-Length"@, decimal_spec(content.len() as nat)),
            final(self).body_spec() == Some(content@),
    {
        self.set_header("Content-Type", content_type);
        let length = decimal(content.len() as u64);
        self.set_header("Content-Length", length.as_str());
        self.body = Some(content.to_owned());
    }

    /// The status.
    pub fn status(&self) -> (r: HttpStatus)
        ensures
            r == self.status_spec(),
    {
        self.status
    }

    /// The header mapping.
    pub fn headers(&self) -> (r: &HttpHeaders)
        ensures
            *r == self.headers_spec(),
    {
        &self.headers
    }

    /// The body, if there is one.
    pub fn body(&self) -> (r: Option<&String>)
        ensures
            match r {
                Some(b) => self.body_spec() == Some(b@),
                None => self.body_spec() == None::<Seq<char>>,
            },
    {
        match &self.body {
            Some(b) => Some(b),
            None => None,
        }
    }

    /// The response as it goes on the wire (see `wire`).
    pub fn encode(&self) -> (r: String)
        ensures
            r@ == self.wire(),
    {
        proof {
            reveal_strlit("HTTP/1.1 ");
            reveal_strlit(" ");
            reveal_strlit(": ");
            reveal_strlit("\r\n");
        }
        let mut r = String::from_str("HTTP/1.1 ");
        let code = self.status.code();
        let digits = decimal(code as u64);
        r.append(digits.as_str());
        r.append(" ");
        r.append(self.status.reason());
        r.append("\r\n");
        assert(r@ =~= status_line(self.status));
        let ghost pairs = self.headers.pairs();
        let n = self.headers.len();
        let mut i: usize = 0;
        while i < n
            invariant
                n == pairs.len(),
                pairs == self.headers.pairs(),
                i <= n,
                r@ == status_line(self.status) + header_block(pairs.take(i as int)),
            decreases n - i,
        {
            proof {
                reveal_strlit(": ");
                reveal_strlit("\r\n");
            }
            let (name, value) = self.headers.entry(i);
            r.append(name.as_str());
            r.append(": ");
            r.append(value.as_str());
            r.append("\r\n");
            assert(pairs.take(i + 1).drop_last() =~= pairs.take(i as int));
            assert(pairs.take(i + 1).last() == pairs[i as int]);
            assert(header_block(pairs.take(i + 1)) == header_block(pairs.take(i as int))
                + header_line(pairs[i as int]));
            assert(r@ =~= status_line(self.status) + header_block(pairs.take(i + 1)));
            i += 1;
        }
        assert(pairs.take(n as int) =~= pairs);
        r.append("\r\n");
        match &self.body {
            Some(b) => {
                r.append(b.as_str());
            },
            None => {},
        }
        assert(r@ =~= self.wire());
        r
    }
}

/// Whether `part` occurs in `s` at some position.
pub open spec fn occurs_in(part: Seq<char>, s: Seq<char>) -> bool {
    exists|i: int| 0 <= i <= s.len() - part.len() && #[trigger] s.subrange(i, i + part.len()) == part
}

proof fn lemma_occurs_extend(part: Seq<char>, s: Seq<char>, before: Seq<char>, after: Seq<char>)
    requires
        occurs_in(part, s),
    ensures
        occurs_in(part, before + s + after),
{
    let i = choose|i: int| 0 <= i <= s.len() - part.len() && #[trigger] s.subrange(i, i + part.len()) == part;
    let t = before + s + after;
    assert(t.subrange(before.len() + i, before.len() + i + part.len()) =~= part);
}

/// Every header of the sequence has its line in the encoded block.
proof fn lemma_header_block_has(s: Seq<(Seq<char>, Seq<char>)>, j: int)
    requires
        0 <= j < s.len(),
    ensures
        occurs_in(header_line(s[j]), header_block(s)),
    decreases s.len(),
{
    let last = header_line(s.last());
    let prefix = header_block(s.drop_last());
    if j == s.len() - 1 {
        assert((prefix + last).subrange(prefix.len() as int, prefix.len() + last.len() as int) =~= last);
    } else {
        lemma_header_block_has(s.drop_last(), j);
        lemma_occurs_extend(header_line(s[j]), prefix, Seq::empty(), last);
        assert(Seq::<char>::empty() + prefix + last =~= prefix + last);
    }
}

/// An encoded response starts with its status line, holds the line
/// `<name>: <value>` of each of its headers, and ends with its body.
pub proof fn lemma_wire_layout(r: HttpResponse)
    ensures
        r.wire().subrange(0, status_line(r.status_spec()).len() as int) == status_line(r.status_spec()),
        forall|k: Seq<char>| #[trigger] r.headers_spec()@.contains_key(k) ==> occurs_in(
            header_line((k, r.headers_spec()@[k])),
            r.wire(),
        ),
        forall|b: Seq<char>| r.body_spec() == Some(b) ==> r.wire().subrange(
            r.wire().len() - b.len(),
            r.wire().len() as int,
        ) == b,
{
    let sl = status_line(r.status_spec());
    let pairs = r.headers_spec().pairs();
    let block = header_block(pairs);
    let body = match r.body_spec() {
        Some(b) => b,
        None => Seq::empty(),
    };
    let w = r.wire();
    assert(w == sl + block + crlf() + body);
    assert(w.subrange(0, sl.len() as int) =~= sl);
    assert forall|k: Seq<char>| #[trigger] r.headers_spec()@.contains_key(k) implies occurs_in(
        header_line((k, r.headers_spec()@[k])),
        w,
    ) by {
        let j = choose|j: int| 0 <= j < pairs.len() && pairs[j].0 == k;
        assert(r.headers_spec()@ == pairs_map(pairs));
        assert(pairs[j] == (k, r.headers_spec()@[k]));
        lemma_header_block_has(pairs, j);
        lemma_occurs_extend(header_line(pairs[j]), block, sl, crlf() + body);
        assert(sl + block + (crlf() + body) =~= w);
    }
    assert forall|b: Seq<char>| r.body_spec() == Some(b) implies w.subrange(
        w.len() - b.len(),
        w.len() as int,
    ) == b by {
        assert(w.subrange(w.len() - b.len(), w.len() as int) =~= b);
    }
}

/// The status line of 200 is `HTTP/1.1 200 OK` and a line break.
pub proof fn lemma_status_line_ok()
    ensures
        status_line(HttpStatus::OK) == seq![
            'H', 'T', 'T', 'P', '/', '1', '.', '1', ' ', '2', '0', '0', ' ', 'O', 'K', '\r', '\n'
        ],
{
    reveal_strlit("OK");
    reveal_with_fuel(decimal_spec, 3);
    assert(decimal_spec(200) =~= seq!['2', '0', '0']);
    assert(status_line(HttpStatus::OK) =~= seq![
        'H', 'T', 'T', 'P', '/', '1', '.', '1', ' ', '2', '0', '0', ' ', 'O', 'K', '\r', '\n'
    ]);
}

} // verus!
