use vstd::prelude::*;

use crate::bytes::{
    copy_range, find, find_from, is_space, occurs_at, parse_decimal, parse_usize, space_byte, trim,
    trim_range, CR, LF,
};

verus! {

/// The request method. Tokens other than these two read as `Get`.
#[derive(PartialEq, Eq, Structural, Clone, Copy, Debug)]
pub enum Method {
    Get,
    Post,
}

/// Why a request could not be read.
#[derive(PartialEq, Eq, Structural, Clone, Copy, Debug)]
pub enum RequestError {
    /// No blank line closes the header section.
    MissingHeaderEnd,
    /// The header section is not UTF-8 text.
    NotText,
    /// The request line is not exactly three words.
    BadRequestLine,
    /// `Content-Length` is not a decimal number.
    BadContentLength,
}

/// A request as it was read from one connection.
pub struct Request {
    pub method: Method,
    pub path: Vec<u8>,
    pub http_version: Vec<u8>,
    /// Header lines in the order received; a later one overrides an earlier
    /// one of the same name.
    pub headers: Vec<(Vec<u8>, Vec<u8>)>,
    pub body: Vec<u8>,
}

/// What a `Request` holds, as mathematical values.
pub struct RequestModel {
    pub method: Method,
    pub path: Seq<u8>,
    pub http_version: Seq<u8>,
    pub headers: Seq<(Seq<u8>, Seq<u8>)>,
    pub body: Seq<u8>,
}

pub open spec fn pairs_view(v: Seq<(Vec<u8>, Vec<u8>)>) -> Seq<(Seq<u8>, Seq<u8>)> {
    Seq::new(v.len(), |i: int| (v[i].0@, v[i].1@))
}

pub open spec fn lines_view(v: Seq<Vec<u8>>) -> Seq<Seq<u8>> {
    Seq::new(v.len(), |i: int| v[i]@)
}

impl View for Request {
    type V = RequestModel;

    open spec fn view(&self) -> RequestModel {
        RequestModel {
            method: self.method,
            path: self.path@,
            http_version: self.http_version@,
            headers: pairs_view(self.headers@),
            body: self.body@,
        }
    }
}

impl Request {
    /// An empty GET request: no path, version, headers or body.
    pub fn new() -> (r: Self)
        ensures
            r@.method == Method::Get,
            r@.path.len() == 0,
            r@.http_version.len() == 0,
            r@.headers.len() == 0,
            r@.body.len() == 0,
    {
        Request {
            method: Method::Get,
            path: Vec::new(),
            http_version: Vec::new(),
            headers: Vec::new(),
            body: Vec::new(),
        }
    }
}

pub open spec fn crlf() -> Seq<u8> {
    seq![CR, LF]
}

/// The blank line that ends the header section.
pub open spec fn header_terminator() -> Seq<u8> {
    seq![CR, LF, CR, LF]
}

pub open spec fn colon() -> Seq<u8> {
    seq![58u8]
}

/// "POST"
pub open spec fn post_token() -> Seq<u8> {
    seq![80, 79, 83, 84]
}

/// "Content-Length"
pub open spec fn content_length_name() -> Seq<u8> {
    seq![67, 111, 110, 116, 101, 110, 116, 45, 76, 101, 110, 103, 116, 104]
}

/// The lines of `s` from index `i` on, split at each CRLF.
pub open spec fn lines_from(s: Seq<u8>, i: int) -> Seq<Seq<u8>>
    decreases s.len() - i,
{
    if i < 0 || i >= s.len() {
        seq![]
    } else {
        match find_from(s, crlf(), i) {
            Some(j) => if j < i || j + 2 > s.len() {
                seq![]
            } else {
                seq![s.subrange(i, j)] + lines_from(s, j + 2)
            },
            None => seq![s.subrange(i, s.len() as int)],
        }
    }
}

/// The index of the header terminator, if any.
pub open spec fn head_end(data: Seq<u8>) -> Option<int> {
    find_from(data, header_terminator(), 0)
}

/// The lines of the header section that ends at `t`: the request line, then
/// the header lines.
pub open spec fn head_lines(data: Seq<u8>, t: int) -> Seq<Seq<u8>> {
    lines_from(data.subrange(0, t), 0)
}

/// Where the word that starts at `i` ends: the next whitespace byte, or the
/// end of `s`.
pub open spec fn word_end(s: Seq<u8>, i: int) -> int
    decreases s.len() - i,
{
    if i < 0 || i >= s.len() || is_space(s[i]) {
        i
    } else {
        word_end(s, i + 1)
    }
}

/// The words of `s` from index `i` on: the runs of bytes between whitespace.
pub open spec fn words_from(s: Seq<u8>, i: int) -> Seq<Seq<u8>>
    decreases s.len() - i,
{
    if i < 0 || i >= s.len() {
        seq![]
    } else if is_space(s[i]) {
        words_from(s, i + 1)
    } else {
        let j = word_end(s, i);
        if j <= i || j > s.len() {
            seq![]
        } else {
            seq![s.subrange(i, j)] + words_from(s, j)
        }
    }
}

/// Method, path and version of a request line: exactly three words.
pub open spec fn request_line_parts(l: Seq<u8>) -> Option<(Seq<u8>, Seq<u8>, Seq<u8>)> {
    let w = words_from(l, 0);
    if w.len() == 3 {
        Some((w[0], w[1], w[2]))
    } else {
        None
    }
}

/// A method token names `Post` when it starts with "POST", else `Get`.
pub open spec fn method_of(tok: Seq<u8>) -> Method {
    if occurs_at(tok, post_token(), 0) {
        Method::Post
    } else {
        Method::Get
    }
}

/// A header line split at its first colon, both sides trimmed; `None` for a
/// line without a colon, which is ignored.
pub open spec fn header_of_line(l: Seq<u8>) -> Option<(Seq<u8>, Seq<u8>)> {
    match find_from(l, colon(), 0) {
        Some(c) => Some((trim(l.subrange(0, c)), trim(l.subrange(c + 1, l.len() as int)))),
        None => None,
    }
}

/// The headers that a sequence of header lines gives, in order.
pub open spec fn header_pairs(ls: Seq<Seq<u8>>) -> Seq<(Seq<u8>, Seq<u8>)>
    decreases ls.len(),
{
    if ls.len() == 0 {
        seq![]
    } else {
        let rest = header_pairs(ls.drop_last());
        match header_of_line(ls.last()) {
            Some(p) => rest.push(p),
            None => rest,
        }
    }
}

/// The value of header `name`: the last one of that name wins.
pub open spec fn header_value(hs: Seq<(Seq<u8>, Seq<u8>)>, name: Seq<u8>) -> Option<Seq<u8>>
    decreases hs.len(),
{
    if hs.len() == 0 {
        None
    } else if hs.last().0 == name {
        Some(hs.last().1)
    } else {
        header_value(hs.drop_last(), name)
    }
}

/// The declared body length: 0 without `Content-Length`.
pub open spec fn declared_length(hs: Seq<(Seq<u8>, Seq<u8>)>) -> Option<nat> {
    match header_value(hs, content_length_name()) {
        None => Some(0),
        Some(v) => parse_decimal(v),
    }
}

/// The body: the declared number of bytes after the terminator at `t`, or
/// as many of them as `data` holds.
pub open spec fn framed_body(data: Seq<u8>, t: int, len: nat) -> Seq<u8> {
    let start = t + 4;
    if start + len <= data.len() {
        data.subrange(start, start + len)
    } else {
        data.subrange(start, data.len() as int)
    }
}

/// The headers of the header section that ends at `t`.
pub open spec fn head_headers(data: Seq<u8>, t: int) -> Seq<(Seq<u8>, Seq<u8>)> {
    let ls = head_lines(data, t);
    if ls.len() == 0 {
        seq![]
    } else {
        header_pairs(ls.drop_first())
    }
}

/// The request that `data` holds, given that its header section ends at `t`.
pub open spec fn request_at(data: Seq<u8>, t: int) -> Result<RequestModel, RequestError> {
    let ls = head_lines(data, t);
    if ls.len() == 0 {
        Err(RequestError::BadRequestLine)
    } else {
        match request_line_parts(ls[0]) {
            None => Err(RequestError::BadRequestLine),
            Some(parts) => {
                let hs = head_headers(data, t);
                match declared_length(hs) {
                    None => Err(RequestError::BadContentLength),
                    Some(n) => Ok(
                        RequestModel {
                            method: method_of(parts.0),
                            path: parts.1,
                            http_version: parts.2,
                            headers: hs,
                            body: framed_body(data, t, n),
                        },
                    ),
                }
            },
        }
    }
}

fn crlf_bytes() -> (r: Vec<u8>)
    ensures
        r@ == crlf(),
{
    vec![CR, LF]
}

/// Splits `s` into lines at each CRLF.
pub fn split_lines(s: &[u8]) -> (r: Vec<Vec<u8>>)
    ensures
        lines_view(r@) == lines_from(s@, 0),
{
    let pat = crlf_bytes();
    let mut out: Vec<Vec<u8>> = Vec::new();
    let mut pos: usize = 0;
    while pos < s.len()
        invariant
            pat@ == crlf(),
            pos <= s.len(),
            lines_from(s@, 0) == lines_view(out@) + lines_from(s@, pos as int),
        decreases s.len() - pos,
    {
        let ghost before = lines_view(out@);
        match find(s, pat.as_slice(), pos) {
            Some(j) => {
                let line = copy_range(s, pos, j);
                out.push(line);
                assert(lines_view(out@) =~= before.push(line@));
                assert(lines_from(s@, pos as int) == seq![line@] + lines_from(s@, j + 2));
                assert(before + lines_from(s@, pos as int) =~= lines_view(out@) + lines_from(
                    s@,
                    j + 2,
                ));
                pos = j + 2;
            },
            None => {
                let line = copy_range(s, pos, s.len());
                out.push(line);
                assert(lines_view(out@) =~= before.push(line@));
                assert(lines_from(s@, s.len() as int) =~= seq![]);
                assert(before + lines_from(s@, pos as int) =~= lines_view(out@) + lines_from(
                    s@,
                    s.len() as int,
                ));
                pos = s.len();
            },
        }
    }
    assert(lines_view(out@) + lines_from(s@, pos as int) =~= lines_view(out@));
    out
}

/// Splits `s` into its words.
pub fn split_words(s: &[u8]) -> (r: Vec<Vec<u8>>)
    ensures
        lines_view(r@) == words_from(s@, 0),
{
    let mut out: Vec<Vec<u8>> = Vec::new();
    let mut pos: usize = 0;
    while pos < s.len()
        invariant
            pos <= s.len(),
            words_from(s@, 0) == lines_view(out@) + words_from(s@, pos as int),
        decreases s.len() - pos,
    {
        if space_byte(s[pos]) {
            pos = pos + 1;
        } else {
            let mut j: usize = pos + 1;
            while j < s.len() && !space_byte(s[j])
                invariant
                    pos < j <= s.len(),
                    word_end(s@, pos as int) == word_end(s@, j as int),
                decreases s.len() - j,
            {
                j = j + 1;
            }
            let ghost before = lines_view(out@);
            let word = copy_range(s, pos, j);
            out.push(word);
            assert(lines_view(out@) =~= before.push(word@));
            assert(words_from(s@, pos as int) == seq![word@] + words_from(s@, j as int));
            assert(before + words_from(s@, pos as int) =~= lines_view(out@) + words_from(
                s@,
                j as int,
            ));
            pos = j;
        }
    }
    assert(lines_view(out@) + words_from(s@, pos as int) =~= lines_view(out@));
    out
}

/// Splits a request line into method, path and version.
pub fn parse_request_line(l: &[u8]) -> (r: Option<(Method, Vec<u8>, Vec<u8>)>)
    ensures
        match r {
            Some(p) => request_line_parts(l@) matches Some(q) && p.0 == method_of(q.0) && p.1@
                == q.1 && p.2@ == q.2,
            None => request_line_parts(l@) is None,
        },
{
    let mut words = split_words(l);
    if words.len() != 3 {
        return None;
    }
    let version = words.pop().unwrap();
    let path = words.pop().unwrap();
    let method_tok = words.pop().unwrap();
    // "POST"
    let post: Vec<u8> = vec![80, 79, 83, 84];
    assert(post@ == post_token());
    let method = if crate::bytes::matches_at(method_tok.as_slice(), post.as_slice(), 0) {
        Method::Post
    } else {
        Method::Get
    };
    Some((method, path, version))
}

/// Splits a header line at its first colon and trims both sides.
pub fn parse_header_line(l: &[u8]) -> (r: Option<(Vec<u8>, Vec<u8>)>)
    ensures
        match r {
            Some(p) => header_of_line(l@) == Some((p.0@, p.1@)),
            None => header_of_line(l@) is None,
        },
{
    // ":"
    let c: Vec<u8> = vec![58u8];
    assert(c@ == colon());
    match find(l, c.as_slice(), 0) {
        Some(i) => {
            if i >= l.len() {
                return None;
            }
            Some((trim_range(l, 0, i), trim_range(l, i + 1, l.len())))
        },
        None => None,
    }
}

/// The index in `hs` of the header that gives the value of `name`.
pub fn find_header(hs: &Vec<(Vec<u8>, Vec<u8>)>, name: &[u8]) -> (r: Option<usize>)
    ensures
        match r {
            Some(i) => i < hs.len() && header_value(pairs_view(hs@), name@) == Some(hs@[i as int].1@),
            None => header_value(pairs_view(hs@), name@) is None,
        },
{
    let mut i: usize = hs.len();
    assert(pairs_view(hs@).subrange(0, i as int) =~= pairs_view(hs@));
    while i > 0
        invariant
            i <= hs.len(),
            header_value(pairs_view(hs@), name@) == header_value(
                pairs_view(hs@).subrange(0, i as int),
                name@,
            ),
        decreases i,
    {
        let ghost pre = pairs_view(hs@).subrange(0, i as int);
        assert(pre.drop_last() =~= pairs_view(hs@).subrange(0, i - 1));
        if crate::bytes::bytes_eq(hs[i - 1].0.as_slice(), name) {
            return Some(i - 1);
        }
        i = i - 1;
    }
    None
}

/// The headers that the lines after the request line give.
fn collect_headers(lines: &Vec<Vec<u8>>) -> (r: Vec<(Vec<u8>, Vec<u8>)>)
    ensures
        lines.len() > 0 ==> pairs_view(r@) == header_pairs(lines_view(lines@).drop_first()),
        lines.len() == 0 ==> r@.len() == 0,
{
    let ghost ls = lines_view(lines@);
    let mut headers: Vec<(Vec<u8>, Vec<u8>)> = Vec::new();
    if lines.len() == 0 {
        return headers;
    }
    let mut k: usize = 1;
    assert(ls.subrange(1, 1) =~= seq![]);
    while k < lines.len()
        invariant
            1 <= k <= lines.len(),
            ls == lines_view(lines@),
            pairs_view(headers@) == header_pairs(ls.subrange(1, k as int)),
        decreases lines.len() - k,
    {
        let ghost pre = ls.subrange(1, k + 1);
        assert(pre.drop_last() =~= ls.subrange(1, k as int));
        assert(pre.last() == lines@[k as int]@);
        let ghost before = pairs_view(headers@);
        match parse_header_line(lines[k].as_slice()) {
            Some(p) => {
                headers.push(p);
                assert(pairs_view(headers@) =~= before.push((p.0@, p.1@)));
            },
            None => {},
        }
        k = k + 1;
    }
    assert(ls.subrange(1, lines.len() as int) =~= ls.drop_first());
    headers
}

/// The body length that `headers` declare.
fn content_length(headers: &Vec<(Vec<u8>, Vec<u8>)>) -> (r: Option<usize>)
    ensures
        match r {
            Some(n) => declared_length(pairs_view(headers@)) == Some(n as nat),
            None => declared_length(pairs_view(headers@)) is None,
        },
{
    // "Content-Length"
    let name: Vec<u8> = vec![67, 111, 110, 116, 101, 110, 116, 45, 76, 101, 110, 103, 116, 104];
    assert(name@ == content_length_name());
    match find_header(headers, name.as_slice()) {
        None => Some(0),
        Some(i) => parse_usize(headers[i].1.as_slice()),
    }
}

/// The index at which the header terminator first occurs.
pub fn header_end(data: &[u8]) -> (r: Option<usize>)
    ensures
        match r {
            Some(t) => head_end(data@) == Some(t as int) && t + 4 <= data.len(),
            None => head_end(data@) is None,
        },
{
    let pat: Vec<u8> = vec![CR, LF, CR, LF];
    assert(pat@ == header_terminator());
    find(data, pat.as_slice(), 0)
}

/// Reads the request in `data`, whose header section ends at `t`.
pub fn parse_framed(data: &[u8], t: usize) -> (r: Result<Request, RequestError>)
    requires
        t + 4 <= data.len(),
    ensures
        match r {
            Ok(q) => request_at(data@, t as int) == Ok::<RequestModel, RequestError>(q@),
            Err(e) => request_at(data@, t as int) == Err::<RequestModel, RequestError>(e),
        },
{
    let head = copy_range(data, 0, t);
    let lines = split_lines(head.as_slice());
    let ghost ls = head_lines(data@, t as int);
    assert(lines_view(lines@) == ls);
    if lines.len() == 0 {
        return Err(RequestError::BadRequestLine);
    }
    assert(lines_view(lines@)[0] == lines@[0]@);
    let (method, path, http_version) = match parse_request_line(lines[0].as_slice()) {
        Some(p) => p,
        None => return Err(RequestError::BadRequestLine),
    };
    let headers = collect_headers(&lines);
    let len: usize = match content_length(&headers) {
        Some(n) => n,
        None => return Err(RequestError::BadContentLength),
    };
    let start = t + 4;
    let end = if len <= data.len() - start {
        start + len
    } else {
        data.len()
    };
    let body = copy_range(data, start, end);
    Ok(Request { method, path, http_version, headers, body })
}

/// The name for whether `b` is UTF-8 text.
pub uninterp spec fn is_utf8(b: Seq<u8>) -> bool;

/// Relies on `std::str::from_utf8`: it succeeds exactly on UTF-8 text, which
/// depends on the bytes alone.
#[verifier::external_body]
fn utf8_text(b: &[u8]) -> (r: bool)
    ensures
        r == is_utf8(b@),
{
    std::str::from_utf8(b).is_ok()
}

/// What `parse_request` returns for `data`.
pub open spec fn request_of(data: Seq<u8>) -> Result<RequestModel, RequestError> {
    match head_end(data) {
        None => Err(RequestError::MissingHeaderEnd),
        Some(t) => if !is_utf8(data.subrange(0, t)) {
            Err(RequestError::NotText)
        } else {
            request_at(data, t)
        },
    }
}

/// Reads a request from the bytes received on a connection: the header
/// section must be closed by a blank line and be UTF-8 text.
pub fn parse_request(data: &[u8]) -> (r: Result<Request, RequestError>)
    ensures
        match r {
            Ok(q) => request_of(data@) == Ok::<RequestModel, RequestError>(q@),
            Err(e) => request_of(data@) == Err::<RequestModel, RequestError>(e),
        },
{
    let t = match header_end(data) {
        Some(t) => t,
        None => return Err(RequestError::MissingHeaderEnd),
    };
    let head = copy_range(data, 0, t);
    if !utf8_text(head.as_slice()) {
        return Err(RequestError::NotText);
    }
    parse_framed(data, t)
}

/// How many body bytes are still to be read after `data`.
pub open spec fn missing_body(data: Seq<u8>) -> nat {
    match head_end(data) {
        None => 0,
        Some(t) => match declared_length(head_headers(data, t)) {
            Some(n) => if t + 4 + n > data.len() {
                (t + 4 + n - data.len()) as nat
            } else {
                0
            },
            None => 0,
        },
    }
}

/// How many more bytes a connection must read to hold the whole body that
/// the header section of `data` declares.
pub fn body_bytes_missing(data: &[u8]) -> (r: usize)
    ensures
        r == missing_body(data@),
{
    let t = match header_end(data) {
        Some(t) => t,
        None => return 0,
    };
    let head = copy_range(data, 0, t);
    let lines = split_lines(head.as_slice());
    let headers = collect_headers(&lines);
    let len: usize = match content_length(&headers) {
        Some(n) => n,
        None => return 0,
    };
    let avail = data.len() - (t + 4);
    if len > avail {
        len - avail
    } else {
        0
    }
}

} // verus!
