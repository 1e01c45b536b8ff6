use vstd::prelude::*;

use crate::bytes::{decimal, decimal_bytes, CR, LF};
use crate::request::{crlf, pairs_view};

verus! {

/// A response, built by a handler and written once.
pub struct Response {
    pub http_version: Vec<u8>,
    pub status_code: usize,
    pub status_message: Vec<u8>,
    /// Header fields, written in this order.
    pub headers: Vec<(Vec<u8>, Vec<u8>)>,
    pub body: Vec<u8>,
}

/// What a `Response` holds, as mathematical values.
pub struct ResponseModel {
    pub http_version: Seq<u8>,
    pub status_code: nat,
    pub status_message: Seq<u8>,
    pub headers: Seq<(Seq<u8>, Seq<u8>)>,
    pub body: Seq<u8>,
}

impl View for Response {
    type V = ResponseModel;

    open spec fn view(&self) -> ResponseModel {
        ResponseModel {
            http_version: self.http_version@,
            status_code: self.status_code as nat,
            status_message: self.status_message@,
            headers: pairs_view(self.headers@),
            body: self.body@,
        }
    }
}

/// "HTTP/1.1"
pub open spec fn version_1_1() -> Seq<u8> {
    seq![72, 84, 84, 80, 47, 49, 46, 49]
}

/// A response with only a status line.
pub open spec fn bare(code: nat, message: Seq<u8>) -> ResponseModel {
    ResponseModel {
        http_version: version_1_1(),
        status_code: code,
        status_message: message,
        headers: seq![],
        body: seq![],
    }
}

/// "OK"
pub open spec fn ok_message() -> Seq<u8> {
    seq![79, 75]
}

/// "NOT FOUND"
pub open spec fn not_found_message() -> Seq<u8> {
    seq![78, 79, 84, 32, 70, 79, 85, 78, 68]
}

/// ": "
pub open spec fn field_separator() -> Seq<u8> {
    seq![58u8, 32u8]
}

/// The header lines of a response, each closed by CRLF.
pub open spec fn header_text(hs: Seq<(Seq<u8>, Seq<u8>)>) -> Seq<u8>
    decreases hs.len(),
{
    if hs.len() == 0 {
        seq![]
    } else {
        header_text(hs.drop_last()) + hs.last().0 + field_separator() + hs.last().1 + crlf()
    }
}

/// The bytes that carry a response: status line, header lines, a blank
/// line, then the body as it is.
pub open spec fn wire(r: ResponseModel) -> Seq<u8> {
    r.http_version + seq![32u8] + decimal(r.status_code) + seq![32u8] + r.status_message + crlf()
        + header_text(r.headers) + crlf() + r.body
}

fn append(out: &mut Vec<u8>, s: &[u8])
    ensures
        final(out)@ == old(out)@ + s@,
{
    let mut i: usize = 0;
    let ghost start = out@;
    while i < s.len()
        invariant
            i <= s.len(),
            out@ == start + s@.subrange(0, i as int),
        decreases s.len() - i,
    {
        out.push(s[i]);
        i = i + 1;
        assert(out@ =~= start + s@.subrange(0, i as int));
    }
    assert(s@.subrange(0, s.len() as int) =~= s@);
}

impl Response {
    /// An empty response: no version, status 0, no message, headers or body.
    pub fn new() -> (r: Self)
        ensures
            r@.http_version.len() == 0,
            r@.status_code == 0,
            r@.status_message.len() == 0,
            r@.headers.len() == 0,
            r@.body.len() == 0,
    {
        Response {
            http_version: Vec::new(),
            status_code: 0,
            status_message: Vec::new(),
            headers: Vec::new(),
            body: Vec::new(),
        }
    }

    /// A response with the given status line and no headers or body.
    pub fn status(code: usize, message: Vec<u8>) -> (r: Self)
        ensures
            r@ == bare(code as nat, message@),
    {
        let r = Response {
            // "HTTP/1.1"
            http_version: vec![72, 84, 84, 80, 47, 49, 46, 49],
            status_code: code,
            status_message: message,
            headers: Vec::new(),
            body: Vec::new(),
        };
        assert(r@.headers =~= seq![]);
        r
    }

    /// "HTTP/1.1 200 OK", with no headers or body.
    pub fn ok() -> (r: Self)
        ensures
            r@ == (ResponseModel {
                http_version: version_1_1(),
                status_code: 200,
                status_message: seq![79, 75],
                headers: seq![],
                body: seq![],
            }),
    {
        // "OK"
        Response::status(200, vec![79, 75])
    }

    /// "HTTP/1.1 404 NOT FOUND", with no headers or body.
    pub fn not_found() -> (r: Self)
        ensures
            r@ == (ResponseModel {
                http_version: version_1_1(),
                status_code: 404,
                status_message: seq![78, 79, 84, 32, 70, 79, 85, 78, 68],
                headers: seq![],
                body: seq![],
            }),
    {
        // "NOT FOUND"
        Response::status(404, vec![78, 79, 84, 32, 70, 79, 85, 78, 68])
    }

    /// This response with another protocol version.
    pub fn http_version(self, version: Vec<u8>) -> (r: Self)
        ensures
            r@ == (ResponseModel { http_version: version@, ..self@ }),
    {
        Response { http_version: version, ..self }
    }

    /// This response with another status code.
    pub fn status_code(self, code: usize) -> (r: Self)
        ensures
            r@ == (ResponseModel { status_code: code as nat, ..self@ }),
    {
        Response { status_code: code, ..self }
    }

    /// This response with another reason phrase.
    pub fn status_message(self, message: Vec<u8>) -> (r: Self)
        ensures
            r@ == (ResponseModel { status_message: message@, ..self@ }),
    {
        Response { status_message: message, ..self }
    }

    /// This response with other header fields.
    pub fn headers(self, headers: Vec<(Vec<u8>, Vec<u8>)>) -> (r: Self)
        ensures
            r@ == (ResponseModel { headers: pairs_view(headers@), ..self@ }),
    {
        Response { headers, ..self }
    }

    /// This response with another body.
    pub fn body(self, body: Vec<u8>) -> (r: Self)
        ensures
            r@ == (ResponseModel { body: body@, ..self@ }),
    {
        Response { body, ..self }
    }

    /// The bytes that carry this response.
    pub fn to_bytes(&self) -> (r: Vec<u8>)
        ensures
            r@ == wire(self@),
    {
        let mut out: Vec<u8> = Vec::new();
        append(&mut out, self.http_version.as_slice());
        out.push(32u8);
        let code = decimal_bytes(self.status_code);
        append(&mut out, code.as_slice());
        out.push(32u8);
        append(&mut out, self.status_message.as_slice());
        out.push(CR);
        out.push(LF);
        let ghost status_line = out@;
        let mut i: usize = 0;
        assert(pairs_view(self.headers@).subrange(0, 0) =~= seq![]);
        assert(out@ =~= status_line + header_text(seq![]));
        while i < self.headers.len()
            invariant
                i <= self.headers.len(),
                out@ == status_line + header_text(pairs_view(self.headers@).subrange(0, i as int)),
            decreases self.headers.len() - i,
        {
            let ghost pre = pairs_view(self.headers@).subrange(0, i + 1);
            assert(pre.drop_last() =~= pairs_view(self.headers@).subrange(0, i as int));
            append(&mut out, self.headers[i].0.as_slice());
            out.push(58u8);
            out.push(32u8);
            append(&mut out, self.headers[i].1.as_slice());
            out.push(CR);
            out.push(LF);
            i = i + 1;
            assert(out@ =~= status_line + header_text(pre));
        }
        assert(pairs_view(self.headers@).subrange(0, i as int) =~= pairs_view(self.headers@));
        let ghost with_headers = out@;
        out.push(CR);
        out.push(LF);
        append(&mut out, self.body.as_slice());
        assert(out@ =~= with_headers + crlf() + self.body@);
        assert(out@ =~= wire(self@));
        out
    }
}

} // verus!
