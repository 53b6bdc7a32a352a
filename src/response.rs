use vstd::prelude::*;
use crate::bytes::{ascii, decimal, decimal_bytes, lit, push_all};

verus! {

/// One response header, emitted as `name: value`.
#[derive(Clone, Debug)]
pub struct Header {
    pub name: Vec<u8>,
    pub value: Vec<u8>,
}

/// A response: status code, reason phrase, headers in the order they are
/// emitted, and body.
#[derive(Clone, Debug)]
pub struct Response {
    pub status: u16,
    pub reason: Vec<u8>,
    pub headers: Vec<Header>,
    pub body: Vec<u8>,
}

pub struct ResponseModel {
    pub status: u16,
    pub reason: Seq<u8>,
    pub headers: Seq<(Seq<u8>, Seq<u8>)>,
    pub body: Seq<u8>,
}

impl View for Response {
    type V = ResponseModel;

    open spec fn view(&self) -> ResponseModel {
        ResponseModel {
            status: self.status,
            reason: self.reason@,
            headers: self.headers@.map_values(|h: Header| (h.name@, h.value@)),
            body: self.body@,
        }
    }
}

pub open spec fn crlf() -> Seq<u8> {
    seq![13u8, 10u8]
}

pub open spec fn content_type() -> Seq<u8> {
    ascii("Content-Type"@)
}

pub open spec fn content_length() -> Seq<u8> {
    ascii("Content-Length"@)
}

pub open spec fn content_encoding() -> Seq<u8> {
    ascii("Content-Encoding"@)
}

/// A `Content-Length` header, where there is one, gives the body's length.
pub open spec fn length_agrees(r: ResponseModel) -> bool {
    forall|i: int|
        0 <= i < r.headers.len() && #[trigger] r.headers[i].0 == content_length()
            ==> r.headers[i].1 == decimal(r.body.len())
}

/// The headers as they go on the wire, each `name: value` and a CRLF.
pub open spec fn header_lines(hs: Seq<(Seq<u8>, Seq<u8>)>) -> Seq<u8>
    decreases hs.len(),
{
    if hs.len() == 0 {
        seq![]
    } else {
        header_lines(hs.drop_last()) + hs.last().0 + ascii(": "@) + hs.last().1 + crlf()
    }
}

/// The bytes of a response: status line, headers, blank line, body.
pub open spec fn wire(r: ResponseModel) -> Seq<u8> {
    ascii("HTTP/1.1 "@) + decimal(r.status as nat) + ascii(" "@) + r.reason + crlf()
        + header_lines(r.headers) + crlf() + r.body
}

/// A response without headers or body.
pub open spec fn bare(status: u16, reason: Seq<u8>) -> ResponseModel {
    ResponseModel { status, reason, headers: seq![], body: seq![] }
}

/// A response whose body is described by its content type and length.
pub open spec fn with_body(status: u16, reason: Seq<u8>, kind: Seq<u8>, body: Seq<u8>) -> ResponseModel {
    ResponseModel {
        status,
        reason,
        headers: seq![(content_type(), kind), (content_length(), decimal(body.len()))],
        body,
    }
}

pub open spec fn ok_reason() -> Seq<u8> {
    ascii("OK"@)
}

pub open spec fn not_found_reason() -> Seq<u8> {
    ascii("Not Found"@)
}

pub open spec fn text_plain() -> Seq<u8> {
    ascii("text/plain"@)
}

pub open spec fn octet_stream() -> Seq<u8> {
    ascii("application/octet-stream"@)
}

pub open spec fn not_found_model() -> ResponseModel {
    bare(404, not_found_reason())
}

fn header(name: &[u8], value: &[u8]) -> (h: Header)
    ensures
        h.name@ == name@,
        h.value@ == value@,
{
    Header { name: vstd::slice::slice_to_vec(name), value: vstd::slice::slice_to_vec(value) }
}

impl Response {
    /// The bytes sent on the wire for this response.
    pub fn to_bytes(&self) -> (r: Vec<u8>)
        ensures
            r@ == wire(self@),
    {
        proof {
            reveal_strlit("HTTP/1.1 ");
            reveal_strlit(" ");
            reveal_strlit(": ");
        }
        let mut out: Vec<u8> = Vec::new();
        push_all(&mut out, lit("HTTP/1.1 "));
        let code = decimal_bytes(self.status as usize);
        push_all(&mut out, code.as_slice());
        push_all(&mut out, lit(" "));
        push_all(&mut out, self.reason.as_slice());
        out.push(13);
        out.push(10);
        let ghost line = out@;
        assert(line =~= ascii("HTTP/1.1 "@) + decimal(self.status as nat) + ascii(" "@)
            + self.reason@ + crlf());
        let ghost hs = self@.headers;
        let sep = lit(": ");
        let mut i: usize = 0;
        while i < self.headers.len()
            invariant
                i <= self.headers.len(),
                hs == self@.headers,
                hs.len() == self.headers@.len(),
                sep@ == ascii(": "@),
                out@ == line + header_lines(hs.subrange(0, i as int)),
            decreases self.headers.len() - i,
        {
            let h = &self.headers[i];
            push_all(&mut out, h.name.as_slice());
            push_all(&mut out, sep);
            push_all(&mut out, h.value.as_slice());
            out.push(13);
            out.push(10);
            assert(hs.subrange(0, i + 1).drop_last() =~= hs.subrange(0, i as int));
            i += 1;
            assert(out@ =~= line + header_lines(hs.subrange(0, i as int)));
        }
        assert(hs.subrange(0, i as int) =~= hs);
        out.push(13);
        out.push(10);
        push_all(&mut out, self.body.as_slice());
        assert(out@ =~= wire(self@));
        out
    }

    /// `404 Not Found`, without headers or body.
    pub fn not_found() -> (r: Response)
        ensures
            r@ == not_found_model(),
    {
        proof {
            reveal_strlit("Not Found");
        }
        let r = Response { status: 404, reason: vstd::slice::slice_to_vec(lit("Not Found")), headers: Vec::new(), body: Vec::new() };
        assert(r@.headers =~= seq![]);
        r
    }

    /// `200 OK`, without headers or body.
    pub fn ok_empty() -> (r: Response)
        ensures
            r@ == bare(200, ok_reason()),
    {
        proof {
            reveal_strlit("OK");
        }
        let r = Response { status: 200, reason: vstd::slice::slice_to_vec(lit("OK")), headers: Vec::new(), body: Vec::new() };
        assert(r@.headers =~= seq![]);
        r
    }

    /// A response carrying `body`, with its content type and length.
    pub fn with_content(status: u16, reason: &[u8], kind: &[u8], body: Vec<u8>) -> (r: Response)
        ensures
            r@ == with_body(status, reason@, kind@, body@),
            length_agrees(r@),
    {
        proof {
            reveal_strlit("Content-Type");
            reveal_strlit("Content-Length");
        }
        let len = decimal_bytes(body.len());
        let mut headers: Vec<Header> = Vec::new();
        headers.push(header(lit("Content-Type"), kind));
        headers.push(header(lit("Content-Length"), len.as_slice()));
        let r = Response { status, reason: vstd::slice::slice_to_vec(reason), headers, body };
        assert(r@.headers =~= with_body(status, reason@, kind@, body@).headers);
        assert(content_type() != content_length()) by {
            assert(content_type()[8] != content_length()[8]);
        }
        r
    }
}

} // verus!
