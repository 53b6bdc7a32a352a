use vstd::prelude::*;
use crate::bytes::{ascii, contains, contains_bytes, decimal, decimal_bytes, lit};
use crate::response::{
    content_encoding, content_length, content_type, length_agrees, ok_reason, text_plain, Header,
    Response, ResponseModel,
};

verus! {

/// The gzip stream that flate2 writes for `b` at the default level.
pub uninterp spec fn gzip_of(b: Seq<u8>) -> Seq<u8>;

/// Relies on `flate2::write::GzEncoder` at `Compression::default()`: the gzip
/// stream of `b`. It depends on `b` alone: the header that flate2 writes holds
/// no time stamp and a fixed operating-system byte. Writing into a `Vec`
/// cannot fail.
#[verifier::external_body]
fn gzip(b: &[u8]) -> (r: Vec<u8>)
    ensures
        r@ == gzip_of(b@),
{
    let mut encoder = flate2::write::GzEncoder::new(Vec::new(), flate2::Compression::default());
    std::io::Write::write_all(&mut encoder, b).unwrap();
    encoder.finish().unwrap()
}

/// The client accepts gzip: its `Accept-Encoding` value holds `gzip`.
pub open spec fn wants_gzip(accept: Seq<u8>) -> bool {
    contains(accept, ascii("gzip"@))
}

pub fn accepts_gzip(accept: &[u8]) -> (r: bool)
    ensures
        r == wants_gzip(accept@),
{
    proof {
        reveal_strlit("gzip");
    }
    contains_bytes(accept, lit("gzip"))
}

pub open spec fn gzip_value() -> Seq<u8> {
    ascii("gzip"@)
}

/// `200 OK` with a gzip-encoded plain-text body.
pub open spec fn gzip_text_model(compressed: Seq<u8>) -> ResponseModel {
    ResponseModel {
        status: 200,
        reason: ok_reason(),
        headers: seq![
            (content_type(), text_plain()),
            (content_encoding(), gzip_value()),
            (content_length(), decimal(compressed.len())),
        ],
        body: compressed,
    }
}

/// The response for a plain-text body that is already gzip-encoded.
pub fn gzip_text_response(compressed: Vec<u8>) -> (r: Response)
    ensures
        r@ == gzip_text_model(compressed@),
        length_agrees(r@),
{
    proof {
        reveal_strlit("OK");
        reveal_strlit("text/plain");
        reveal_strlit("gzip");
        reveal_strlit("Content-Type");
        reveal_strlit("Content-Encoding");
        reveal_strlit("Content-Length");
    }
    let len = decimal_bytes(compressed.len());
    let mut headers: Vec<Header> = Vec::new();
    headers.push(Header { name: vstd::slice::slice_to_vec(lit("Content-Type")), value: vstd::slice::slice_to_vec(lit("text/plain")) });
    headers.push(Header { name: vstd::slice::slice_to_vec(lit("Content-Encoding")), value: vstd::slice::slice_to_vec(lit("gzip")) });
    headers.push(Header { name: vstd::slice::slice_to_vec(lit("Content-Length")), value: len });
    let r = Response { status: 200, reason: vstd::slice::slice_to_vec(lit("OK")), headers, body: compressed };
    assert(r@.headers =~= gzip_text_model(compressed@).headers);
    assert(content_type() != content_length()) by {
        assert(content_type()[8] != content_length()[8]);
    }
    assert(content_encoding() != content_length()) by {
        assert(content_encoding().len() != content_length().len());
    }
    r
}

/// The gzip-encoded plain-text response for `body`.
pub fn gzip_text(body: &[u8]) -> (r: Response)
    ensures
        r@ == gzip_text_model(gzip_of(body@)),
        length_agrees(r@),
{
    gzip_text_response(gzip(body))
}

} // verus!
