use vstd::prelude::*;
use crate::bytes::{ascii, has_prefix, lit, starts_with};

verus! {

/// The request methods that the server tells apart.
#[derive(PartialEq, Eq, Structural, Clone, Copy, Debug)]
pub enum Method {
    Get,
    Post,
    Other,
}

/// A parsed request. A header that the request does not carry is empty.
#[derive(Clone, Debug)]
pub struct HttpRequest {
    pub method: Method,
    pub path: Vec<u8>,
    pub host: Vec<u8>,
    pub user_agent: Vec<u8>,
    pub accept_encoding: Vec<u8>,
    pub body: Vec<u8>,
}

/// What a request holds, as plain sequences.
pub struct RequestModel {
    pub method: Method,
    pub path: Seq<u8>,
    pub host: Seq<u8>,
    pub user_agent: Seq<u8>,
    pub accept_encoding: Seq<u8>,
    pub body: Seq<u8>,
}

impl View for HttpRequest {
    type V = RequestModel;

    open spec fn view(&self) -> RequestModel {
        RequestModel {
            method: self.method,
            path: self.path@,
            host: self.host@,
            user_agent: self.user_agent@,
            accept_encoding: self.accept_encoding@,
            body: self.body@,
        }
    }
}

impl Default for HttpRequest {
    /// A bodiless `GET /` without headers.
    fn default() -> (r: HttpRequest)
        ensures
            r.method == Method::Get,
            r.path@ == seq![47u8],
            r.host@.len() == 0,
            r.user_agent@.len() == 0,
            r.accept_encoding@.len() == 0,
            r.body@.len() == 0,
    {
        let mut path: Vec<u8> = Vec::new();
        path.push(47);
        HttpRequest {
            method: Method::Get,
            path,
            host: Vec::new(),
            user_agent: Vec::new(),
            accept_encoding: Vec::new(),
            body: Vec::new(),
        }
    }
}

/// Why a request could not be parsed.
#[derive(PartialEq, Eq, Structural, Clone, Copy, Debug)]
pub enum ParseError {
    Malformed,
}

pub open spec fn crlf_at(s: Seq<u8>, i: int) -> bool {
    0 <= i && i + 1 < s.len() && s[i] == 13 && s[i + 1] == 10
}

/// The first index at or after `i` where a blank line starts: CRLF CRLF.
pub open spec fn blank_line_from(s: Seq<u8>, i: int) -> Option<int>
    decreases s.len() - i,
{
    if i < 0 || i + 4 > s.len() {
        None
    } else if crlf_at(s, i) && crlf_at(s, i + 2) {
        Some(i)
    } else {
        blank_line_from(s, i + 1)
    }
}

/// The request line and the headers: all before the blank line, or all.
pub open spec fn head(s: Seq<u8>) -> Seq<u8> {
    match blank_line_from(s, 0) {
        Some(p) => s.subrange(0, p),
        None => s,
    }
}

/// The lines of `s` split on CRLF, where the line being read began at `start`
/// and `i` is the next index to look at.
pub open spec fn lines_from(s: Seq<u8>, start: int, i: int) -> Seq<Seq<u8>>
    decreases s.len() - i,
{
    if i >= s.len() {
        seq![s.subrange(start, s.len() as int)]
    } else if crlf_at(s, i) {
        seq![s.subrange(start, i)] + lines_from(s, i + 2, i + 2)
    } else {
        lines_from(s, start, i + 1)
    }
}

/// The lines of `s` split on CRLF; there is always at least one.
pub open spec fn lines(s: Seq<u8>) -> Seq<Seq<u8>> {
    lines_from(s, 0, 0)
}

pub open spec fn is_space(b: u8) -> bool {
    b == 32 || b == 9 || b == 10 || b == 12 || b == 13
}

/// The token that began at `start` and runs up to `i`, if it is not empty.
pub open spec fn pending(s: Seq<u8>, start: int, i: int) -> Seq<Seq<u8>> {
    if start < i {
        seq![s.subrange(start, i)]
    } else {
        seq![]
    }
}

/// The whitespace-separated tokens of `s`, scanning from `i` with the
/// current token begun at `start`.
pub open spec fn tokens_from(s: Seq<u8>, start: int, i: int) -> Seq<Seq<u8>>
    decreases s.len() - i,
{
    if i >= s.len() {
        pending(s, start, i)
    } else if is_space(s[i]) {
        pending(s, start, i) + tokens_from(s, i + 1, i + 1)
    } else {
        tokens_from(s, start, i + 1)
    }
}

pub open spec fn tokens(s: Seq<u8>) -> Seq<Seq<u8>> {
    tokens_from(s, 0, 0)
}

/// The value of the first header line (after the request line, from line `k`
/// on) that begins with `prefix`, without the prefix; empty if there is none.
pub open spec fn header_from(ls: Seq<Seq<u8>>, k: int, prefix: Seq<u8>) -> Seq<u8>
    decreases ls.len() - k,
{
    if k < 1 || k >= ls.len() {
        seq![]
    } else if has_prefix(ls[k], prefix) {
        ls[k].subrange(prefix.len() as int, ls[k].len() as int)
    } else {
        header_from(ls, k + 1, prefix)
    }
}

pub open spec fn header(s: Seq<u8>, prefix: Seq<u8>) -> Seq<u8> {
    header_from(lines(head(s)), 1, prefix)
}

pub open spec fn method_of(t: Seq<u8>) -> Method {
    if t == ascii("GET"@) {
        Method::Get
    } else if t == ascii("POST"@) {
        Method::Post
    } else {
        Method::Other
    }
}

/// What follows the blank line, or nothing where there is none.
pub open spec fn body_after_blank(s: Seq<u8>) -> Seq<u8> {
    match blank_line_from(s, 0) {
        Some(p) => s.subrange(p + 4, s.len() as int),
        None => seq![],
    }
}

/// The request that `s` holds, or `None` where it is malformed: a request line
/// that is not three tokens, a path that does not begin with `/`, or a `POST`
/// without a blank line before its body.
pub open spec fn parse(s: Seq<u8>) -> Option<RequestModel> {
    let toks = tokens(lines(head(s))[0]);
    let method = method_of(toks[0]);
    if toks.len() != 3 || toks[1].len() == 0 || toks[1][0] != 47u8 {
        None
    } else if method == Method::Post && blank_line_from(s, 0) is None {
        None
    } else {
        Some(
            RequestModel {
                method,
                path: toks[1],
                host: header(s, ascii("Host: "@)),
                user_agent: header(s, ascii("User-Agent: "@)),
                accept_encoding: header(s, ascii("Accept-Encoding: "@)),
                body: if method == Method::Post {
                    body_after_blank(s)
                } else {
                    seq![]
                },
            },
        )
    }
}

pub open spec fn views(v: Seq<Vec<u8>>) -> Seq<Seq<u8>> {
    v.map_values(|x: Vec<u8>| x@)
}

proof fn lemma_lines_nonempty(s: Seq<u8>, start: int, i: int)
    ensures
        lines_from(s, start, i).len() >= 1,
    decreases s.len() - i,
{
    if i >= s.len() {
    } else if crlf_at(s, i) {
        lemma_lines_nonempty(s, i + 2, i + 2);
    } else {
        lemma_lines_nonempty(s, start, i + 1);
    }
}

fn find_blank_line(s: &[u8]) -> (r: Option<usize>)
    ensures
        match r {
            Some(p) => blank_line_from(s@, 0) == Some(p as int) && p + 4 <= s@.len(),
            None => blank_line_from(s@, 0) is None,
        },
{
    if s.len() < 4 {
        return None;
    }
    let mut i: usize = 0;
    while i <= s.len() - 4
        invariant
            4 <= s.len(),
            i <= s.len() - 3,
            blank_line_from(s@, 0) == blank_line_from(s@, i as int),
        decreases s.len() - i,
    {
        if s[i] == 13 && s[i + 1] == 10 && s[i + 2] == 13 && s[i + 3] == 10 {
            return Some(i);
        }
        i += 1;
    }
    None
}

fn split_lines(s: &[u8]) -> (r: Vec<Vec<u8>>)
    ensures
        views(r@) == lines(s@),
{
    let mut out: Vec<Vec<u8>> = Vec::new();
    let mut start: usize = 0;
    let mut i: usize = 0;
    while i < s.len()
        invariant
            start <= i <= s.len(),
            views(out@) + lines_from(s@, start as int, i as int) == lines(s@),
        decreases s.len() - i,
    {
        if i + 1 < s.len() && s[i] == 13 && s[i + 1] == 10 {
            let line = vstd::slice::slice_to_vec(vstd::slice::slice_subrange(s, start, i));
            let ghost old_out = out@;
            out.push(line);
            assert(views(out@) =~= views(old_out).push(line@));
            assert(views(out@) + lines_from(s@, i + 2, i + 2) =~= views(old_out)
                + lines_from(s@, start as int, i as int));
            i += 2;
            start = i;
        } else {
            i += 1;
        }
    }
    let line = vstd::slice::slice_to_vec(vstd::slice::slice_subrange(s, start, s.len()));
    let ghost old_out = out@;
    out.push(line);
    assert(views(out@) =~= views(old_out) + lines_from(s@, start as int, i as int));
    out
}

fn split_tokens(s: &[u8]) -> (r: Vec<Vec<u8>>)
    ensures
        views(r@) == tokens(s@),
{
    let mut out: Vec<Vec<u8>> = Vec::new();
    let mut start: usize = 0;
    let mut i: usize = 0;
    while i < s.len()
        invariant
            start <= i <= s.len(),
            views(out@) + tokens_from(s@, start as int, i as int) == tokens(s@),
        decreases s.len() - i,
    {
        let b = s[i];
        if b == 32 || b == 9 || b == 10 || b == 12 || b == 13 {
            let ghost old_out = out@;
            if start < i {
                let tok = vstd::slice::slice_to_vec(vstd::slice::slice_subrange(s, start, i));
                out.push(tok);
            }
            assert(views(out@) =~= views(old_out) + pending(s@, start as int, i as int));
            assert(views(out@) + tokens_from(s@, i + 1, i + 1) =~= views(old_out)
                + tokens_from(s@, start as int, i as int));
            i += 1;
            start = i;
        } else {
            i += 1;
        }
    }
    let ghost old_out = out@;
    if start < i {
        let tok = vstd::slice::slice_to_vec(vstd::slice::slice_subrange(s, start, i));
        out.push(tok);
    }
    assert(views(out@) =~= views(old_out) + tokens_from(s@, start as int, i as int));
    out
}

fn header_value(ls: &Vec<Vec<u8>>, prefix: &[u8]) -> (r: Vec<u8>)
    ensures
        r@ == header_from(views(ls@), 1, prefix@),
{
    let mut k: usize = 1;
    while k < ls.len()
        invariant
            1 <= k,
            header_from(views(ls@), 1, prefix@) == header_from(views(ls@), k as int, prefix@),
        decreases ls.len() - k,
    {
        let line = &ls[k];
        if starts_with(line.as_slice(), prefix) {
            return vstd::slice::slice_to_vec(
                vstd::slice::slice_subrange(line.as_slice(), prefix.len(), line.len()),
            );
        }
        k += 1;
    }
    Vec::new()
}

fn method_from(t: &[u8]) -> (r: Method)
    ensures
        r == method_of(t@),
{
    proof {
        reveal_strlit("GET");
        reveal_strlit("POST");
    }
    let get = lit("GET");
    let post = lit("POST");
    assert(t@.subrange(0, t@.len() as int) =~= t@);
    if t.len() == get.len() && starts_with(t, get) {
        Method::Get
    } else if t.len() == post.len() && starts_with(t, post) {
        Method::Post
    } else {
        Method::Other
    }
}

/// Parses the bytes of one request: the request line, the `Host`, `User-Agent`
/// and `Accept-Encoding` headers, and for `POST` the body after the blank line.
pub fn parse_request(req: &[u8]) -> (r: Result<HttpRequest, ParseError>)
    ensures
        match r {
            Ok(q) => parse(req@) == Some(q@),
            Err(e) => parse(req@) is None && e == ParseError::Malformed,
        },
{
    let blank = find_blank_line(req);
    let head_end = match blank {
        Some(p) => p,
        None => req.len(),
    };
    let head_bytes = vstd::slice::slice_subrange(req, 0, head_end);
    assert(head_bytes@ =~= head(req@));
    let ls = split_lines(head_bytes);
    proof {
        lemma_lines_nonempty(head_bytes@, 0, 0);
    }
    let toks = split_tokens(ls[0].as_slice());
    if toks.len() != 3 || toks[1].len() == 0 || toks[1][0] != 47 {
        return Err(ParseError::Malformed);
    }
    let method = method_from(toks[0].as_slice());
    let body = match method {
        Method::Post => match blank {
            Some(p) => {
                let n = req.len();
                assert(p + 4 <= n);
                vstd::slice::slice_to_vec(vstd::slice::slice_subrange(req, p + 4, n))
            },
            None => {
                return Err(ParseError::Malformed);
            },
        },
        _ => Vec::new(),
    };
    proof {
        reveal_strlit("Host: ");
        reveal_strlit("User-Agent: ");
        reveal_strlit("Accept-Encoding: ");
    }
    let host = header_value(&ls, lit("Host: "));
    let user_agent = header_value(&ls, lit("User-Agent: "));
    let accept_encoding = header_value(&ls, lit("Accept-Encoding: "));
    let q = HttpRequest { method, path: toks[1].clone(), host, user_agent, accept_encoding, body };
    proof {
        let m = parse(req@).unwrap();
        assert(q@.body =~= m.body);
        assert(q@.path =~= m.path);
    }
    Ok(q)
}

pub open spec fn is_digit(b: u8) -> bool {
    48 <= b <= 57
}

pub open spec fn all_digits(s: Seq<u8>) -> bool {
    forall|i: int| 0 <= i < s.len() ==> is_digit(#[trigger] s[i])
}

/// The number that the decimal digits `s` write.
pub open spec fn digits_value(s: Seq<u8>) -> nat
    decreases s.len(),
{
    if s.len() == 0 {
        0
    } else {
        digits_value(s.drop_last()) * 10 + (s.last() - 48) as nat
    }
}

/// The body length that a `Content-Length` value declares: the number where
/// the value is decimal digits, zero otherwise.
pub open spec fn length_value(v: Seq<u8>) -> nat {
    if v.len() > 0 && all_digits(v) {
        digits_value(v)
    } else {
        0
    }
}

/// `s` holds a whole request: its blank line and as many body bytes after it
/// as its `Content-Length` header declares.
pub open spec fn complete(s: Seq<u8>) -> bool {
    match blank_line_from(s, 0) {
        None => false,
        Some(p) => p + 4 + length_value(header(s, ascii("Content-Length: "@))) <= s.len(),
    }
}

proof fn lemma_digits_prefix(s: Seq<u8>, k: int)
    requires
        all_digits(s),
        0 <= k <= s.len(),
    ensures
        digits_value(s.subrange(0, k)) <= digits_value(s),
    decreases s.len(),
{
    if k < s.len() {
        let t = s.drop_last();
        assert(t.subrange(0, k) =~= s.subrange(0, k));
        lemma_digits_prefix(t, k);
    } else {
        assert(s.subrange(0, k) =~= s);
    }
}

/// Whether the `Content-Length` value `v` declares at most `avail` bytes.
fn length_within(v: &[u8], avail: usize) -> (r: bool)
    ensures
        r == (length_value(v@) <= avail),
{
    let mut i: usize = 0;
    while i < v.len()
        invariant
            i <= v.len(),
            forall|j: int| 0 <= j < i ==> is_digit(#[trigger] v@[j]),
        decreases v.len() - i,
    {
        if v[i] < 48 || v[i] > 57 {
            return true;
        }
        i += 1;
    }
    let mut acc: u128 = 0;
    let mut k: usize = 0;
    while k < v.len()
        invariant
            all_digits(v@),
            k <= v.len(),
            acc == digits_value(v@.subrange(0, k as int)),
            acc <= avail,
        decreases v.len() - k,
    {
        assert(v@.subrange(0, k + 1).drop_last() =~= v@.subrange(0, k as int));
        assert(is_digit(v@[k as int]));
        acc = acc * 10 + (v[k] - 48) as u128;
        k += 1;
        if acc > avail as u128 {
            proof {
                lemma_digits_prefix(v@, k as int);
            }
            return false;
        }
    }
    assert(v@.subrange(0, k as int) =~= v@);
    true
}

/// Whether `buf` holds a whole request, so that reading can stop.
pub fn request_complete(buf: &[u8]) -> (r: bool)
    ensures
        r == complete(buf@),
{
    match find_blank_line(buf) {
        None => false,
        Some(p) => {
            let head_bytes = vstd::slice::slice_subrange(buf, 0, p);
            assert(head_bytes@ =~= head(buf@));
            let ls = split_lines(head_bytes);
            proof {
                reveal_strlit("Content-Length: ");
            }
            let v = header_value(&ls, lit("Content-Length: "));
            length_within(v.as_slice(), buf.len() - (p + 4))
        },
    }
}

} // verus!
