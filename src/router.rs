use vstd::prelude::*;
use crate::bytes::{ascii, has_prefix, lit, starts_with};
use crate::encoding::{accepts_gzip, gzip_of, gzip_text, gzip_text_model, wants_gzip};
use crate::request::{parse, parse_request, HttpRequest, Method, RequestModel};
use crate::response::{
    bare, length_agrees, not_found_model, octet_stream, ok_reason, text_plain, with_body,
    Response, ResponseModel,
};

verus! {

/// Where files are stored: the directory that `/files/` names are joined to.
/// It is set once at startup and only read afterwards.
#[derive(Clone, Debug)]
pub struct StoreConfig {
    pub root: Vec<u8>,
}

/// What the server does with a request: answer at once, or first read or
/// write a file at a path and answer from the outcome.
#[derive(Clone, Debug)]
pub enum Action {
    Respond(Response),
    ReadFile(Vec<u8>),
    WriteFile(Vec<u8>, Vec<u8>),
}

pub enum ActionModel {
    Respond(ResponseModel),
    ReadFile(Seq<u8>),
    WriteFile(Seq<u8>, Seq<u8>),
}

impl View for Action {
    type V = ActionModel;

    open spec fn view(&self) -> ActionModel {
        match self {
            Action::Respond(r) => ActionModel::Respond(r@),
            Action::ReadFile(p) => ActionModel::ReadFile(p@),
            Action::WriteFile(p, c) => ActionModel::WriteFile(p@, c@),
        }
    }
}

pub open spec fn echo_prefix() -> Seq<u8> {
    ascii("/echo/"@)
}

pub open spec fn files_prefix() -> Seq<u8> {
    ascii("/files/"@)
}

pub open spec fn root_path() -> Seq<u8> {
    ascii("/"@)
}

pub open spec fn user_agent_path() -> Seq<u8> {
    ascii("/user-agent"@)
}

/// A `..` segment of `name` starts at `i` (bytes 46 `.` and 47 `/`).
pub open spec fn parent_segment_at(name: Seq<u8>, i: int) -> bool {
    0 <= i && i + 2 <= name.len() && name[i] == 46 && name[i + 1] == 46 && (i == 0 || name[i
        - 1] == 47) && (i + 2 == name.len() || name[i + 2] == 47)
}

/// `name` climbs out of the directory it is joined to.
pub open spec fn escapes(name: Seq<u8>) -> bool {
    exists|i: int| parent_segment_at(name, i)
}

/// `root` and `name` with exactly one `/` between them where `root` does not
/// already end with one.
pub open spec fn join(root: Seq<u8>, name: Seq<u8>) -> Seq<u8> {
    if root.len() > 0 && root.last() == 47 {
        root + name
    } else {
        root.push(47) + name
    }
}

/// The path of a stored file, or `None` for a name that would leave the root.
pub open spec fn store_path(root: Seq<u8>, name: Seq<u8>) -> Option<Seq<u8>> {
    if escapes(name) {
        None
    } else {
        Some(join(root, name))
    }
}

/// The reply to `/echo/<s>`: `s` as plain text, gzip-encoded where accepted.
pub open spec fn echo_model(s: Seq<u8>, accept: Seq<u8>) -> ResponseModel {
    if wants_gzip(accept) {
        gzip_text_model(gzip_of(s))
    } else {
        with_body(200, ok_reason(), text_plain(), s)
    }
}

pub open spec fn after_prefix(s: Seq<u8>, p: Seq<u8>) -> Seq<u8> {
    s.subrange(p.len() as int, s.len() as int)
}

/// The file action for `/files/<name>`, or `404` for a name that leaves the root.
pub open spec fn file_action(root: Seq<u8>, path: Seq<u8>, write: Option<Seq<u8>>) -> ActionModel {
    match store_path(root, after_prefix(path, files_prefix())) {
        None => ActionModel::Respond(not_found_model()),
        Some(p) => match write {
            Some(c) => ActionModel::WriteFile(p, c),
            None => ActionModel::ReadFile(p),
        },
    }
}

/// What the server does with a parsed request.
pub open spec fn route_spec(q: RequestModel, root: Seq<u8>) -> ActionModel {
    let path = q.path;
    match q.method {
        Method::Get => if path == root_path() {
            ActionModel::Respond(bare(200, ok_reason()))
        } else if has_prefix(path, echo_prefix()) {
            ActionModel::Respond(echo_model(after_prefix(path, echo_prefix()), q.accept_encoding))
        } else if path == user_agent_path() {
            ActionModel::Respond(with_body(200, ok_reason(), text_plain(), q.user_agent))
        } else if has_prefix(path, files_prefix()) {
            file_action(root, path, None)
        } else {
            ActionModel::Respond(not_found_model())
        },
        Method::Post => if has_prefix(path, files_prefix()) {
            file_action(root, path, Some(q.body))
        } else {
            ActionModel::Respond(not_found_model())
        },
        Method::Other => ActionModel::Respond(not_found_model()),
    }
}

/// The reply to a file read: the contents, or `404` where there is no file.
pub open spec fn read_model(contents: Option<Seq<u8>>) -> ResponseModel {
    match contents {
        Some(c) => with_body(200, ok_reason(), octet_stream(), c),
        None => not_found_model(),
    }
}

/// The reply to a file write: `201 Created`, or `500` where it failed.
pub open spec fn write_model(written: bool) -> ResponseModel {
    if written {
        with_body(201, ascii("Created"@), text_plain(), seq![])
    } else {
        with_body(500, ascii("Internal Server Error"@), text_plain(), seq![])
    }
}

/// Whether `name` holds a `..` segment.
pub fn has_parent_segment(name: &[u8]) -> (r: bool)
    ensures
        r == escapes(name@),
{
    let n = name.len();
    let mut i: usize = 0;
    while i < n
        invariant
            i <= n,
            n == name@.len(),
            forall|j: int| 0 <= j < i ==> !parent_segment_at(name@, j),
        decreases n - i,
    {
        if i + 1 < n && name[i] == 46 && name[i + 1] == 46 && (i == 0 || name[i - 1] == 47) && (i + 2 == n
            || name[i + 2] == 47) {
            assert(parent_segment_at(name@, i as int));
            return true;
        }
        i += 1;
    }
    false
}

/// The path of the stored file `name` under `root`, or `None` where `name`
/// would leave it.
pub fn resolve_path(root: &[u8], name: &[u8]) -> (r: Option<Vec<u8>>)
    ensures
        match r {
            Some(p) => store_path(root@, name@) == Some(p@),
            None => store_path(root@, name@) is None,
        },
{
    if has_parent_segment(name) {
        return None;
    }
    let mut p = vstd::slice::slice_to_vec(root);
    if root.len() == 0 || root[root.len() - 1] != 47 {
        p.push(47);
    }
    crate::bytes::push_all(&mut p, name);
    Some(p)
}

/// The reply to `/echo/<s>`.
pub fn echo_response(s: Vec<u8>, accept: &[u8]) -> (r: Response)
    ensures
        r@ == echo_model(s@, accept@),
        length_agrees(r@),
{
    if accepts_gzip(accept) {
        gzip_text(s.as_slice())
    } else {
        proof {
            reveal_strlit("OK");
            reveal_strlit("text/plain");
        }
        Response::with_content(200, lit("OK"), lit("text/plain"), s)
    }
}

fn file_route(root: &[u8], path: &[u8], write: Option<Vec<u8>>) -> (r: Action)
    requires
        has_prefix(path@, files_prefix()),
    ensures
        r@ == file_action(root@, path@, match write {
            Some(c) => Some(c@),
            None => None,
        }),
        match r@ {
            ActionModel::Respond(m) => length_agrees(m),
            _ => true,
        },
{
    proof {
        reveal_strlit("/files/");
    }
    let name = vstd::slice::slice_subrange(path, 7, path.len());
    match resolve_path(root, name) {
        None => Action::Respond(Response::not_found()),
        Some(p) => match write {
            Some(c) => Action::WriteFile(p, c),
            None => Action::ReadFile(p),
        },
    }
}

/// Decides what to do with a parsed request.
pub fn route(req: &HttpRequest, config: &StoreConfig) -> (r: Action)
    ensures
        r@ == route_spec(req@, config.root@),
        match r@ {
            ActionModel::Respond(m) => length_agrees(m),
            _ => true,
        },
{
    proof {
        reveal_strlit("/");
        reveal_strlit("/echo/");
        reveal_strlit("/files/");
        reveal_strlit("/user-agent");
        reveal_strlit("OK");
        reveal_strlit("text/plain");
    }
    let path = req.path.as_slice();
    match req.method {
        Method::Get => {
            if path.len() == 1 && path[0] == 47 {
                assert(path@ =~= root_path());
                Action::Respond(Response::ok_empty())
            } else if starts_with(path, lit("/echo/")) {
                assert(path@ != root_path());
                let s = vstd::slice::slice_to_vec(vstd::slice::slice_subrange(path, 6, path.len()));
                Action::Respond(echo_response(s, req.accept_encoding.as_slice()))
            } else if path.len() == 11 && starts_with(path, lit("/user-agent")) {
                assert(path@ =~= path@.subrange(0, 11));
                assert(path@ != root_path());
                let r = Response::with_content(200, lit("OK"), lit("text/plain"), req.user_agent.clone());
                Action::Respond(r)
            } else if starts_with(path, lit("/files/")) {
                assert(path@ != root_path());
                assert(path@ != user_agent_path()) by {
                    if path@ == user_agent_path() {
                        assert(path@.subrange(0, 11) =~= path@);
                    }
                }
                file_route(config.root.as_slice(), path, None)
            } else {
                Action::Respond(Response::not_found())
            }
        },
        Method::Post => {
            if starts_with(path, lit("/files/")) {
                file_route(config.root.as_slice(), path, Some(req.body.clone()))
            } else {
                Action::Respond(Response::not_found())
            }
        },
        Method::Other => Action::Respond(Response::not_found()),
    }
}

/// The reply once a file read is done: `Some` with the contents of a regular
/// file, or `None` where there is none.
pub fn read_response(contents: Option<Vec<u8>>) -> (r: Response)
    ensures
        r@ == read_model(match contents {
            Some(c) => Some(c@),
            None => None,
        }),
        length_agrees(r@),
{
    proof {
        reveal_strlit("OK");
        reveal_strlit("application/octet-stream");
    }
    match contents {
        Some(c) => Response::with_content(200, lit("OK"), lit("application/octet-stream"), c),
        None => Response::not_found(),
    }
}

/// The reply once a file write is done, from whether it succeeded.
pub fn write_response(written: bool) -> (r: Response)
    ensures
        r@ == write_model(written),
        length_agrees(r@),
{
    proof {
        reveal_strlit("Created");
        reveal_strlit("Internal Server Error");
        reveal_strlit("text/plain");
    }
    if written {
        Response::with_content(201, lit("Created"), lit("text/plain"), Vec::new())
    } else {
        Response::with_content(500, lit("Internal Server Error"), lit("text/plain"), Vec::new())
    }
}

/// What to do with the bytes of one request: `None` where they are malformed
/// and the connection is closed without a reply.
pub fn handle_request(raw: &[u8], config: &StoreConfig) -> (r: Option<Action>)
    ensures
        match parse(raw@) {
            None => r is None,
            Some(q) => r is Some && r.unwrap()@ == route_spec(q, config.root@),
        },
{
    match parse_request(raw) {
        Ok(q) => Some(route(&q, config)),
        Err(_) => None,
    }
}

/// One request served against a store that maps paths to contents, where
/// every write succeeds: the reply and the store afterwards.
pub open spec fn serve(store: Map<Seq<u8>, Seq<u8>>, root: Seq<u8>, q: RequestModel) -> (
    ResponseModel,
    Map<Seq<u8>, Seq<u8>>,
) {
    match route_spec(q, root) {
        ActionModel::Respond(r) => (r, store),
        ActionModel::ReadFile(p) => (
            read_model(
                if store.contains_key(p) {
                    Some(store[p])
                } else {
                    None
                },
            ),
            store,
        ),
        ActionModel::WriteFile(p, c) => (write_model(true), store.insert(p, c)),
    }
}

} // verus!
