use vstd::prelude::*;
use crate::bytes::has_prefix;
use crate::encoding::{gzip_of, gzip_text_model, wants_gzip};
use crate::request::{Method, RequestModel};
use crate::response::{bare, not_found_model, ok_reason, text_plain, with_body};
use crate::router::{
    after_prefix, echo_prefix, escapes, files_prefix, join, read_model, root_path, route_spec,
    serve, user_agent_path, write_model, ActionModel,
};

verus! {

proof fn lemma_after_prefix(p: Seq<u8>, s: Seq<u8>)
    ensures
        has_prefix(p + s, p),
        after_prefix(p + s, p) == s,
{
    assert((p + s).subrange(0, p.len() as int) =~= p);
    assert(after_prefix(p + s, p) =~= s);
}

proof fn lemma_file_path_routes(path: Seq<u8>, name: Seq<u8>)
    requires
        path == files_prefix() + name,
    ensures
        path != root_path(),
        !has_prefix(path, echo_prefix()),
        path != user_agent_path(),
        has_prefix(path, files_prefix()),
        after_prefix(path, files_prefix()) == name,
{
    reveal_strlit("/files/");
    reveal_strlit("/echo/");
    reveal_strlit("/");
    reveal_strlit("/user-agent");
    lemma_after_prefix(files_prefix(), name);
    assert(path[1] == files_prefix()[1]);
    assert(path.len() != root_path().len());
    if has_prefix(path, echo_prefix()) {
        assert(path.subrange(0, 6)[1] == path[1]);
    }
    if path == user_agent_path() {
        assert(user_agent_path()[1] != files_prefix()[1]);
    }
}

/// `GET /echo/<s>` without gzip in `Accept-Encoding` answers `200 OK` with
/// `Content-Type: text/plain`, `Content-Length` the length of `s`, and body `s`.
pub proof fn lemma_echo_plain(q: RequestModel, s: Seq<u8>, root: Seq<u8>)
    requires
        q.method == Method::Get,
        q.path == echo_prefix() + s,
        !wants_gzip(q.accept_encoding),
    ensures
        route_spec(q, root) == ActionModel::Respond(with_body(200, ok_reason(), text_plain(), s)),
{
    reveal_strlit("/echo/");
    reveal_strlit("/");
    lemma_after_prefix(echo_prefix(), s);
    assert(q.path.len() != root_path().len());
}

/// `GET /echo/<s>` with gzip in `Accept-Encoding` answers `200 OK` with
/// `Content-Encoding: gzip` and the gzip stream of `s` as body.
pub proof fn lemma_echo_gzip(q: RequestModel, s: Seq<u8>, root: Seq<u8>)
    requires
        q.method == Method::Get,
        q.path == echo_prefix() + s,
        wants_gzip(q.accept_encoding),
    ensures
        route_spec(q, root) == ActionModel::Respond(gzip_text_model(gzip_of(s))),
{
    reveal_strlit("/echo/");
    reveal_strlit("/");
    lemma_after_prefix(echo_prefix(), s);
    assert(q.path.len() != root_path().len());
}

/// `GET /` answers `200 OK` with no headers and an empty body, whatever the
/// request's headers.
pub proof fn lemma_root_probe(q: RequestModel, root: Seq<u8>)
    requires
        q.method == Method::Get,
        q.path == root_path(),
    ensures
        route_spec(q, root) == ActionModel::Respond(bare(200, ok_reason())),
{
}

/// Storing `body` under `name` with `POST /files/<name>` answers `201 Created`,
/// and a following `GET /files/<name>` answers `200 OK` with exactly `body`.
pub proof fn lemma_write_then_read(
    store: Map<Seq<u8>, Seq<u8>>,
    root: Seq<u8>,
    name: Seq<u8>,
    post: RequestModel,
    get: RequestModel,
)
    requires
        !escapes(name),
        post.method == Method::Post,
        post.path == files_prefix() + name,
        get.method == Method::Get,
        get.path == files_prefix() + name,
    ensures
        serve(store, root, post).0 == write_model(true),
        serve(serve(store, root, post).1, root, get).0 == read_model(Some(post.body)),
{
    lemma_file_path_routes(post.path, name);
    lemma_file_path_routes(get.path, name);
    let after = serve(store, root, post).1;
    assert(after == store.insert(join(root, name), post.body));
    assert(after.contains_key(join(root, name)));
}

/// `GET /files/<name>` answers `404 Not Found` where the store holds no file
/// at the path that `name` resolves to.
pub proof fn lemma_missing_file(
    store: Map<Seq<u8>, Seq<u8>>,
    root: Seq<u8>,
    name: Seq<u8>,
    get: RequestModel,
)
    requires
        !escapes(name),
        !store.contains_key(join(root, name)),
        get.method == Method::Get,
        get.path == files_prefix() + name,
    ensures
        serve(store, root, get) == (not_found_model(), store),
{
    lemma_file_path_routes(get.path, name);
}

} // verus!
