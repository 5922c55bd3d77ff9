//! What the HTTP server answers. The server itself is the program's business; here is
//! what its endpoints check, change and reply.

use vstd::prelude::*;

use crate::json::{Json, JsonView, ObjectBuilder};
use crate::text::{cat, ends_with, from_chars, same, to_chars};
#[allow(unused_imports)]
use crate::text;

pub mod bootstrap;
pub mod browse;
pub mod health;
pub mod schedule_api;
pub mod upload;

verus! {

/// Why a request is not carried out: an HTTP status and a message.
#[derive(Debug)]
pub struct Refusal {
    pub status: u16,
    pub message: String,
}

/// 400 Bad Request.
pub const BAD_REQUEST: u16 = 400;

/// 401 Unauthorized.
pub const UNAUTHORIZED: u16 = 401;

/// 413 Payload Too Large.
pub const PAYLOAD_TOO_LARGE: u16 = 413;

/// The answer `{"ok": true}`, with more members behind it.
pub open spec fn ok_view(more: Seq<(Seq<char>, JsonView)>) -> JsonView {
    JsonView::Object(seq![("ok"@, JsonView::Bool(true))] + more)
}

/// Starts the answer `{"ok": true}`.
pub fn ok_answer() -> (r: ObjectBuilder)
    ensures
        r@ == seq![("ok"@, JsonView::Bool(true))],
{
    let b = ObjectBuilder::new().with_bool("ok", true);
    assert(b@ =~= seq![("ok"@, JsonView::Bool(true))]);
    b
}

// ----------------------------------------------------------------------- token

/// Whether a request may change anything: no token has been issued yet, or it brings
/// the one that was.
pub open spec fn admitted(issued: Option<Seq<char>>, brought: Option<Seq<char>>) -> bool {
    match issued {
        Some(t) => t.len() == 0 || (match brought {
            Some(b) => b == t,
            None => false,
        }),
        None => true,
    }
}

/// A header that a request brings, as text.
pub open spec fn header_text(h: Option<&str>) -> Option<Seq<char>> {
    match h {
        Some(s) => Some(s@),
        None => None,
    }
}

/// Whether `e` is the answer to a request without the token.
pub open spec fn is_unauthorized(e: Refusal) -> bool {
    e.status == UNAUTHORIZED && e.message@ == "missing or invalid X-Bootstrap-Token"@
}

/// Mutation guard. A page of any origin could drive the engine, so that writes have to
/// bring the token. Before one was issued there is nothing to protect.
pub fn require_token(issued: &Option<String>, brought: Option<&str>) -> (r: Result<(), Refusal>)
    ensures
        r is Ok <==> admitted(text::opt_text(*issued), header_text(brought)),
        r matches Err(e) ==> is_unauthorized(e),
{
    let expected: &str = match issued {
        Some(t) => t.as_str(),
        None => {
            return Ok(());
        },
    };
    if expected.unicode_len() == 0 {
        return Ok(());
    }
    let provided: &str = match brought {
        Some(b) => b,
        None => "",
    };
    proof {
        reveal_strlit("");
    }
    if !same(provided, expected) {
        return Err(
            Refusal {
                status: UNAUTHORIZED,
                message: "missing or invalid X-Bootstrap-Token".to_string(),
            },
        );
    }
    Ok(())
}

/// Once a token has been issued, a request gets through with that token and with
/// nothing else.
pub proof fn only_the_token_admits(token: Seq<char>, brought: Option<Seq<char>>)
    requires
        token.len() > 0,
    ensures
        admitted(Some(token), brought) <==> brought == Some(token),
{
}

// ---------------------------------------------------------------------- assets

/// The content type of a file, by its extension.
pub open spec fn mime_of(path: Seq<char>) -> Seq<char> {
    if text::has_suffix(path, ".html"@) || text::has_suffix(path, ".htm"@) {
        "text/html; charset=utf-8"@
    } else if text::has_suffix(path, ".js"@) || text::has_suffix(path, ".mjs"@) {
        "text/javascript; charset=utf-8"@
    } else if text::has_suffix(path, ".css"@) {
        "text/css; charset=utf-8"@
    } else if text::has_suffix(path, ".json"@) {
        "application/json; charset=utf-8"@
    } else if text::has_suffix(path, ".svg"@) {
        "image/svg+xml"@
    } else if text::has_suffix(path, ".png"@) {
        "image/png"@
    } else if text::has_suffix(path, ".ico"@) {
        "image/x-icon"@
    } else {
        "application/octet-stream"@
    }
}

/// The content type of a file, by its extension: the bundled pages are served from
/// memory, where nothing else tells it.
pub fn mime_for(path: &str) -> (r: &'static str)
    ensures
        r@ == mime_of(path@),
{
    if ends_with(path, ".html") || ends_with(path, ".htm") {
        "text/html; charset=utf-8"
    } else if ends_with(path, ".js") || ends_with(path, ".mjs") {
        "text/javascript; charset=utf-8"
    } else if ends_with(path, ".css") {
        "text/css; charset=utf-8"
    } else if ends_with(path, ".json") {
        "application/json; charset=utf-8"
    } else if ends_with(path, ".svg") {
        "image/svg+xml"
    } else if ends_with(path, ".png") {
        "image/png"
    } else if ends_with(path, ".ico") {
        "image/x-icon"
    } else {
        "application/octet-stream"
    }
}

/// A path without the slashes in front.
pub open spec fn without_slashes(path: Seq<char>) -> Seq<char>
    decreases path.len(),
{
    if path.len() > 0 && path[0] == '/' {
        without_slashes(path.skip(1))
    } else {
        path
    }
}

/// The file that a path of a bundled page stands for: `index.html` where it names none.
pub open spec fn asset_of(path: Seq<char>) -> Seq<char> {
    let p = without_slashes(path);
    if p.len() == 0 || p.last() == '/' {
        p + "index.html"@
    } else {
        p
    }
}

/// The file that a path of a bundled page stands for.
pub fn asset_path(path: &str) -> (r: String)
    ensures
        r@ == asset_of(path@),
{
    let v = to_chars(path);
    let mut from: usize = 0;
    assert(v@.skip(0) =~= v@);
    while from < v.len() && v[from] == '/'
        invariant
            from <= v@.len(),
            v@ == path@,
            without_slashes(path@) == without_slashes(v@.skip(from as int)),
        decreases v@.len() - from,
    {
        assert(v@.skip(from as int).skip(1) =~= v@.skip(from + 1));
        from = from + 1;
    }
    let ghost rest = v@.skip(from as int);
    assert(without_slashes(path@) == rest);
    let p = from_chars(&v, from, v.len());
    assert(p@ =~= rest);
    if from == v.len() || v[v.len() - 1] == '/' {
        assert(from < v.len() ==> rest.last() == v@.last());
        cat(p.as_str(), "index.html")
    } else {
        assert(rest.last() == v@.last());
        p
    }
}

} // verus!
