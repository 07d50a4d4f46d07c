//! Routing of request paths to the gateway's endpoints.

use vstd::prelude::*;
use vstd::string::*;
use crate::message::{content_type_name, copy_bytes, views};
use crate::message::{Header, HeaderView, Response, ResponseView};

verus! {

/// The content type of the client script.
pub const SCRIPT_TYPE: &'static str = "application/javascript";

/// Where a request goes.
#[derive(Clone, Copy, Debug, PartialEq, Eq, Structural)]
pub enum Route {
    /// The embedded client script.
    ClientScript,
    /// The stream of change events.
    Watch,
    /// The backend, then the injector.
    Fallback,
}

/// The endpoint of the client script under the reserved prefix.
pub const SCRIPT_ENDPOINT: &'static str = "/cool-stylesheet.js";

/// The endpoint of the change stream under the reserved prefix.
pub const WATCH_ENDPOINT: &'static str = "/watch";

/// The path of the client script under the reserved prefix.
pub open spec fn script_path(base: Seq<char>) -> Seq<char> {
    "/"@ + base + SCRIPT_ENDPOINT@
}

/// The path of the change stream under the reserved prefix.
pub open spec fn watch_path(base: Seq<char>) -> Seq<char> {
    "/"@ + base + WATCH_ENDPOINT@
}

/// The route of a path: the two reserved endpoints, and the fallback for
/// every other path.
pub open spec fn route_of(path: Seq<char>, base: Seq<char>) -> Route {
    if path == script_path(base) {
        Route::ClientScript
    } else if path == watch_path(base) {
        Route::Watch
    } else {
        Route::Fallback
    }
}

/// The response that carries the client script.
pub open spec fn script_view(asset: Seq<u8>) -> ResponseView {
    ResponseView {
        status: 200,
        headers: seq![HeaderView { name: content_type_name(), value: SCRIPT_TYPE.spec_bytes() }],
        body: asset,
    }
}

/// Writes the path of an endpoint under the reserved prefix.
pub fn endpoint(base: &str, name: &str) -> (r: String)
    ensures
        r@ == "/"@ + base@ + name@,
{
    let mut out = String::from_str("/");
    out.append(base);
    out.append(name);
    out
}

/// Routes the path of a `GET` request, given the reserved prefix.
pub fn classify(path: &str, base: &str) -> (r: Route)
    ensures
        r == route_of(path@, base@),
{
    let asked = String::from_str(path);
    if asked == endpoint(base, SCRIPT_ENDPOINT) {
        Route::ClientScript
    } else if asked == endpoint(base, WATCH_ENDPOINT) {
        Route::Watch
    } else {
        Route::Fallback
    }
}

/// Wraps the client script in its response: the asset's bytes as they are,
/// announced as JavaScript.
pub fn script_response(asset: Vec<u8>) -> (r: Response)
    ensures
        r@ == script_view(asset@),
{
    let h = Header {
        name: copy_bytes("content-type".as_bytes()),
        value: copy_bytes(SCRIPT_TYPE.as_bytes()),
    };
    let mut headers: Vec<Header> = Vec::new();
    headers.push(h);
    assert(views(headers@) =~= seq![h@]);
    Response { status: 200, headers, body: asset }
}

/// Under every prefix the two reserved paths reach their endpoints, and
/// the root path reaches the fallback.
pub proof fn reserved_paths_are_routed(base: Seq<char>)
    ensures
        route_of(script_path(base), base) == Route::ClientScript,
        route_of(watch_path(base), base) == Route::Watch,
        route_of("/"@, base) == Route::Fallback,
{
    reveal_strlit("/cool-stylesheet.js");
    reveal_strlit("/watch");
    reveal_strlit("/");
    assert(script_path(base).len() == base.len() + 20);
    assert(watch_path(base).len() == base.len() + 7);
    assert("/"@.len() == 1);
}

} // verus!
