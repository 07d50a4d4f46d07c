//! Rewriting of buffered HTML responses: stylesheet links are marked as
//! hot-swap targets and the loader script is appended to the document head.

use vstd::prelude::*;
use vstd::string::*;
use vstd::utf8::valid_utf8;
use crate::dispatch::{endpoint, script_path, SCRIPT_ENDPOINT};
use crate::error::Error;
use crate::message::{content, content_type_name, first_value, header_value, remove_header};
use crate::message::{removed_header_is_gone, starts_with, without};
use crate::message::{HeaderView, Header, Response, ResponseView};
use lol_html::html_content::{ContentType, Element};
use lol_html::{ElementContentHandlers, HtmlRewriter, Settings};
use std::borrow::Cow;

verus! {

/// The selector of the elements that are marked.
pub const STYLESHEET_SELECTOR: &'static str = "link[rel=stylesheet]";

/// The attribute that marks a stylesheet link as a hot-swap target.
pub const MARKER_NAME: &'static str = "is";

/// The value of the marker attribute.
pub const MARKER_VALUE: &'static str = "cool-stylesheet";

/// The selector of the element that receives the loader script.
pub const HEAD_SELECTOR: &'static str = "head";

/// The name of the header that is dropped once a body was rewritten.
pub open spec fn content_length_name() -> Seq<u8> {
    "content-length".spec_bytes()
}

/// What an HTML content type begins with.
pub open spec fn html_prefix() -> Seq<u8> {
    "text/html".spec_bytes()
}

/// A header list announces HTML when its first content type begins with
/// `text/html`.
pub open spec fn announces_html(headers: Seq<HeaderView>) -> bool {
    match first_value(headers, content_type_name()) {
        Some(v) => html_prefix().is_prefix_of(v),
        None => false,
    }
}

/// The loader element for the reserved prefix `base`: a module script whose
/// source is the path of the client script.
pub open spec fn script_tag_text(base: Seq<char>) -> Seq<char> {
    "<script type=\"module\" src=\""@ + script_path(base) + "\"></script>"@
}

/// The output of the HTML rewriter on `body` when it sets the attribute `attr`
/// to `value` on every element that `marked` selects and appends `tail` to the
/// content of every element that `host` selects; `None` when a selector does
/// not parse or the rewriter reports an error.
pub uninterp spec fn rewritten_html(
    body: Seq<u8>,
    marked: Seq<char>,
    attr: Seq<char>,
    value: Seq<char>,
    host: Seq<char>,
    tail: Seq<char>,
) -> Option<Seq<u8>>;

/// What becomes of a response once the rewriter has returned.
pub open spec fn finished(response: ResponseView, rewritten: Option<Seq<u8>>) -> Result<
    ResponseView,
    Error,
> {
    match rewritten {
        None => Err(Error::Rewrite),
        Some(out) => if valid_utf8(out) {
            Ok(
                ResponseView {
                    status: response.status,
                    headers: without(response.headers, content_length_name()),
                    body: out,
                },
            )
        } else {
            Err(Error::Encoding)
        },
    }
}

/// What the injector returns for a response and a reserved prefix.
pub open spec fn injected(response: ResponseView, base: Seq<char>) -> Result<ResponseView, Error> {
    if announces_html(response.headers) {
        finished(
            response,
            rewritten_html(
                response.body,
                STYLESHEET_SELECTOR@,
                MARKER_NAME@,
                MARKER_VALUE@,
                HEAD_SELECTOR@,
                script_tag_text(base),
            ),
        )
    } else {
        Ok(response)
    }
}

/// Runs `lol_html::HtmlRewriter` with default settings over `body` in one
/// write, with two element handlers: `Element::set_attribute(attr, value)` on
/// the elements that `marked` selects and `Element::append(tail, Html)` on
/// those that `host` selects. The contract only names the collected output;
/// a selector that does not parse and an error of the rewriter both give
/// `None`.
#[verifier::external_body]
fn rewrite_html(body: &[u8], marked: &str, attr: &str, value: &str, host: &str, tail: &str) -> (r:
    Option<Vec<u8>>)
    ensures
        content(r) == rewritten_html(body@, marked@, attr@, value@, host@, tail@),
{
    let mut out = Vec::new();
    let mark = |el: &mut Element| Ok(el.set_attribute(attr, value)?);
    let grow = |el: &mut Element| Ok(el.append(tail, ContentType::Html));
    let a = (Cow::Owned(marked.parse().ok()?), ElementContentHandlers::default().element(mark));
    let b = (Cow::Owned(host.parse().ok()?), ElementContentHandlers::default().element(grow));
    let settings = Settings { element_content_handlers: vec![a, b], ..Settings::default() };
    let mut rewriter = HtmlRewriter::new(settings, |c: &[u8]| out.extend_from_slice(c));
    rewriter.write(body).ok()?;
    rewriter.end().ok()?;
    Some(out)
}

/// Whether `std::str::from_utf8` accepts the bytes, which it does exactly
/// when they are well-formed UTF-8.
#[verifier::external_body]
fn is_utf8(bytes: &[u8]) -> (r: bool)
    ensures
        r == valid_utf8(bytes@),
{
    std::str::from_utf8(bytes).is_ok()
}

/// Builds the loader element that is appended to the document head.
pub fn script_tag(base: &str) -> (r: String)
    ensures
        r@ == script_tag_text(base@),
{
    let mut tag = String::from_str("<script type=\"module\" src=\"");
    tag.append(endpoint(base, SCRIPT_ENDPOINT).as_str());
    tag.append("\"></script>");
    tag
}

/// Tells whether a header list announces an HTML body.
pub fn is_html(headers: &Vec<Header>) -> (r: bool)
    ensures
        r == announces_html(crate::message::views(headers@)),
{
    match header_value(headers, "content-type".as_bytes()) {
        Some(v) => starts_with(v.as_slice(), "text/html".as_bytes()),
        None => false,
    }
}

/// Completes a rewrite from what the rewriter returned: a failed rewrite and
/// an output that is not UTF-8 text fail the request; otherwise the output
/// replaces the body and the stale content length is dropped.
pub fn finish_rewrite(response: Response, rewritten: Option<Vec<u8>>) -> (r: Result<
    Response,
    Error,
>)
    ensures
        match r {
            Ok(out) => finished(response@, content(rewritten)) == Ok::<
                ResponseView,
                Error,
            >(out@),
            Err(e) => finished(response@, content(rewritten)) == Err::<
                ResponseView,
                Error,
            >(e),
        },
{
    match rewritten {
        None => Err(Error::Rewrite),
        Some(out) => {
            if is_utf8(out.as_slice()) {
                let headers = remove_header(&response.headers, "content-length".as_bytes());
                Ok(Response { status: response.status, headers, body: out })
            } else {
                Err(Error::Encoding)
            }
        },
    }
}

/// Rewrites a buffered response if, and only if, it announces HTML. Any other
/// response is handed back as it came. The result is a function of the
/// response and the prefix alone.
pub fn inject(response: Response, base: &str) -> (r: Result<Response, Error>)
    ensures
        match r {
            Ok(out) => injected(response@, base@) == Ok::<ResponseView, Error>(out@),
            Err(e) => injected(response@, base@) == Err::<ResponseView, Error>(e),
        },
        !announces_html(response@.headers) ==> r == Ok::<Response, Error>(response),
{
    if !is_html(&response.headers) {
        return Ok(response);
    }
    let tag = script_tag(base);
    let rewritten = rewrite_html(
        response.body.as_slice(),
        STYLESHEET_SELECTOR,
        MARKER_NAME,
        MARKER_VALUE,
        HEAD_SELECTOR,
        tag.as_str(),
    );
    finish_rewrite(response, rewritten)
}

/// A response that does not announce HTML is relayed whole and untouched.
pub proof fn other_content_is_relayed(response: ResponseView, base: Seq<char>)
    requires
        !announces_html(response.headers),
    ensures
        injected(response, base) == Ok::<ResponseView, Error>(response),
{
}

/// Whenever a body was rewritten, the response keeps its status and carries
/// no content length any more, and its new body is valid UTF-8 text.
pub proof fn rewritten_has_no_length(response: ResponseView, base: Seq<char>)
    requires
        announces_html(response.headers),
        injected(response, base).is_ok(),
    ensures
        first_value(injected(response, base).unwrap().headers, content_length_name()).is_none(),
        injected(response, base).unwrap().status == response.status,
        valid_utf8(injected(response, base).unwrap().body),
{
    removed_header_is_gone(response.headers, content_length_name());
}

/// Rewriting is deterministic: two HTML responses with the same body bytes
/// are rewritten to the same body bytes, or fail alike, whatever else they
/// carry.
pub proof fn rewriting_is_deterministic(a: ResponseView, b: ResponseView, base: Seq<char>)
    requires
        announces_html(a.headers),
        announces_html(b.headers),
        a.body == b.body,
    ensures
        match (injected(a, base), injected(b, base)) {
            (Ok(x), Ok(y)) => x.body == y.body,
            (Err(e), Err(f)) => e == f,
            _ => false,
        },
{
}

} // verus!
