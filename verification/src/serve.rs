//! The static directory backend: which file answers a request path, and what
//! response the file, or its absence, becomes.

use vstd::prelude::*;
use vstd::string::*;
use vstd::utf8::encode_utf8;
use crate::message::{content, content_type_name, copy_bytes, first_value};
use crate::message::{Header, HeaderView, Response, ResponseView};
use crate::paths::{ends_with_slash, is_directory, join_path, joined_path, stripped};
use crate::paths::{text, trim_leading_slashes};

verus! {

/// The file that is served for a directory.
pub const INDEX_FILE: &'static str = "index.html";

/// What is appended to a guessed media type.
pub const CHARSET_SUFFIX: &'static str = "; charset=utf-8";

/// The file under `root` that answers the request path `path`.
pub open spec fn target_of(root: Seq<char>, path: Seq<char>) -> Seq<char> {
    let file = joined_path(root, stripped(path));
    if is_directory(path) {
        joined_path(file, INDEX_FILE@)
    } else {
        file
    }
}

/// The media type that the extension of `path` stands for, if it is a known
/// one.
pub uninterp spec fn guessed_mime(path: Seq<char>) -> Option<Seq<char>>;

/// The content type that is sent for a media type.
pub open spec fn typed(mime: Seq<char>) -> Seq<u8> {
    encode_utf8(mime) + CHARSET_SUFFIX.spec_bytes()
}

/// The response for a file's content type and contents, either of which may
/// be missing.
pub open spec fn served(content_type: Option<Seq<u8>>, contents: Option<Seq<u8>>) -> ResponseView {
    if content_type.is_some() && contents.is_some() {
        ResponseView {
            status: 200,
            headers: seq![HeaderView { name: content_type_name(), value: content_type.unwrap() }],
            body: contents.unwrap(),
        }
    } else {
        ResponseView { status: 404, headers: Seq::empty(), body: Seq::empty() }
    }
}

/// `mime_guess::from_path(path).first()`, the media type rendered as text.
/// The contract only names the result.
#[verifier::external_body]
fn guess_mime(path: &str) -> (r: Option<String>)
    ensures
        text(r) == guessed_mime(path@),
{
    mime_guess::from_path(path).first().map(|m| m.to_string())
}

/// A file to read and the content type to send with it.
#[derive(Clone, Debug, PartialEq, Eq)]
pub struct StaticPlan {
    pub file: String,
    pub content_type: Vec<u8>,
}

/// Maps a request path onto a file under `root`. Leading slashes are dropped
/// before the path is adjoined, and a path that ends in a slash names the
/// index file of that directory.
pub fn static_target(root: &str, path: &str) -> (r: String)
    ensures
        r@ == target_of(root@, path@),
{
    let file = join_path(root, trim_leading_slashes(path));
    if ends_with_slash(path) {
        join_path(file.as_str(), INDEX_FILE)
    } else {
        file
    }
}

/// Builds the content type for a media type.
pub fn content_type_for(mime: &str) -> (r: Vec<u8>)
    ensures
        r@ == typed(mime@),
{
    let mut out = copy_bytes(mime.as_bytes());
    let suffix = CHARSET_SUFFIX.as_bytes();
    let ghost head = out@;
    let mut i: usize = 0;
    while i < suffix.len()
        invariant
            i <= suffix@.len(),
            out@ == head + suffix@.subrange(0, i as int),
        decreases suffix@.len() - i,
    {
        out.push(suffix[i]);
        i += 1;
        assert(out@ =~= head + suffix@.subrange(0, i as int));
    }
    assert(suffix@.subrange(0, suffix@.len() as int) =~= suffix@);
    out
}

/// Pairs a target file with the content type to send for it; there is no
/// plan for a file whose extension stands for no media type.
pub fn plan_for(file: String, mime: Option<String>) -> (r: Option<StaticPlan>)
    ensures
        r.is_some() == mime.is_some(),
        r.is_some() ==> r.unwrap().file == file && r.unwrap().content_type@ == typed(
            mime.unwrap()@,
        ),
{
    match mime {
        Some(m) => Some(StaticPlan { file, content_type: content_type_for(m.as_str()) }),
        None => None,
    }
}

/// Whether `r` is the plan for the request path `path` under `root`: the
/// target file with its content type, or nothing when the file's extension
/// stands for no media type.
pub open spec fn plans(root: Seq<char>, path: Seq<char>, r: Option<StaticPlan>) -> bool {
    let file = target_of(root, path);
    match guessed_mime(file) {
        Some(mime) => r.is_some() && r.unwrap().file@ == file && r.unwrap().content_type@
            == typed(mime),
        None => r.is_none(),
    }
}

/// Decides what to read for a request path: the target file and its content
/// type, or nothing when the file's extension stands for no media type.
pub fn plan_static(root: &str, path: &str) -> (r: Option<StaticPlan>)
    ensures
        plans(root@, path@, r),
{
    let file = static_target(root, path);
    let mime = guess_mime(file.as_str());
    plan_for(file, mime)
}

/// Builds the response of the static backend once the file has been read, or
/// could not be: status 200 with the content type and the file's bytes when
/// both are there, and a bare 404 otherwise.
pub fn static_response(content_type: Option<Vec<u8>>, contents: Option<Vec<u8>>) -> (r: Response)
    ensures
        r@ == served(content(content_type), content(contents)),
{
    match (content_type, contents) {
        (Some(value), Some(body)) => {
            let name = copy_bytes("content-type".as_bytes());
            let h = Header { name, value };
            let mut headers: Vec<Header> = Vec::new();
            headers.push(h);
            assert(crate::message::views(headers@) =~= seq![h@]);
            Response { status: 200, headers, body }
        },
        _ => {
            let headers: Vec<Header> = Vec::new();
            assert(crate::message::views(headers@) =~= Seq::empty());
            Response { status: 404, headers, body: Vec::new() }
        },
    }
}

/// A file that is there and has a known media type is served with status 200
/// and a content type that ends in the charset suffix; any other request is
/// answered with status 404.
pub proof fn static_status_law(mime: Option<Seq<char>>, contents: Option<Seq<u8>>)
    ensures
        ({
            let content_type = match mime {
                Some(m) => Some(typed(m)),
                None => None,
            };
            let r = served(content_type, contents);
            let suffix = CHARSET_SUFFIX.spec_bytes();
            &&& (r.status == 200 || r.status == 404)
            &&& r.status == 200 <==> mime.is_some() && contents.is_some()
            &&& r.status == 200 ==> {
                let v = first_value(r.headers, content_type_name());
                &&& v.is_some()
                &&& v.unwrap().len() >= suffix.len()
                &&& v.unwrap().subrange(v.unwrap().len() - suffix.len(), v.unwrap().len() as int)
                    == suffix
                &&& r.body == contents.unwrap()
            }
        }),
{
    if mime.is_some() && contents.is_some() {
        let suffix = CHARSET_SUFFIX.spec_bytes();
        let value = typed(mime.unwrap());
        let r = served(Some(value), contents);
        assert(crate::message::same_name(content_type_name(), content_type_name()));
        assert(first_value(r.headers, content_type_name()) == Some(value));
        assert(value.subrange(value.len() - suffix.len(), value.len() as int) =~= suffix);
    }
}

/// A file served as `text/html` announces HTML, so its body goes through
/// the injector.
pub proof fn served_html_is_announced(contents: Seq<u8>)
    ensures
        crate::inject::announces_html(served(Some(typed("text/html"@)), Some(contents)).headers),
{
    let value = typed("text/html"@);
    let r = served(Some(value), Some(contents));
    assert(crate::message::same_name(content_type_name(), content_type_name()));
    assert(first_value(r.headers, content_type_name()) == Some(value));
    assert(value.subrange(0, crate::inject::html_prefix().len() as int)
        =~= crate::inject::html_prefix());
}

/// The two header names that the pipeline reads and drops are different
/// names.
proof fn lemma_type_is_not_length()
    ensures
        !crate::message::same_name(content_type_name(), crate::inject::content_length_name()),
{
    reveal_strlit("content-type");
    reveal_strlit("content-length");
    assert(vstd::utf8::is_ascii_chars("content-type"@));
    assert(vstd::utf8::is_ascii_chars("content-length"@));
    vstd::utf8::is_ascii_chars_encode_utf8("content-type"@);
    vstd::utf8::is_ascii_chars_encode_utf8("content-length"@);
    assert(content_type_name().len() == 12);
    assert(crate::inject::content_length_name().len() == 14);
}

/// The static backend from end to end. Without a known media type or
/// without the file's contents the answer is the bare 404, which the
/// injector lets through. With both, only the rewrite of an HTML body can
/// fail; every answer that is given has status 200 and the media type with
/// the charset suffix as its content type, and a body that is not HTML is
/// the file's bytes.
pub proof fn static_pipeline_law(
    mime: Option<Seq<char>>,
    contents: Option<Seq<u8>>,
    base: Seq<char>,
)
    ensures
        ({
            let content_type = match mime {
                Some(m) => Some(typed(m)),
                None => None,
            };
            let raw = served(content_type, contents);
            let out = crate::inject::injected(raw, base);
            &&& mime.is_none() || contents.is_none() ==> raw.status == 404 && out == Ok::<
                ResponseView,
                crate::error::Error,
            >(raw)
            &&& mime.is_some() && contents.is_some() ==> match out {
                Ok(r) => {
                    &&& r.status == 200
                    &&& first_value(r.headers, content_type_name()) == Some(typed(mime.unwrap()))
                    &&& !crate::inject::announces_html(raw.headers) ==> r.body
                        == contents.unwrap()
                },
                Err(_) => crate::inject::announces_html(raw.headers),
            }
        }),
{
    let content_type = match mime {
        Some(m) => Some(typed(m)),
        None => None,
    };
    let raw = served(content_type, contents);
    if mime.is_some() && contents.is_some() {
        let h = HeaderView { name: content_type_name(), value: typed(mime.unwrap()) };
        assert(raw.headers =~= seq![h]);
        assert(crate::message::same_name(content_type_name(), content_type_name()));
        assert(first_value(raw.headers, content_type_name()) == Some(h.value));
        if crate::inject::announces_html(raw.headers) {
            lemma_type_is_not_length();
            let keep = |x: HeaderView|
                !crate::message::same_name(x.name, crate::inject::content_length_name());
            let kept = crate::message::without(raw.headers, crate::inject::content_length_name());
            assert(kept == raw.headers.filter(keep));
            assert(kept =~= seq![h]) by {
                reveal_with_fuel(Seq::filter, 3);
                assert(raw.headers.drop_last() =~= Seq::<HeaderView>::empty());
                assert(keep(h));
            }
        }
    } else {
        assert(raw.headers.len() == 0);
    }
}

} // verus!
