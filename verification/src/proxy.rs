//! The upstream backend: what is sent on to the upstream for a request.

use vstd::prelude::*;
use vstd::string::*;
use crate::error::Error;
use crate::message::{first_value, same_name, set_header, views, with_header, without};
use crate::message::{Header, HeaderView};
use crate::paths::{slice_text, text};
use url::Url;

verus! {

/// The header that is forced on every forwarded request.
pub const ENCODING_HEADER: &'static str = "accept-encoding";

/// The forced value: no compression, so that the body can be read as text.
pub const ENCODING_VALUE: &'static str = "identity";

/// A request as it was received.
#[derive(Clone, Debug, PartialEq, Eq)]
pub struct Request {
    pub method: String,
    pub path: String,
    pub query: Option<String>,
    pub headers: Vec<Header>,
    pub body: Vec<u8>,
}

/// A request as it goes to the upstream.
#[derive(Clone, Debug, PartialEq, Eq)]
pub struct Forwarded {
    pub method: String,
    pub url: String,
    pub headers: Vec<Header>,
    pub body: Vec<u8>,
}

/// The path of a request followed by its query, if it has one.
pub open spec fn target_text(path: Seq<char>, query: Option<Seq<char>>) -> Seq<char> {
    match query {
        Some(q) => path + "?"@ + q,
        None => path,
    }
}

/// The headers that go to the upstream: those received, with the accepted
/// encoding forced to the identity.
pub open spec fn forwarded_headers(headers: Seq<HeaderView>) -> Seq<HeaderView> {
    with_header(headers, ENCODING_HEADER.spec_bytes(), ENCODING_VALUE.spec_bytes())
}

/// The text of the URL that `target` resolves to against the base URL `host`;
/// `None` when `host` is no URL or the two do not combine.
pub uninterp spec fn joined_url(host: Seq<char>, target: Seq<char>) -> Option<Seq<char>>;

/// The error of `url::Url::parse` and `url::Url::join`, carried through
/// unread.
#[verifier::external_type_specification]
#[verifier::external_body]
pub struct ExParseError(url::ParseError);

/// `url::Url::parse` on `host`, then `Url::join` with `target`, the resulting
/// URL rendered as text. The contract only names the result; either call's
/// error is handed on.
#[verifier::external_body]
fn join_url(host: &str, target: &str) -> (r: Result<String, url::ParseError>)
    ensures
        match r {
            Ok(u) => joined_url(host@, target@) == Some(u@),
            Err(_) => joined_url(host@, target@).is_none(),
        },
{
    Ok(Url::parse(host)?.join(target)?.to_string())
}

/// Writes a request's path and query as one target.
pub fn target(path: &str, query: Option<&str>) -> (r: String)
    ensures
        r@ == target_text(path@, slice_text(query)),
{
    let mut out = String::from_str(path);
    match query {
        Some(q) => {
            out.append("?");
            out.append(q);
        },
        None => {},
    }
    out
}

/// Resolves a request target against the upstream's base URL.
pub fn upstream_url(host: &str, target: &str) -> (r: Result<String, Error>)
    ensures
        match r {
            Ok(u) => joined_url(host@, target@) == Some(u@),
            Err(e) => e == Error::InvalidUpstream && joined_url(host@, target@).is_none(),
        },
{
    match join_url(host, target) {
        Ok(u) => Ok(u),
        Err(_) => Err(Error::InvalidUpstream),
    }
}

/// Prepares a request for the upstream once its URL is known: method and
/// body go on as they came, and so do the headers, but for the accepted
/// encoding.
pub fn forward_to(request: Request, url: String) -> (r: Forwarded)
    ensures
        r.method == request.method,
        r.url == url,
        views(r.headers@) == forwarded_headers(views(request.headers@)),
        r.body == request.body,
{
    let headers = set_header(
        &request.headers,
        ENCODING_HEADER.as_bytes(),
        ENCODING_VALUE.as_bytes(),
    );
    Forwarded { method: request.method, url, headers, body: request.body }
}

/// Whether `r` is what forwarding `request` to the upstream at `host` gives:
/// the request with its URL resolved and the accepted encoding forced, or
/// the error of a target that does not resolve.
pub open spec fn forwards(request: Request, host: Seq<char>, r: Result<Forwarded, Error>) -> bool {
    let url = joined_url(host, target_text(request.path@, text(request.query)));
    match r {
        Ok(f) => {
            &&& url == Some(f.url@)
            &&& f.method == request.method
            &&& views(f.headers@) == forwarded_headers(views(request.headers@))
            &&& f.body == request.body
        },
        Err(e) => e == Error::InvalidUpstream && url.is_none(),
    }
}

/// Prepares a request for the upstream at `host`. It fails if, and only if,
/// the request's target does not resolve against `host`.
pub fn forward(request: Request, host: &str) -> (r: Result<Forwarded, Error>)
    ensures
        forwards(request, host@, r),
{
    let query = match &request.query {
        Some(q) => Some(q.as_str()),
        None => None,
    };
    let t = target(request.path.as_str(), query);
    match upstream_url(host, t.as_str()) {
        Ok(url) => Ok(forward_to(request, url)),
        Err(e) => Err(e),
    }
}

/// In a list that holds no header called `name`, followed by one that is
/// called so, the first value of that name is the last header's.
proof fn lemma_first_after_none(headers: Seq<HeaderView>, last: HeaderView, name: Seq<u8>)
    requires
        forall|i: int| 0 <= i < headers.len() ==> !same_name(#[trigger] headers[i].name, name),
        same_name(last.name, name),
    ensures
        first_value(headers.push(last), name) == Some(last.value),
    decreases headers.len(),
{
    let all = headers.push(last);
    if headers.len() == 0 {
        assert(all[0] == last);
    } else {
        assert(all[0] == headers[0]);
        assert(all.drop_first() =~= headers.drop_first().push(last));
        assert forall|i: int| 0 <= i < headers.drop_first().len() implies !same_name(
            #[trigger] headers.drop_first()[i].name,
            name,
        ) by {
            assert(headers.drop_first()[i] == headers[i + 1]);
        }
        lemma_first_after_none(headers.drop_first(), last, name);
    }
}

/// The forwarded headers are the received ones but for the accepted
/// encoding: every other header goes on, nothing else is added, and the
/// accepted encoding is the identity.
pub proof fn forwarded_headers_law(headers: Seq<HeaderView>)
    ensures
        ({
            let name = ENCODING_HEADER.spec_bytes();
            let forced = HeaderView { name, value: ENCODING_VALUE.spec_bytes() };
            let sent = forwarded_headers(headers);
            &&& sent == without(headers, name).push(forced)
            &&& first_value(sent, name) == Some(forced.value)
            &&& forall|i: int|
                0 <= i < headers.len() && !same_name(headers[i].name, name) ==> sent.contains(
                    #[trigger] headers[i],
                )
            &&& forall|i: int|
                0 <= i < sent.len() - 1 ==> headers.contains(#[trigger] sent[i]) && !same_name(
                    sent[i].name,
                    name,
                )
            &&& sent.len() <= headers.len() + 1
        }),
{
    let name = ENCODING_HEADER.spec_bytes();
    let forced = HeaderView { name, value: ENCODING_VALUE.spec_bytes() };
    let keep = |h: HeaderView| !same_name(h.name, name);
    let kept = headers.filter(keep);
    let sent = forwarded_headers(headers);
    assert(kept == without(headers, name));
    headers.lemma_filter_len(keep);
    assert forall|i: int| 0 <= i < kept.len() implies !same_name(
        #[trigger] kept[i].name,
        name,
    ) && headers.contains(kept[i]) by {
        headers.lemma_filter_pred(keep, i);
        assert(kept.contains(kept[i]));
        headers.lemma_filter_contains_rev(keep, kept[i]);
    }
    assert(same_name(name, name));
    lemma_first_after_none(kept, forced, name);
    assert forall|i: int| 0 <= i < headers.len() && !same_name(headers[i].name, name) implies
        sent.contains(#[trigger] headers[i]) by {
        headers.lemma_filter_contains(keep, i);
        let j = choose|j: int| 0 <= j < kept.len() && kept[j] == headers[i];
        assert(sent[j] == headers[i]);
    }
    assert forall|i: int| 0 <= i < sent.len() - 1 implies headers.contains(#[trigger] sent[i])
        && !same_name(sent[i].name, name) by {
        assert(sent[i] == kept[i]);
    }
}

} // verus!
