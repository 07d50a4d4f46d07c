//! Buffered HTTP messages: header lists, requests and responses as plain bytes.

use vstd::prelude::*;
use vstd::string::*;

verus! {

/// One header line. Names and values are the raw bytes of the line.
#[derive(Clone, Debug, PartialEq, Eq)]
pub struct Header {
    pub name: Vec<u8>,
    pub value: Vec<u8>,
}

/// The mathematical content of a [`Header`].
pub ghost struct HeaderView {
    pub name: Seq<u8>,
    pub value: Seq<u8>,
}

impl View for Header {
    type V = HeaderView;

    open spec fn view(&self) -> HeaderView {
        HeaderView { name: self.name@, value: self.value@ }
    }
}

/// The content of a header list, in order.
pub open spec fn views(headers: Seq<Header>) -> Seq<HeaderView> {
    headers.map_values(|h: Header| h@)
}

/// A byte with ASCII upper-case letters mapped to lower case.
pub open spec fn fold(b: u8) -> u8 {
    if 65 <= b <= 90 {
        (b + 32) as u8
    } else {
        b
    }
}

/// Header names are equal when they agree up to ASCII case.
pub open spec fn same_name(a: Seq<u8>, b: Seq<u8>) -> bool {
    a.len() == b.len() && forall|i: int| 0 <= i < a.len() ==> fold(#[trigger] a[i]) == fold(b[i])
}

/// The list without every header called `name`; the others keep their order.
pub open spec fn without(headers: Seq<HeaderView>, name: Seq<u8>) -> Seq<HeaderView> {
    headers.filter(|h: HeaderView| !same_name(h.name, name))
}

/// The value of the first header called `name`, if there is one.
pub open spec fn first_value(headers: Seq<HeaderView>, name: Seq<u8>) -> Option<Seq<u8>>
    decreases headers.len(),
{
    if headers.len() == 0 {
        None
    } else if same_name(headers[0].name, name) {
        Some(headers[0].value)
    } else {
        first_value(headers.drop_first(), name)
    }
}

/// The name of the header that announces what a body is.
pub open spec fn content_type_name() -> Seq<u8> {
    "content-type".spec_bytes()
}

/// The bytes of an optional buffer.
pub open spec fn content(bytes: Option<Vec<u8>>) -> Option<Seq<u8>> {
    match bytes {
        Some(v) => Some(v@),
        None => None,
    }
}

/// The list after `name` has been set to `value`: earlier headers of that name
/// are gone and a single new one stands at the end.
pub open spec fn with_header(headers: Seq<HeaderView>, name: Seq<u8>, value: Seq<u8>) -> Seq<
    HeaderView,
> {
    without(headers, name).push(HeaderView { name, value })
}

fn lower(b: u8) -> (r: u8)
    ensures
        r == fold(b),
{
    if 65 <= b && b <= 90 {
        b + 32
    } else {
        b
    }
}

/// Copies a byte slice.
pub fn copy_bytes(src: &[u8]) -> (r: Vec<u8>)
    ensures
        r@ == src@,
{
    let mut out: Vec<u8> = Vec::new();
    let mut i: usize = 0;
    while i < src.len()
        invariant
            i <= src@.len(),
            out@ == src@.subrange(0, i as int),
        decreases src@.len() - i,
    {
        out.push(src[i]);
        i += 1;
        assert(out@ =~= src@.subrange(0, i as int));
    }
    assert(src@.subrange(0, src@.len() as int) =~= src@);
    out
}

/// Tells whether two header names agree up to ASCII case.
pub fn names_match(a: &[u8], b: &[u8]) -> (r: bool)
    ensures
        r == same_name(a@, b@),
{
    if a.len() != b.len() {
        return false;
    }
    let mut i: usize = 0;
    while i < a.len()
        invariant
            i <= a@.len(),
            a@.len() == b@.len(),
            forall|j: int| 0 <= j < i ==> fold(#[trigger] a@[j]) == fold(b@[j]),
        decreases a@.len() - i,
    {
        if lower(a[i]) != lower(b[i]) {
            return false;
        }
        i += 1;
    }
    true
}

/// Tells whether `bytes` begins with `prefix`.
pub fn starts_with(bytes: &[u8], prefix: &[u8]) -> (r: bool)
    ensures
        r == prefix@.is_prefix_of(bytes@),
{
    if prefix.len() > bytes.len() {
        return false;
    }
    let mut i: usize = 0;
    while i < prefix.len()
        invariant
            i <= prefix@.len(),
            prefix@.len() <= bytes@.len(),
            forall|j: int| 0 <= j < i ==> prefix@[j] == bytes@[j],
        decreases prefix@.len() - i,
    {
        if prefix[i] != bytes[i] {
            assert(prefix@[i as int] != bytes@.subrange(0, prefix@.len() as int)[i as int]);
            return false;
        }
        i += 1;
    }
    assert(prefix@ =~= bytes@.subrange(0, prefix@.len() as int));
    true
}

/// Looks up the first header called `name`.
pub fn header_value<'a>(headers: &'a Vec<Header>, name: &[u8]) -> (r: Option<&'a Vec<u8>>)
    ensures
        match r {
            Some(v) => first_value(views(headers@), name@) == Some(v@),
            None => first_value(views(headers@), name@).is_none(),
        },
{
    let ghost all = views(headers@);
    let mut i: usize = 0;
    assert(all.subrange(0, all.len() as int) =~= all);
    while i < headers.len()
        invariant
            i <= headers@.len(),
            all == views(headers@),
            first_value(all, name@) == first_value(all.subrange(i as int, all.len() as int), name@),
        decreases headers@.len() - i,
    {
        let ghost rest = all.subrange(i as int, all.len() as int);
        assert(rest[0] == headers@[i as int]@);
        if names_match(headers[i].name.as_slice(), name) {
            return Some(&headers[i].value);
        }
        assert(rest.drop_first() =~= all.subrange(i + 1, all.len() as int));
        i += 1;
    }
    assert(all.subrange(i as int, all.len() as int).len() == 0);
    None
}

/// Drops every header called `name`.
pub fn remove_header(headers: &Vec<Header>, name: &[u8]) -> (r: Vec<Header>)
    ensures
        views(r@) == without(views(headers@), name@),
{
    let ghost all = views(headers@);
    let ghost keep = |h: HeaderView| !same_name(h.name, name@);
    let mut out: Vec<Header> = Vec::new();
    let mut i: usize = 0;
    assert(views(out@) =~= all.subrange(0, 0).filter(keep)) by {
        reveal(Seq::filter);
    }
    while i < headers.len()
        invariant
            i <= headers@.len(),
            all == views(headers@),
            keep == (|h: HeaderView| !same_name(h.name, name@)),
            views(out@) == all.subrange(0, i as int).filter(keep),
        decreases headers@.len() - i,
    {
        let ghost before = all.subrange(0, i as int);
        let ghost upto = all.subrange(0, i + 1);
        proof {
            reveal(Seq::filter);
            assert(upto.drop_last() =~= before);
            assert(upto.last() == headers@[i as int]@);
        }
        if !names_match(headers[i].name.as_slice(), name) {
            let h = Header {
                name: copy_bytes(headers[i].name.as_slice()),
                value: copy_bytes(headers[i].value.as_slice()),
            };
            let ghost prev = out@;
            out.push(h);
            assert(views(out@) =~= views(prev).push(h@));
        }
        i += 1;
    }
    assert(all.subrange(0, all.len() as int) =~= all);
    out
}

/// Sets `name` to `value`, replacing every header of that name.
pub fn set_header(headers: &Vec<Header>, name: &[u8], value: &[u8]) -> (r: Vec<Header>)
    ensures
        views(r@) == with_header(views(headers@), name@, value@),
{
    let mut out = remove_header(headers, name);
    let h = Header { name: copy_bytes(name), value: copy_bytes(value) };
    let ghost prev = out@;
    out.push(h);
    assert(views(out@) =~= views(prev).push(h@));
    out
}

/// A response whose body has been read to its end.
#[derive(Clone, Debug, PartialEq, Eq)]
pub struct Response {
    pub status: u16,
    pub headers: Vec<Header>,
    pub body: Vec<u8>,
}

/// The mathematical content of a [`Response`].
pub ghost struct ResponseView {
    pub status: u16,
    pub headers: Seq<HeaderView>,
    pub body: Seq<u8>,
}

impl View for Response {
    type V = ResponseView;

    open spec fn view(&self) -> ResponseView {
        ResponseView { status: self.status, headers: views(self.headers@), body: self.body@ }
    }
}

/// A list in which no header is called `name` has no value for it.
pub proof fn lemma_no_match_no_value(headers: Seq<HeaderView>, name: Seq<u8>)
    requires
        forall|i: int| 0 <= i < headers.len() ==> !same_name(#[trigger] headers[i].name, name),
    ensures
        first_value(headers, name).is_none(),
    decreases headers.len(),
{
    if headers.len() > 0 {
        let rest = headers.drop_first();
        assert forall|i: int| 0 <= i < rest.len() implies !same_name(
            #[trigger] rest[i].name,
            name,
        ) by {
            assert(rest[i] == headers[i + 1]);
        }
        lemma_no_match_no_value(rest, name);
    }
}

/// Once a header has been removed, the list has no value for its name, and
/// every header that is left was there before.
pub proof fn removed_header_is_gone(headers: Seq<HeaderView>, name: Seq<u8>)
    ensures
        first_value(without(headers, name), name).is_none(),
        without(headers, name).len() <= headers.len(),
        forall|i: int|
            0 <= i < without(headers, name).len() ==> headers.contains(
                #[trigger] without(headers, name)[i],
            ),
{
    let keep = |h: HeaderView| !same_name(h.name, name);
    let kept = headers.filter(keep);
    headers.lemma_filter_len(keep);
    assert forall|i: int| 0 <= i < kept.len() implies !same_name(#[trigger] kept[i].name, name)
        && headers.contains(kept[i]) by {
        headers.lemma_filter_pred(keep, i);
        assert(kept.contains(kept[i]));
        headers.lemma_filter_contains_rev(keep, kept[i]);
    }
    lemma_no_match_no_value(kept, name);
}

} // verus!
