//! Paths as text: the few operations on request paths and file paths that the
//! gateway needs.

use vstd::prelude::*;
use vstd::string::*;
use camino::Utf8Path;

verus! {

/// A path asks for a directory when it ends in a slash.
pub open spec fn is_directory(path: Seq<char>) -> bool {
    path.len() > 0 && path.last() == '/'
}

/// The path without its leading slashes.
pub open spec fn stripped(path: Seq<char>) -> Seq<char>
    decreases path.len(),
{
    if path.len() > 0 && path[0] == '/' {
        stripped(path.drop_first())
    } else {
        path
    }
}

/// The text of an optional string.
pub open spec fn text(s: Option<String>) -> Option<Seq<char>> {
    match s {
        Some(t) => Some(t@),
        None => None,
    }
}

/// The text of an optional string slice.
pub open spec fn slice_text(s: Option<&str>) -> Option<Seq<char>> {
    match s {
        Some(t) => Some(t@),
        None => None,
    }
}

/// The path that results from adjoining `rel` to `base`, by the rules of the
/// platform's paths.
pub uninterp spec fn joined_path(base: Seq<char>, rel: Seq<char>) -> Seq<char>;

/// `camino::Utf8Path::join` on two paths given as text, the result taken back
/// as text. The contract only names the result.
#[verifier::external_body]
pub(crate) fn join_path(base: &str, rel: &str) -> (r: String)
    ensures
        r@ == joined_path(base@, rel@),
{
    Utf8Path::new(base).join(rel).into_string()
}

/// Tells whether a path ends in a slash.
pub fn ends_with_slash(path: &str) -> (r: bool)
    ensures
        r == is_directory(path@),
{
    let n = path.unicode_len();
    n > 0 && path.get_char(n - 1) == '/'
}

/// Removes every leading slash.
pub fn trim_leading_slashes(path: &str) -> (r: &str)
    ensures
        r@ == stripped(path@),
{
    let n = path.unicode_len();
    let mut i: usize = 0;
    assert(path@.subrange(0, n as int) =~= path@);
    while i < n && path.get_char(i) == '/'
        invariant
            i <= n,
            n == path@.len(),
            stripped(path@) == stripped(path@.subrange(i as int, n as int)),
        decreases n - i,
    {
        assert(path@.subrange(i as int, n as int).drop_first() =~= path@.subrange(
            i + 1,
            n as int,
        ));
        i += 1;
    }
    path.substring_char(i, n)
}

/// The stripped path is what follows the leading slashes: it is the end of
/// the path, everything before it is a slash, and it begins with none.
pub proof fn stripped_follows_the_slashes(path: Seq<char>)
    ensures
        stripped(path).len() <= path.len(),
        stripped(path) == path.subrange(path.len() - stripped(path).len(), path.len() as int),
        forall|i: int| 0 <= i < path.len() - stripped(path).len() ==> path[i] == '/',
        stripped(path).len() > 0 ==> stripped(path)[0] != '/',
    decreases path.len(),
{
    if path.len() > 0 && path[0] == '/' {
        let rest = path.drop_first();
        stripped_follows_the_slashes(rest);
        let k = rest.len() - stripped(rest).len();
        assert(rest.subrange(k, rest.len() as int) =~= path.subrange(k + 1, path.len() as int));
        assert forall|i: int| 0 <= i < path.len() - stripped(path).len() implies path[i]
            == '/' by {
            if i > 0 {
                assert(path[i] == rest[i - 1]);
            }
        }
    } else {
        assert(path.subrange(0, path.len() as int) =~= path);
    }
}

} // verus!
