//! The ways in which answering a request can fail.

use vstd::prelude::*;

verus! {

/// Why a request could not be answered.
#[derive(Clone, Copy, Debug, PartialEq, Eq, Structural)]
pub enum Error {
    /// The upstream address and the requested target do not form a URL.
    InvalidUpstream,
    /// The HTML rewriter gave up on the body.
    Rewrite,
    /// The rewritten body is not valid UTF-8 text.
    Encoding,
}

impl Error {
    /// What went wrong, in words.
    pub open spec fn text(self) -> Seq<char> {
        match self {
            Error::InvalidUpstream => "the upstream address and the request form no URL"@,
            Error::Rewrite => "the HTML body could not be rewritten"@,
            Error::Encoding => "the HTML body is not valid UTF-8"@,
        }
    }

    /// Describes the error for the client.
    pub fn describe(&self) -> (r: &'static str)
        ensures
            r@ == self.text(),
    {
        match self {
            Error::InvalidUpstream => "the upstream address and the request form no URL",
            Error::Rewrite => "the HTML body could not be rewritten",
            Error::Encoding => "the HTML body is not valid UTF-8",
        }
    }
}

} // verus!
