//! The backend resolver: the one choice, made at startup, of where responses
//! come from, and what has to be fetched for a request under that choice.

use vstd::prelude::*;
use crate::error::Error;
use crate::proxy::{forward, forwards, Forwarded, Request};
use crate::serve::{plan_static, plans, StaticPlan};

verus! {

/// Where responses come from.
#[derive(Clone, Debug, PartialEq, Eq)]
pub enum Backend {
    /// A live backend at this base URL.
    UpstreamProxy { base_url: String },
    /// The files under this directory.
    StaticDirectory { root: String },
}

/// What has to be fetched to answer a request.
#[derive(Clone, Debug, PartialEq, Eq)]
pub enum Fetch {
    /// Send this request to the upstream and take its response.
    Upstream(Forwarded),
    /// Read this file and send it with this content type.
    File(StaticPlan),
    /// Nothing: the static backend has no file of a known type for the path.
    Missing,
}

/// Whether `r` is what the backend has to fetch for `request`.
pub open spec fn resolves(backend: Backend, request: Request, r: Result<Fetch, Error>) -> bool {
    match backend {
        Backend::UpstreamProxy { base_url } => match r {
            Ok(Fetch::Upstream(f)) => forwards(request, base_url@, Ok(f)),
            Ok(_) => false,
            Err(e) => forwards(request, base_url@, Err(e)),
        },
        Backend::StaticDirectory { root } => match r {
            Ok(Fetch::File(plan)) => plans(root@, request.path@, Some(plan)),
            Ok(Fetch::Missing) => plans(root@, request.path@, None),
            _ => false,
        },
    }
}

/// Decides what to fetch for a request. The proxy forwards the request
/// unless its target does not resolve against the base URL, which is the
/// only error; the static backend never fails here and answers a path
/// without a known media type with nothing to read.
pub fn resolve(backend: &Backend, request: Request) -> (r: Result<Fetch, Error>)
    ensures
        resolves(*backend, request, r),
{
    match backend {
        Backend::UpstreamProxy { base_url } => {
            match forward(request, base_url.as_str()) {
                Ok(f) => Ok(Fetch::Upstream(f)),
                Err(e) => Err(e),
            }
        },
        Backend::StaticDirectory { root } => {
            match plan_static(root.as_str(), request.path.as_str()) {
                Some(plan) => Ok(Fetch::File(plan)),
                None => Ok(Fetch::Missing),
            }
        },
    }
}

} // verus!
