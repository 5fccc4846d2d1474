//! What a request carries through dispatch.

use crate::absolute::UrlParts;
use crate::header::Headers;
use crate::params::Parameters;
use crate::uri::Uri;
use std::sync::Arc;
use vstd::prelude::*;

verus! {

/// The target of a request as the transport read it from the request line.
pub enum RequestTarget {
    /// Origin form: a path, with a query and a fragment where they are given.
    AbsolutePath(String),
    /// Absolute form: a whole URL, given by its parts.
    AbsoluteUri(UrlParts),
    /// Authority form: host and port alone. Dispatch cannot route it.
    Authority(String),
    /// The wildcard `*`.
    Star,
}

/// An incoming request.
pub struct Request {
    pub method: String,
    pub target: RequestTarget,
    pub headers: Headers,
}

/// A route that lies at the path of a request.
pub struct Link {
    /// The method that the route answers to, where it is bound to one.
    pub method: Option<String>,
    pub path: Vec<u8>,
}

/// The context of one request. `C` is the handle by which the connection is
/// resumed, `G` the state that the whole server shares.
pub struct RawContext<C, G> {
    pub request: Request,
    pub uri: Uri,
    /// The routes at the request's path, as the router reported them.
    pub hyperlinks: Vec<Link>,
    /// The variables that the router read from the path.
    pub variables: Parameters,
    pub query: Parameters,
    pub fragment: Option<Vec<u8>>,
    pub global: Arc<G>,
    pub control: C,
}

/// Calls `Arc::clone`, which gives another pointer to the same value.
#[verifier::external_body]
pub(crate) fn share<T>(handle: &Arc<T>) -> (other: Arc<T>)
    ensures
        other == *handle,
{
    handle.clone()
}

} // verus!
