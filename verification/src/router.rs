//! What dispatch asks of a router.

use crate::context::Link;
use crate::handler::Factory;
use crate::params::Parameters;
use crate::uri::{Uri, UriModel};
use vstd::prelude::*;

verus! {

/// What a router found for a method and a path.
pub struct Endpoint<'a, H> {
    /// The handler registered for the method at the path, if there is one.
    pub handler: Option<&'a H>,
    /// The variables read from the path.
    pub variables: Parameters,
    /// The routes at the path, whatever their method.
    pub hyperlinks: Vec<Link>,
}

/// Finds the handler of a request by its method and its path.
pub trait Router<C, G, RF> {
    type Handler: Factory<C, G, RF>;

    /// Whether `find` may return `endpoint` for `method` and `path`. A router
    /// that says nothing of itself allows every endpoint.
    open spec fn finds(
        &self,
        method: Seq<char>,
        path: Seq<u8>,
        endpoint: Endpoint<'_, Self::Handler>,
    ) -> bool {
        true
    }

    fn find<'a>(&'a self, method: &String, path: &[u8]) -> (endpoint: Endpoint<'a, Self::Handler>)
        ensures
            self.finds(method@, path@, endpoint),
    ;
}

/// `endpoint` is what routing gives for `uri`: what the router finds for a
/// path, and for the wildcard an endpoint without handler, variables and
/// links, for which the router is not asked.
pub open spec fn endpoint_resolved<C, G, RF, R: Router<C, G, RF>>(
    router: &R,
    method: Seq<char>,
    uri: Uri,
    endpoint: Endpoint<'_, R::Handler>,
) -> bool {
    match uri@ {
        UriModel::Path(path) => router.finds(method, path, endpoint),
        UriModel::Asterisk => {
            &&& endpoint.handler is None
            &&& endpoint.variables@.len() == 0
            &&& endpoint.hyperlinks@.len() == 0
        },
    }
}

/// Asks the router for the endpoint of a path; the wildcard gets an empty
/// endpoint.
pub fn resolve_endpoint<'a, C, G, RF, R: Router<C, G, RF>>(
    router: &'a R,
    method: &String,
    uri: &Uri,
) -> (endpoint: Endpoint<'a, R::Handler>)
    ensures
        endpoint_resolved(router, method@, *uri, endpoint),
{
    match uri.as_path() {
        Some(path) => router.find(method, path.as_slice()),
        None => Endpoint { handler: None, variables: Parameters::new(), hyperlinks: Vec::new() },
    }
}

/// The handler that a request goes to: the one found, else the fallback.
pub open spec fn chosen_handler<H>(found: Option<&H>, fallback: Option<H>) -> Option<H> {
    match found {
        Some(handler) => Some(*handler),
        None => fallback,
    }
}

/// Chooses the handler found by the router, and the fallback where the
/// router found none.
pub fn select_handler<'a, H>(found: Option<&'a H>, fallback: &'a Option<H>) -> (chosen: Option<&'a H>)
    ensures
        match chosen {
            Some(handler) => chosen_handler(found, *fallback) == Some(*handler),
            None => chosen_handler(found, *fallback) is None,
        },
{
    match found {
        Some(handler) => Some(handler),
        None => fallback.as_ref(),
    }
}

} // verus!
