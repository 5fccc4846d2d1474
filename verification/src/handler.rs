//! What dispatch asks of handlers, and what it hands to them.

use crate::context::RawContext;
use crate::filter::{filter_content, response_run, ResponseFilter};
use crate::header::Headers;
use crate::status::StatusCode;
use crate::storage::{new_storage, stored_items, FilterStorage};
use std::sync::Arc;
use vstd::prelude::*;

verus! {

/// What the transport is to do next with a connection.
#[derive(Clone, Copy, Debug, PartialEq, Eq, Structural)]
pub enum Next {
    /// Wait until more of the request can be read.
    Read,
    /// Go on to write the response.
    Write,
    /// Wait until the request can be read or the response written.
    ReadAndWrite,
    /// Wait until the handler asks to be resumed.
    Wait,
    /// The response is complete.
    End,
    /// Drop the connection.
    Remove,
}

/// Status and headers of a response.
#[derive(Debug)]
pub struct ResponseHead {
    pub status: StatusCode,
    pub headers: Headers,
}

/// The response filters of one request, with what they share.
pub struct ResponseFilters<RF, G> {
    pub filters: Arc<Vec<RF>>,
    pub global: Arc<G>,
    pub storage: FilterStorage,
}

/// The response that a handler is created with.
pub struct RawResponse<RF, G> {
    pub status: StatusCode,
    pub headers: Headers,
    pub filters: ResponseFilters<RF, G>,
}

/// Puts the response filters together with the shared state and a storage of
/// their own, which starts empty.
pub fn make_response_filters<RF, G>(filters: Arc<Vec<RF>>, global: Arc<G>) -> (made: ResponseFilters<
    RF,
    G,
>)
    ensures
        made.filters == filters,
        made.global == global,
        stored_items(made.storage) == 0,
{
    ResponseFilters { filters, global, storage: new_storage() }
}

impl<RF: ResponseFilter<G>, G> ResponseFilters<RF, G> {
    /// Sends one part of a body through the response filters, in their
    /// order and with their storage.
    pub fn filter(&mut self, content: Vec<u8>) -> (filtered: Vec<u8>)
        ensures
            final(self).filters == old(self).filters,
            final(self).global == old(self).global,
            exists|states: Seq<(FilterStorage, Seq<u8>)>|
                {
                    &&& #[trigger] response_run(old(self).filters@, &*old(self).global, states)
                    &&& states.first() == (old(self).storage, content@)
                    &&& states.last() == (final(self).storage, filtered@)
                },
    {
        filter_content(self.filters.as_slice(), &self.global, &mut self.storage, content)
    }
}

/// The handler of one request. The transport tells it what can be done on
/// the connection, and each time it answers what is to be done next. A
/// handler that says nothing of itself allows every outcome of a call.
pub trait RawHandler: Sized {
    /// Whether `on_request` may take the handler from `before` to `after` and
    /// return `next`.
    open spec fn starts(before: Self, after: Self, next: Next) -> bool {
        true
    }

    /// Whether `on_request_readable` may do so, given `chunk`.
    open spec fn reads(before: Self, chunk: Seq<u8>, after: Self, next: Next) -> bool {
        true
    }

    /// Whether `on_response` may do so and return `head`.
    open spec fn responds(before: Self, after: Self, head: ResponseHead, next: Next) -> bool {
        true
    }

    /// Whether `on_response_writable` may do so while it takes the sink from
    /// `sink_before` to `sink_after`.
    open spec fn writes(
        before: Self,
        sink_before: Seq<u8>,
        after: Self,
        sink_after: Seq<u8>,
        next: Next,
    ) -> bool {
        true
    }

    /// The request's head has arrived.
    fn on_request(&mut self) -> (next: Next)
        ensures
            Self::starts(*old(self), *final(self), next),
    ;

    /// A part of the request's body has arrived.
    fn on_request_readable(&mut self, chunk: &[u8]) -> (next: Next)
        ensures
            Self::reads(*old(self), chunk@, *final(self), next),
    ;

    /// The head of the response is asked for.
    fn on_response(&mut self) -> (answer: (ResponseHead, Next))
        ensures
            Self::responds(*old(self), *final(self), answer.0, answer.1),
    ;

    /// A part of the response's body can be written to `sink`.
    fn on_response_writable(&mut self, sink: &mut Vec<u8>) -> (next: Next)
        ensures
            Self::writes(*old(self), old(sink)@, *final(self), final(sink)@, next),
    ;
}

/// Creates the handler of a request from its context and its response.
pub trait Factory<C, G, RF> {
    type Handler: RawHandler;

    /// Whether `create` may return `handler` for `context` and `response`.
    open spec fn creates(
        &self,
        context: RawContext<C, G>,
        response: RawResponse<RF, G>,
        handler: Self::Handler,
    ) -> bool {
        true
    }

    fn create(&self, context: RawContext<C, G>, response: RawResponse<RF, G>) -> (handler:
        Self::Handler)
        ensures
            self.creates(context, response, handler),
    ;
}

} // verus!
