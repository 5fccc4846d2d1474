//! The server instance, and the state machine that takes one connection from
//! a request to its response.

use crate::absolute::{parse_url_parts, parsed_url};
use crate::context::{share, RawContext, Request, RequestTarget};
use crate::filter::{chain_run, modify_context, ContextAction, ContextFilter};
use crate::handler::{
    make_response_filters, Factory, Next, RawHandler, RawResponse, ResponseFilters, ResponseHead,
};
use crate::header::{default_fields, default_headers, now_utc, Headers, HttpDate};
use crate::params::Parameters;
use crate::router::{chosen_handler, endpoint_resolved, resolve_endpoint, select_handler, Endpoint, Router};
use crate::status::{StatusCode, BAD_REQUEST, NOT_FOUND, OK};
use crate::storage::{new_storage, stored_items, FilterStorage};
use crate::threads::{default_threads, worker_threads};
use crate::uri::{parse_asterisk, parse_path, parsed_asterisk, parsed_path, ParsedUri};
use core::time::Duration;
use std::sync::Arc;
use vstd::prelude::*;

verus! {

/// The address that a server listens on.
pub struct Host {
    pub name: String,
    pub port: u16,
}

/// The protocol that a server speaks.
pub enum Scheme {
    Http,
    /// HTTP over TLS, with the paths of the certificate and of the key.
    Https { cert: String, key: String },
}

/// The configuration that a server is built from.
pub struct Server<R: Router<C, G, RF>, CF, RF, G, C> {
    pub handlers: R,
    /// The handler of every request for which the router finds none.
    pub fallback_handler: Option<R::Handler>,
    pub host: Host,
    pub global: G,
    /// The number of worker threads. Without one, it follows the number of
    /// processors.
    pub threads: Option<usize>,
    pub keep_alive: bool,
    /// How long a connection may lie idle before it is closed.
    pub timeout: Duration,
    pub max_sockets: usize,
    /// The value of the `Server` header.
    pub server: String,
    /// The value that the `Content-Type` header starts with.
    pub content_type: String,
    pub scheme: Scheme,
    pub context_filters: Vec<CF>,
    pub response_filters: Vec<RF>,
}

/// The part of the configuration that the connections of a server share.
pub struct Config<R: Router<C, G, RF>, CF, RF, G, C> {
    pub handlers: R,
    pub fallback_handler: Option<R::Handler>,
    pub host: Host,
    pub server: String,
    pub content_type: String,
    pub context_filters: Vec<CF>,
}

/// The handler type of a router's factories.
pub type HandlerOf<R, C, G, RF> = <<R as Router<C, G, RF>>::Handler as Factory<C, G, RF>>::Handler;

/// A server that is ready to run.
pub struct ServerInstance<R: Router<C, G, RF>, CF, RF, G, C> {
    pub config: Arc<Config<R, CF, RF, G, C>>,
    pub response_filters: Arc<Vec<RF>>,
    pub global: Arc<G>,
    pub threads: usize,
    pub keep_alive: bool,
    pub timeout: Duration,
    pub max_sockets: usize,
}

impl<R: Router<C, G, RF>, CF: ContextFilter<C, G>, RF, G, C> ServerInstance<R, CF, RF, G, C> {
    /// Builds a server instance from its configuration, and gives back the
    /// protocol to run it with. Every setting is taken over as it is; the
    /// number of worker threads is the configured one, or else the default
    /// for the processors at hand.
    pub fn new(config: Server<R, CF, RF, G, C>) -> (built: (ServerInstance<R, CF, RF, G, C>, Scheme))
        ensures
            built.0.config.handlers == config.handlers,
            built.0.config.fallback_handler == config.fallback_handler,
            built.0.config.host == config.host,
            built.0.config.server == config.server,
            built.0.config.content_type == config.content_type,
            built.0.config.context_filters == config.context_filters,
            *built.0.response_filters == config.response_filters,
            *built.0.global == config.global,
            built.0.keep_alive == config.keep_alive,
            built.0.timeout == config.timeout,
            built.0.max_sockets == config.max_sockets,
            built.1 == config.scheme,
            match config.threads {
                Some(number) => built.0.threads == number,
                None => built.0.threads >= 1 && exists|cpus: usize|
                    cpus >= 1 && built.0.threads == #[trigger] default_threads(cpus as nat),
            },
    {
        let threads = worker_threads(config.threads);
        (
            ServerInstance {
                config: Arc::new(
                    Config {
                        handlers: config.handlers,
                        fallback_handler: config.fallback_handler,
                        host: config.host,
                        server: config.server,
                        content_type: config.content_type,
                        context_filters: config.context_filters,
                    },
                ),
                response_filters: Arc::new(config.response_filters),
                global: Arc::new(config.global),
                threads,
                keep_alive: config.keep_alive,
                timeout: config.timeout,
                max_sockets: config.max_sockets,
            },
            config.scheme,
        )
    }

    /// Creates the state machine of a new connection, which holds `control`
    /// until a request arrives.
    pub fn create(&self, control: C) -> (handler: RequestHandler<R, CF, RF, G, C>)
        ensures
            handler.config() == *self.config,
            handler.global() == self.global,
            handler.response_filters() == self.response_filters,
            handler.write_method() is None,
            handler.control() == Some(control),
    {
        RequestHandler::new(
            share(&self.config),
            share(&self.response_filters),
            share(&self.global),
            control,
        )
    }
}

/// How the response of a connection is written.
pub enum WriteMethod<H> {
    /// By the handler of the request.
    Handler(H),
    /// By dispatch itself, which answers with this head and no body. The head
    /// is there until it is written.
    Error(Option<ResponseHead>),
}

/// A call that the state of a connection does not allow.
#[derive(Clone, Copy, Debug, PartialEq, Eq, Structural)]
pub enum DispatchError {
    /// A request was dispatched on a connection that had dispatched one.
    Reused,
    /// A response was asked for before any request was dispatched.
    MissingWriteMethod,
    /// The head of an error response was asked for a second time.
    MissingResponseHead,
}

/// The state machine of one connection.
pub struct RequestHandler<R: Router<C, G, RF>, CF, RF, G, C> {
    config: Arc<Config<R, CF, RF, G, C>>,
    global: Arc<G>,
    response_filters: Arc<Vec<RF>>,
    write_method: Option<WriteMethod<HandlerOf<R, C, G, RF>>>,
    control: Option<C>,
}

/// What the target of a request is parsed to: `parsed` is the canonical form
/// of a target in origin form, in absolute form or of the wildcard, and
/// `None` for any other target.
pub open spec fn target_parsed(target: RequestTarget, parsed: Option<ParsedUri>) -> bool {
    match target {
        RequestTarget::AbsolutePath(path) => parsed matches Some(p) && p@ == parsed_path(
            vstd::utf8::encode_utf8(path@),
        ),
        RequestTarget::AbsoluteUri(parts) => parsed matches Some(p) && p@ == parsed_url(parts@),
        RequestTarget::Star => parsed matches Some(p) && p@ == parsed_asterisk(),
        RequestTarget::Authority(_) => parsed is None,
    }
}

/// Brings the target of a request to its canonical form, where it has one.
pub fn parse_target(target: &RequestTarget) -> (parsed: Option<ParsedUri>)
    ensures
        target_parsed(*target, parsed),
{
    match target {
        RequestTarget::AbsoluteUri(parts) => Some(parse_url_parts(parts)),
        RequestTarget::AbsolutePath(path) => Some(parse_path(path.as_str())),
        RequestTarget::Star => Some(parse_asterisk()),
        RequestTarget::Authority(_) => None,
    }
}

/// The way a request is answered that dispatch refuses: with `status`, the
/// headers at hand and no body, and the response is written at once.
pub open spec fn error_outcome<H>(status: StatusCode, headers: Headers) -> (WriteMethod<H>, Next) {
    (WriteMethod::Error(Some(ResponseHead { status, headers })), Next::Write)
}

/// Answers a request with `status`, the headers at hand and no body.
pub fn error_response<H>(status: StatusCode, headers: Headers) -> (outcome: (WriteMethod<H>, Next))
    ensures
        outcome == error_outcome::<H>(status, headers),
{
    (WriteMethod::Error(Some(ResponseHead { status, headers })), Next::Write)
}

/// What routing does with a request that the filters let pass. `endpoint` is
/// what routing gives for the request's method and path. The request goes to
/// the handler found there, else to the fallback, and without either it is
/// answered with `404 Not Found`. A handler is created from the context, to
/// which the endpoint's links and variables are added, and from `response`;
/// `created` is that handler, and the outcome holds it after its first call,
/// with what that call returned.
pub open spec fn routed<R: Router<C, G, RF>, CF, RF, G, C>(
    config: &Config<R, CF, RF, G, C>,
    context: RawContext<C, G>,
    response: RawResponse<RF, G>,
    endpoint: Endpoint<'_, R::Handler>,
    created: HandlerOf<R, C, G, RF>,
    outcome: (WriteMethod<HandlerOf<R, C, G, RF>>, Next),
) -> bool {
    &&& endpoint_resolved(&config.handlers, context.request.method@, context.uri, endpoint)
    &&& match chosen_handler(endpoint.handler, config.fallback_handler) {
        Some(factory) => {
            &&& factory.creates(
                RawContext {
                    request: context.request,
                    uri: context.uri,
                    hyperlinks: endpoint.hyperlinks,
                    variables: endpoint.variables,
                    query: context.query,
                    fragment: context.fragment,
                    global: context.global,
                    control: context.control,
                },
                response,
                created,
            )
            &&& outcome.0 matches WriteMethod::Handler(handler)
            &&& <HandlerOf<R, C, G, RF> as RawHandler>::starts(created, handler, outcome.1)
        },
        None => outcome == error_outcome::<HandlerOf<R, C, G, RF>>(
            StatusCode { code: NOT_FOUND },
            response.headers,
        ),
    }
}

/// Routes a request that the filters let pass.
pub fn route<R: Router<C, G, RF>, CF, RF, G, C>(
    config: &Config<R, CF, RF, G, C>,
    context: RawContext<C, G>,
    response: RawResponse<RF, G>,
) -> (outcome: (WriteMethod<HandlerOf<R, C, G, RF>>, Next))
    ensures
        exists|endpoint: Endpoint<R::Handler>, created: HandlerOf<R, C, G, RF>|
            #[trigger] routed(config, context, response, endpoint, created, outcome),
{
    let mut context = context;
    let ghost given = context;
    let endpoint = resolve_endpoint(&config.handlers, &context.request.method, &context.uri);
    let ghost found = endpoint;
    let Endpoint { handler, variables, hyperlinks } = endpoint;
    match select_handler(handler, &config.fallback_handler) {
        Some(factory) => {
            context.hyperlinks = hyperlinks;
            context.variables = variables;
            let mut handler = factory.create(context, response);
            let ghost created = handler;
            let next = handler.on_request();
            let outcome = (WriteMethod::Handler(handler), next);
            proof {
                assert(routed(config, given, response, found, created, outcome));
            }
            outcome
        },
        None => {
            let outcome = error_response(StatusCode::not_found(), response.headers);
            proof {
                let created: HandlerOf<R, C, G, RF> = arbitrary();
                assert(routed(config, given, response, found, created, outcome));
            }
            outcome
        },
    }
}

/// What a dispatch chose along its way.
pub struct DispatchTrace<'a, R: Router<C, G, RF>, RF, G, C> {
    /// The time at which the request was dispatched.
    pub date: HttpDate,
    /// The headers that the response started with.
    pub headers: Headers,
    /// The canonical form of the target, where it has one.
    pub parsed: Option<ParsedUri>,
    /// Storage and context before the first filter and after each filter
    /// that was called.
    pub states: Seq<(FilterStorage, RawContext<C, G>)>,
    /// What the chain of filters returned.
    pub action: ContextAction,
    /// What routing gave.
    pub endpoint: Endpoint<'a, R::Handler>,
    /// The handler as it was created.
    pub created: HandlerOf<R, C, G, RF>,
}

/// What dispatch does with a request, step by step.
///
/// The response starts with status `200` and the default headers. A target
/// without canonical form is answered with `400 Bad Request`. Otherwise the
/// context filters run on a context made of the request and its parsed
/// target, with a storage that starts empty; where they abort, the request is
/// answered with the status they chose. Where they pass, the request is
/// routed with what they left of the context, and their storage goes to the
/// response filters.
pub open spec fn dispatched<R: Router<C, G, RF>, CF: ContextFilter<C, G>, RF, G, C>(
    config: &Config<R, CF, RF, G, C>,
    global: Arc<G>,
    response_filters: Arc<Vec<RF>>,
    control: C,
    request: Request,
    trace: DispatchTrace<'_, R, RF, G, C>,
    outcome: (WriteMethod<HandlerOf<R, C, G, RF>>, Next),
) -> bool {
    &&& trace.headers@ == default_fields(trace.date, config.content_type@, config.server@)
    &&& target_parsed(request.target, trace.parsed)
    &&& match trace.parsed {
        None => outcome == error_outcome::<HandlerOf<R, C, G, RF>>(
            StatusCode { code: BAD_REQUEST },
            trace.headers,
        ),
        Some(parsed) => {
            &&& stored_items(trace.states.first().0) == 0
            &&& trace.states.first().1.request == request
            &&& trace.states.first().1.uri == parsed.uri
            &&& trace.states.first().1.hyperlinks@.len() == 0
            &&& trace.states.first().1.variables@.len() == 0
            &&& trace.states.first().1.query == parsed.query
            &&& trace.states.first().1.fragment == parsed.fragment
            &&& trace.states.first().1.global == global
            &&& trace.states.first().1.control == control
            &&& chain_run(config.context_filters@, &*global, trace.states, trace.action)
            &&& match trace.action {
                ContextAction::Abort(status) => outcome == error_outcome::<HandlerOf<R, C, G, RF>>(
                    status,
                    trace.headers,
                ),
                ContextAction::Next => routed(
                    config,
                    trace.states.last().1,
                    RawResponse {
                        status: StatusCode { code: OK },
                        headers: trace.headers,
                        filters: ResponseFilters {
                            filters: response_filters,
                            global: global,
                            storage: trace.states.last().0,
                        },
                    },
                    trace.endpoint,
                    trace.created,
                    outcome,
                ),
            }
        },
    }
}

/// Dispatches a request: parses its target, runs the context filters, routes
/// it, and creates its handler or the response that stands in for one.
pub fn dispatch<R: Router<C, G, RF>, CF: ContextFilter<C, G>, RF, G, C>(
    config: &Config<R, CF, RF, G, C>,
    global: &Arc<G>,
    response_filters: &Arc<Vec<RF>>,
    control: C,
    request: Request,
) -> (outcome: (WriteMethod<HandlerOf<R, C, G, RF>>, Next))
    ensures
        exists|trace: DispatchTrace<R, RF, G, C>| #[trigger]
            dispatched(config, *global, *response_filters, control, request, trace, outcome),
{
    let date = now_utc();
    let mut response = RawResponse {
        status: StatusCode::ok(),
        headers: default_headers(date, &config.content_type, &config.server),
        filters: make_response_filters(share(response_filters), share(global)),
    };
    let ghost headers = response.headers;
    let parsed = parse_target(&request.target);
    let ghost parsed_target = parsed;
    match parsed {
        Some(ParsedUri { host: _, uri, query, fragment }) => {
            let mut context = RawContext {
                request,
                uri,
                hyperlinks: Vec::new(),
                variables: Parameters::new(),
                query,
                fragment,
                global: share(global),
                control,
            };
            let mut filter_storage = new_storage();
            let ghost first = (filter_storage, context);
            let action = modify_context(
                config.context_filters.as_slice(),
                global,
                &mut filter_storage,
                &mut context,
            );
            let ghost states = choose|states: Seq<(FilterStorage, RawContext<C, G>)>|
                {
                    &&& #[trigger] chain_run(config.context_filters@, &**global, states, action)
                    &&& states.first() == first
                    &&& states.last() == (filter_storage, context)
                };
            match action {
                ContextAction::Next => {
                    response.filters.storage = filter_storage;
                    let ghost handed = response;
                    let ghost routed_context = context;
                    let outcome = route(config, context, response);
                    proof {
                        let (endpoint, created) = choose|
                            endpoint: Endpoint<R::Handler>,
                            created: HandlerOf<R, C, G, RF>,
                        | #[trigger]
                            routed(config, routed_context, handed, endpoint, created, outcome);
                        let trace = DispatchTrace {
                            date,
                            headers,
                            parsed: parsed_target,
                            states,
                            action,
                            endpoint,
                            created,
                        };
                        assert(dispatched(
                            config,
                            *global,
                            *response_filters,
                            control,
                            request,
                            trace,
                            outcome,
                        ));
                    }
                    outcome
                },
                ContextAction::Abort(status) => {
                    let outcome = error_response(status, response.headers);
                    proof {
                        let trace = DispatchTrace {
                            date,
                            headers,
                            parsed: parsed_target,
                            states,
                            action,
                            endpoint: arbitrary(),
                            created: arbitrary(),
                        };
                        assert(dispatched(
                            config,
                            *global,
                            *response_filters,
                            control,
                            request,
                            trace,
                            outcome,
                        ));
                    }
                    outcome
                },
            }
        },
        None => {
            let outcome = error_response(StatusCode::bad_request(), response.headers);
            proof {
                let trace = DispatchTrace {
                    date,
                    headers,
                    parsed: parsed_target,
                    states: arbitrary(),
                    action: arbitrary(),
                    endpoint: arbitrary(),
                    created: arbitrary(),
                };
                assert(dispatched(
                    config,
                    *global,
                    *response_filters,
                    control,
                    request,
                    trace,
                    outcome,
                ));
            }
            outcome
        },
    }
}

/// A request whose target has no canonical form is answered with
/// `400 Bad Request` and no body, whatever its method and its headers, and no
/// filter, router or handler has a part in it.
pub proof fn lemma_unreadable_target_is_bad_request<
    R: Router<C, G, RF>,
    CF: ContextFilter<C, G>,
    RF,
    G,
    C,
>(
    config: &Config<R, CF, RF, G, C>,
    global: Arc<G>,
    response_filters: Arc<Vec<RF>>,
    control: C,
    request: Request,
    trace: DispatchTrace<'_, R, RF, G, C>,
    outcome: (WriteMethod<HandlerOf<R, C, G, RF>>, Next),
)
    requires
        dispatched(config, global, response_filters, control, request, trace, outcome),
        request.target is Authority,
    ensures
        outcome.1 == Next::Write,
        outcome.0 matches WriteMethod::Error(Some(head)) && head.status.code == BAD_REQUEST
            && head.headers@ == default_fields(trace.date, config.content_type@, config.server@),
{
}

/// A request that the filters let pass, for which the router finds no
/// handler and the server has no fallback, is answered with `404 Not Found`
/// and no body.
pub proof fn lemma_no_handler_is_not_found<R: Router<C, G, RF>, CF: ContextFilter<C, G>, RF, G, C>(
    config: &Config<R, CF, RF, G, C>,
    global: Arc<G>,
    response_filters: Arc<Vec<RF>>,
    control: C,
    request: Request,
    trace: DispatchTrace<'_, R, RF, G, C>,
    outcome: (WriteMethod<HandlerOf<R, C, G, RF>>, Next),
)
    requires
        dispatched(config, global, response_filters, control, request, trace, outcome),
        trace.parsed is Some,
        trace.action == ContextAction::Next,
        trace.endpoint.handler is None,
        config.fallback_handler is None,
    ensures
        outcome.1 == Next::Write,
        outcome.0 matches WriteMethod::Error(Some(head)) && head.status.code == NOT_FOUND
            && head.headers@ == default_fields(trace.date, config.content_type@, config.server@),
{
}

/// A request that a filter aborts is answered with the status that the
/// filter chose and no body; the router is not asked and no handler is
/// created.
pub proof fn lemma_abort_sets_status<R: Router<C, G, RF>, CF: ContextFilter<C, G>, RF, G, C>(
    config: &Config<R, CF, RF, G, C>,
    global: Arc<G>,
    response_filters: Arc<Vec<RF>>,
    control: C,
    request: Request,
    trace: DispatchTrace<'_, R, RF, G, C>,
    outcome: (WriteMethod<HandlerOf<R, C, G, RF>>, Next),
    status: StatusCode,
)
    requires
        dispatched(config, global, response_filters, control, request, trace, outcome),
        trace.parsed is Some,
        trace.action == ContextAction::Abort(status),
    ensures
        outcome.1 == Next::Write,
        outcome.0 matches WriteMethod::Error(Some(head)) && head.status == status
            && head.headers@ == default_fields(trace.date, config.content_type@, config.server@),
{
}

/// A handler is created only for a request that has a canonical target, that
/// every context filter let pass, and for which a handler was found or a
/// fallback stands by.
pub proof fn lemma_handler_is_chosen<R: Router<C, G, RF>, CF: ContextFilter<C, G>, RF, G, C>(
    config: &Config<R, CF, RF, G, C>,
    global: Arc<G>,
    response_filters: Arc<Vec<RF>>,
    control: C,
    request: Request,
    trace: DispatchTrace<'_, R, RF, G, C>,
    outcome: (WriteMethod<HandlerOf<R, C, G, RF>>, Next),
)
    requires
        dispatched(config, global, response_filters, control, request, trace, outcome),
        outcome.0 is Handler,
    ensures
        !(request.target is Authority),
        trace.parsed is Some,
        trace.action == ContextAction::Next,
        trace.states.len() == config.context_filters@.len() + 1,
        trace.endpoint.handler is Some || config.fallback_handler is Some,
{
}

impl<R: Router<C, G, RF>, CF: ContextFilter<C, G>, RF, G, C> RequestHandler<R, CF, RF, G, C> {
    /// The configuration of the server.
    pub closed spec fn config(&self) -> Config<R, CF, RF, G, C> {
        *self.config
    }

    /// The state that the server shares.
    pub closed spec fn global(&self) -> Arc<G> {
        self.global
    }

    /// The response filters of the server.
    pub closed spec fn response_filters(&self) -> Arc<Vec<RF>> {
        self.response_filters
    }

    /// How the response is written, once a request is dispatched.
    pub closed spec fn write_method(&self) -> Option<WriteMethod<HandlerOf<R, C, G, RF>>> {
        self.write_method
    }

    /// The handle of the connection, until a request is dispatched.
    pub closed spec fn control(&self) -> Option<C> {
        self.control
    }

    /// Whether two states belong to the same server.
    pub open spec fn same_server(&self, other: &Self) -> bool {
        &&& self.config() == other.config()
        &&& self.global() == other.global()
        &&& self.response_filters() == other.response_filters()
    }

    /// The state machine of a new connection.
    pub fn new(
        config: Arc<Config<R, CF, RF, G, C>>,
        response_filters: Arc<Vec<RF>>,
        global: Arc<G>,
        control: C,
    ) -> (handler: Self)
        ensures
            handler.config() == *config,
            handler.global() == global,
            handler.response_filters() == response_filters,
            handler.write_method() is None,
            handler.control() == Some(control),
    {
        RequestHandler { config, global, response_filters, write_method: None, control: Some(control) }
    }

    /// Whether the connection has dispatched its request.
    pub fn is_consumed(&self) -> (consumed: bool)
        ensures
            consumed == (self.control() is None),
    {
        self.control.is_none()
    }

    /// A request has arrived. The handle of the connection is taken, once and
    /// for all, and goes into the context of the request; the request is
    /// dispatched, and the way its response is written is kept. A second call
    /// finds no handle: it is refused and changes nothing.
    pub fn on_request(&mut self, request: Request) -> (result: Result<Next, DispatchError>)
        ensures
            final(self).same_server(old(self)),
            final(self).control() is None,
            match old(self).control() {
                Some(control) => {
                    &&& result matches Ok(next)
                    &&& final(self).write_method() matches Some(write_method)
                    &&& exists|trace: DispatchTrace<R, RF, G, C>| #[trigger]
                        dispatched(
                            &old(self).config(),
                            old(self).global(),
                            old(self).response_filters(),
                            control,
                            request,
                            trace,
                            (write_method, next),
                        )
                },
                None => {
                    &&& result == Err::<Next, DispatchError>(DispatchError::Reused)
                    &&& final(self).write_method() == old(self).write_method()
                },
            },
    {
        match self.control.take() {
            Some(control) => {
                let (write_method, next) = dispatch(
                    &self.config,
                    &self.global,
                    &self.response_filters,
                    control,
                    request,
                );
                self.write_method = Some(write_method);
                Ok(next)
            },
            None => Err(DispatchError::Reused),
        }
    }

    /// A part of the request's body can be read. It goes to the handler;
    /// without a handler it is passed over, and the response is to be written.
    pub fn on_request_readable(&mut self, chunk: &[u8]) -> (next: Next)
        ensures
            final(self).same_server(old(self)),
            final(self).control() == old(self).control(),
            match old(self).write_method() {
                Some(WriteMethod::Handler(handler)) => {
                    &&& final(self).write_method() matches Some(WriteMethod::Handler(after))
                    &&& <HandlerOf<R, C, G, RF> as RawHandler>::reads(handler, chunk@, after, next)
                },
                _ => next == Next::Write && final(self).write_method() == old(self).write_method(),
            },
    {
        match &mut self.write_method {
            Some(WriteMethod::Handler(handler)) => handler.on_request_readable(chunk),
            _ => Next::Write,
        }
    }

    /// The head of the response is asked for. A handler gives its own. An
    /// error response gives its head once, and with it the end of the
    /// response: it has no body. Asked before a request was dispatched, or a
    /// second time for the head of an error response, the call is refused and
    /// changes nothing.
    pub fn on_response(&mut self) -> (result: Result<(ResponseHead, Next), DispatchError>)
        ensures
            final(self).same_server(old(self)),
            final(self).control() == old(self).control(),
            match old(self).write_method() {
                Some(WriteMethod::Handler(handler)) => {
                    &&& result matches Ok(answer)
                    &&& final(self).write_method() matches Some(WriteMethod::Handler(after))
                    &&& <HandlerOf<R, C, G, RF> as RawHandler>::responds(
                        handler,
                        after,
                        answer.0,
                        answer.1,
                    )
                },
                Some(WriteMethod::Error(Some(head))) => {
                    &&& result == Ok::<(ResponseHead, Next), DispatchError>((head, Next::End))
                    &&& final(self).write_method() == Some(
                        WriteMethod::<HandlerOf<R, C, G, RF>>::Error(None),
                    )
                },
                Some(WriteMethod::Error(None)) => {
                    &&& result == Err::<(ResponseHead, Next), DispatchError>(
                        DispatchError::MissingResponseHead,
                    )
                    &&& final(self).write_method() == old(self).write_method()
                },
                None => {
                    &&& result == Err::<(ResponseHead, Next), DispatchError>(
                        DispatchError::MissingWriteMethod,
                    )
                    &&& final(self).write_method() == old(self).write_method()
                },
            },
    {
        match &mut self.write_method {
            Some(WriteMethod::Handler(handler)) => Ok(handler.on_response()),
            Some(WriteMethod::Error(head)) => match head.take() {
                Some(head) => Ok((head, Next::End)),
                None => Err(DispatchError::MissingResponseHead),
            },
            None => Err(DispatchError::MissingWriteMethod),
        }
    }

    /// A part of the response's body can be written. The handler writes it;
    /// without a handler nothing is written, and the response is at its end.
    pub fn on_response_writable(&mut self, sink: &mut Vec<u8>) -> (next: Next)
        ensures
            final(self).same_server(old(self)),
            final(self).control() == old(self).control(),
            match old(self).write_method() {
                Some(WriteMethod::Handler(handler)) => {
                    &&& final(self).write_method() matches Some(WriteMethod::Handler(after))
                    &&& <HandlerOf<R, C, G, RF> as RawHandler>::writes(
                        handler,
                        old(sink)@,
                        after,
                        final(sink)@,
                        next,
                    )
                },
                _ => {
                    &&& next == Next::End
                    &&& final(sink)@ == old(sink)@
                    &&& final(self).write_method() == old(self).write_method()
                },
            },
    {
        match &mut self.write_method {
            Some(WriteMethod::Handler(handler)) => handler.on_response_writable(sink),
            _ => Next::End,
        }
    }
}

} // verus!
