//! The chain of context filters that runs before a request is routed.

use crate::context::RawContext;
use crate::status::StatusCode;
use crate::storage::FilterStorage;
use vstd::prelude::*;

verus! {

/// What a context filter decides.
#[derive(Clone, Copy, Debug, PartialEq, Eq, Structural)]
pub enum ContextAction {
    /// Go on with the next filter, or with routing after the last one.
    Next,
    /// Stop here, and answer with this status.
    Abort(StatusCode),
}

/// A filter that may change the context of a request, or stop the request,
/// before it is routed.
pub trait ContextFilter<C, G> {
    /// Whether a call of `modify` that starts with the storage and context
    /// `before` may end with `after` and return `action`. A filter that says
    /// nothing of itself allows every outcome.
    open spec fn modifies(
        &self,
        global: &G,
        before: (FilterStorage, RawContext<C, G>),
        after: (FilterStorage, RawContext<C, G>),
        action: ContextAction,
    ) -> bool {
        true
    }

    fn modify(
        &self,
        storage: &mut FilterStorage,
        global: &G,
        context: &mut RawContext<C, G>,
    ) -> (action: ContextAction)
        ensures
            self.modifies(
                global,
                (*old(storage), *old(context)),
                (*final(storage), *final(context)),
                action,
            ),
    ;
}

/// A filter that may change the body of a response on its way out. It
/// cannot stop the response, nor change its status.
pub trait ResponseFilter<G> {
    /// Whether a call of `write` that starts with the storage
    /// `storage_before` may turn `content` into `filtered` and leave
    /// `storage_after`. A filter that says nothing of itself allows every
    /// outcome.
    open spec fn rewrites(
        &self,
        global: &G,
        storage_before: FilterStorage,
        content: Seq<u8>,
        storage_after: FilterStorage,
        filtered: Seq<u8>,
    ) -> bool {
        true
    }

    fn write(&self, storage: &mut FilterStorage, global: &G, content: Vec<u8>) -> (filtered: Vec<u8>)
        ensures
            self.rewrites(global, *old(storage), content@, *final(storage), filtered@),
    ;
}

/// Call `k` of a run of the response filters: filter `k` takes storage and
/// content from `states[k]` to `states[k + 1]`.
pub open spec fn response_step<G, F: ResponseFilter<G>>(
    filters: Seq<F>,
    global: &G,
    states: Seq<(FilterStorage, Seq<u8>)>,
    k: int,
) -> bool {
    filters[k].rewrites(global, states[k].0, states[k].1, states[k + 1].0, states[k + 1].1)
}

/// A run of the response filters on one part of a body: `states` holds
/// storage and content before the first filter and after each one. Every
/// filter is called once, in order, on what its predecessor left.
pub open spec fn response_run<G, F: ResponseFilter<G>>(
    filters: Seq<F>,
    global: &G,
    states: Seq<(FilterStorage, Seq<u8>)>,
) -> bool {
    &&& states.len() == filters.len() + 1
    &&& forall|k: int| 0 <= k < filters.len() ==> #[trigger] response_step(filters, global, states, k)
}

/// Runs the response filters in order on one part of a body.
pub fn filter_content<G, F: ResponseFilter<G>>(
    response_filters: &[F],
    global: &G,
    filter_storage: &mut FilterStorage,
    content: Vec<u8>,
) -> (filtered: Vec<u8>)
    ensures
        exists|states: Seq<(FilterStorage, Seq<u8>)>|
            {
                &&& #[trigger] response_run(response_filters@, global, states)
                &&& states.first() == (*old(filter_storage), content@)
                &&& states.last() == (*final(filter_storage), filtered@)
            },
{
    let ghost given = content@;
    let ghost mut states: Seq<(FilterStorage, Seq<u8>)> = seq![(*filter_storage, given)];
    let mut content = content;
    let mut i: usize = 0;
    while i < response_filters.len()
        invariant
            i <= response_filters@.len(),
            states.len() == i + 1,
            states.first() == (*old(filter_storage), given),
            states.last() == (*filter_storage, content@),
            forall|k: int| 0 <= k < i ==> #[trigger] response_step(response_filters@, global, states, k),
        decreases response_filters@.len() - i,
    {
        let ghost before = states;
        content = response_filters[i].write(filter_storage, global, content);
        proof {
            states = before.push((*filter_storage, content@));
            assert forall|k: int| 0 <= k < i implies #[trigger] response_step(
                response_filters@,
                global,
                states,
                k,
            ) by {
                assert(response_step(response_filters@, global, before, k));
                assert(states[k] == before[k]);
                assert(states[k + 1] == before[k + 1]);
            }
            assert(states[i as int] == before.last());
            assert(response_step(response_filters@, global, states, i as int));
        }
        i = i + 1;
    }
    proof {
        assert(response_run(response_filters@, global, states));
    }
    content
}

/// Call `k` of a run: filter `k` takes `states[k]` to `states[k + 1]` and
/// returns `action`.
pub open spec fn chain_step<C, G, F: ContextFilter<C, G>>(
    filters: Seq<F>,
    global: &G,
    states: Seq<(FilterStorage, RawContext<C, G>)>,
    k: int,
    action: ContextAction,
) -> bool {
    filters[k].modifies(global, states[k], states[k + 1], action)
}

/// A run of the chain: `states` holds storage and context before the first
/// call and after each call made, and `action` is what the run returns.
/// Filters are called in order, each on what its predecessor left; every call
/// but the last returned `Next`; the last call returned `action`. After
/// `Next` every filter was called. After `Abort` no filter behind the one
/// that aborted was called.
pub open spec fn chain_run<C, G, F: ContextFilter<C, G>>(
    filters: Seq<F>,
    global: &G,
    states: Seq<(FilterStorage, RawContext<C, G>)>,
    action: ContextAction,
) -> bool {
    let calls = states.len() - 1;
    &&& 0 <= calls <= filters.len()
    &&& forall|k: int|
        0 <= k < calls - 1 ==> #[trigger] chain_step(
            filters,
            global,
            states,
            k,
            ContextAction::Next,
        )
    &&& calls >= 1 ==> chain_step(filters, global, states, calls - 1, action)
    &&& match action {
        ContextAction::Next => calls == filters.len(),
        ContextAction::Abort(_) => calls >= 1,
    }
}

/// The number of filters that a run called.
pub open spec fn chain_calls<C, G>(states: Seq<(FilterStorage, RawContext<C, G>)>) -> int {
    states.len() - 1
}

/// Where the filter at position `k` aborts, the filters before it have
/// returned `Next`, it is the last filter that is called, and what it leaves
/// of storage and context is what the chain leaves.
pub proof fn lemma_abort_ends_chain<C, G, F: ContextFilter<C, G>>(
    filters: Seq<F>,
    global: &G,
    states: Seq<(FilterStorage, RawContext<C, G>)>,
    status: StatusCode,
)
    requires
        chain_run(filters, global, states, ContextAction::Abort(status)),
    ensures
        1 <= chain_calls(states) <= filters.len(),
        forall|k: int|
            0 <= k < chain_calls(states) - 1 ==> #[trigger] chain_step(
                filters,
                global,
                states,
                k,
                ContextAction::Next,
            ),
        chain_step(
            filters,
            global,
            states,
            chain_calls(states) - 1,
            ContextAction::Abort(status),
        ),
        states.last() == states[chain_calls(states)],
{
}

/// Where the chain returns `Next`, every filter was called, each once and in
/// order, and each returned `Next`.
pub proof fn lemma_pass_runs_every_filter<C, G, F: ContextFilter<C, G>>(
    filters: Seq<F>,
    global: &G,
    states: Seq<(FilterStorage, RawContext<C, G>)>,
)
    requires
        chain_run(filters, global, states, ContextAction::Next),
    ensures
        chain_calls(states) == filters.len(),
        forall|k: int|
            0 <= k < filters.len() ==> #[trigger] chain_step(
                filters,
                global,
                states,
                k,
                ContextAction::Next,
            ),
{
}

/// Runs the filters in order on the storage and the context, until one of
/// them aborts or all have run.
pub fn modify_context<C, G, F: ContextFilter<C, G>>(
    context_filters: &[F],
    global: &G,
    filter_storage: &mut FilterStorage,
    context: &mut RawContext<C, G>,
) -> (action: ContextAction)
    ensures
        exists|states: Seq<(FilterStorage, RawContext<C, G>)>|
            {
                &&& #[trigger] chain_run(context_filters@, global, states, action)
                &&& states.first() == (*old(filter_storage), *old(context))
                &&& states.last() == (*final(filter_storage), *final(context))
            },
{
    let ghost mut states: Seq<(FilterStorage, RawContext<C, G>)> = seq![
        (*filter_storage, *context),
    ];
    let mut i: usize = 0;
    while i < context_filters.len()
        invariant
            i <= context_filters@.len(),
            states.len() == i + 1,
            states.first() == (*old(filter_storage), *old(context)),
            states.last() == (*filter_storage, *context),
            forall|k: int|
                0 <= k < i ==> #[trigger] chain_step(
                    context_filters@,
                    global,
                    states,
                    k,
                    ContextAction::Next,
                ),
        decreases context_filters@.len() - i,
    {
        let ghost before = states;
        let result = context_filters[i].modify(filter_storage, global, context);
        proof {
            states = before.push((*filter_storage, *context));
            assert forall|k: int| 0 <= k < i implies #[trigger] chain_step(
                context_filters@,
                global,
                states,
                k,
                ContextAction::Next,
            ) by {
                assert(chain_step(context_filters@, global, before, k, ContextAction::Next));
                assert(states[k] == before[k]);
                assert(states[k + 1] == before[k + 1]);
            }
            assert(states[i as int] == before.last());
            assert(chain_step(context_filters@, global, states, i as int, result));
        }
        match result {
            ContextAction::Next => {},
            ContextAction::Abort(_) => {
                proof {
                    assert(chain_run(context_filters@, global, states, result));
                }
                return result;
            },
        }
        i = i + 1;
    }
    proof {
        assert(chain_run(context_filters@, global, states, ContextAction::Next));
    }
    ContextAction::Next
}

} // verus!
