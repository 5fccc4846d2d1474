//! The number of worker threads of a server.

use vstd::prelude::*;

verus! {

/// The number of worker threads for `cpus` processors where none is
/// configured: five for every four processors, rounded down, and the largest
/// `usize` where that is beyond it.
pub open spec fn default_threads(cpus: nat) -> nat {
    let wanted = cpus * 5 / 4;
    if wanted <= usize::MAX {
        wanted
    } else {
        usize::MAX as nat
    }
}

/// Calls `num_cpus::get`, the number of processors available to this
/// process. Its documentation promises that it is at least 1.
#[verifier::external_body]
pub(crate) fn available_cpus() -> (cpus: usize)
    ensures
        cpus >= 1,
{
    num_cpus::get()
}

/// The default number of worker threads for `cpus` processors.
pub fn default_thread_count(cpus: usize) -> (threads: usize)
    ensures
        threads == default_threads(cpus as nat),
        cpus >= 1 ==> threads >= 1,
{
    let wanted: u128 = (cpus as u128) * 5 / 4;
    if wanted > usize::MAX as u128 {
        usize::MAX
    } else {
        wanted as usize
    }
}

/// The number of worker threads of a server: the configured number, or the
/// default for the processors at hand.
pub fn worker_threads(configured: Option<usize>) -> (threads: usize)
    ensures
        match configured {
            Some(number) => threads == number,
            None => exists|cpus: usize| cpus >= 1 && threads == #[trigger] default_threads(cpus as nat),
        },
{
    match configured {
        Some(number) => number,
        None => default_thread_count(available_cpus()),
    }
}

} // verus!
