//! Storage that filters share during one request, keyed by the type of what
//! is stored.

use vstd::prelude::*;

verus! {

/// The storage handed to the filters of one request. Filters reach the
/// collection through `items`; dispatch itself only creates it and hands it
/// on.
#[verifier::external_body]
pub struct FilterStorage {
    pub items: anymap::Map<dyn anymap::any::Any + Send>,
}

/// The number of items that a storage holds.
pub uninterp spec fn stored_items(storage: FilterStorage) -> nat;

/// Calls `anymap::Map::new`, which creates an empty collection.
#[verifier::external_body]
pub(crate) fn new_storage() -> (storage: FilterStorage)
    ensures
        stored_items(storage) == 0,
{
    FilterStorage { items: anymap::Map::new() }
}

} // verus!
