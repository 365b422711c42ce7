//! The thread stores that tests put in place of a remote one, by endpoint.

use std::sync::Arc;

use vstd::hash_map::StringHashMap;
use vstd::prelude::*;

verus! {

/// Thread stores by the endpoint that they stand in for.
#[verifier::reject_recursive_types(S)]
pub struct TestThreadStores<S: ?Sized> {
    stores: StringHashMap<Arc<S>>,
}

impl<S: ?Sized> View for TestThreadStores<S> {
    type V = Map<Seq<char>, Arc<S>>;

    closed spec fn view(&self) -> Map<Seq<char>, Arc<S>> {
        self.stores@
    }
}

/// The store that is registered for `endpoint`.
pub open spec fn registered<S: ?Sized>(
    stores: Map<Seq<char>, Arc<S>>,
    endpoint: Seq<char>,
) -> Option<Arc<S>> {
    if stores.contains_key(endpoint) {
        Some(stores[endpoint])
    } else {
        None
    }
}

/// Calls `Arc::clone`.
///
/// Trusted of it: the new handle is to the same value.
#[verifier::external_body]
fn share<S: ?Sized>(store: &Arc<S>) -> (r: Arc<S>)
    ensures
        r == *store,
{
    Arc::clone(store)
}

impl<S: ?Sized> TestThreadStores<S> {
    /// No store at all.
    pub fn new() -> (r: TestThreadStores<S>)
        ensures
            r@ == Map::<Seq<char>, Arc<S>>::empty(),
    {
        TestThreadStores { stores: StringHashMap::new() }
    }
}

/// Registers `store` for a synthetic endpoint, in place of any store that was
/// registered for it.
pub fn register_test_thread_store<S: ?Sized>(
    stores: &mut TestThreadStores<S>,
    endpoint: String,
    store: Arc<S>,
)
    ensures
        final(stores)@ == old(stores)@.insert(endpoint@, store),
{
    stores.stores.insert(endpoint, store);
}

/// Removes the store that is registered for `endpoint`.
pub fn remove_test_thread_store<S: ?Sized>(
    stores: &mut TestThreadStores<S>,
    endpoint: &str,
) -> (r: Option<Arc<S>>)
    ensures
        final(stores)@ == old(stores)@.remove(endpoint@),
        r == registered(old(stores)@, endpoint@),
{
    let removed = test_thread_store(stores, endpoint);
    stores.stores.remove(endpoint);
    removed
}

/// The store that is registered for `endpoint`, if there is one.
pub fn test_thread_store<S: ?Sized>(
    stores: &TestThreadStores<S>,
    endpoint: &str,
) -> (r: Option<Arc<S>>)
    ensures
        r == registered(stores@, endpoint@),
{
    match stores.stores.get(endpoint) {
        Some(store) => Some(share(store)),
        None => None,
    }
}

/// A store that was registered is the one that is found, and stands in for no
/// other endpoint.
pub proof fn law_register_then_find<S: ?Sized>(
    stores: Map<Seq<char>, Arc<S>>,
    endpoint: Seq<char>,
    store: Arc<S>,
    other: Seq<char>,
)
    ensures
        registered(stores.insert(endpoint, store), endpoint) == Some(store),
        other != endpoint ==> registered(stores.insert(endpoint, store), other) == registered(
            stores,
            other,
        ),
{
}

/// A store that was removed is not found, and all others still are.
pub proof fn law_remove_then_find<S: ?Sized>(
    stores: Map<Seq<char>, Arc<S>>,
    endpoint: Seq<char>,
    other: Seq<char>,
)
    ensures
        registered(stores.remove(endpoint), endpoint) is None,
        other != endpoint ==> registered(stores.remove(endpoint), other) == registered(
            stores,
            other,
        ),
{
}

/// Removing a store undoes its registration where the endpoint had no store
/// before.
pub proof fn law_remove_undoes_register<S: ?Sized>(
    stores: Map<Seq<char>, Arc<S>>,
    endpoint: Seq<char>,
    store: Arc<S>,
)
    requires
        registered(stores, endpoint) is None,
    ensures
        stores.insert(endpoint, store).remove(endpoint) == stores,
{
    assert(stores.insert(endpoint, store).remove(endpoint) =~= stores);
}

} // verus!
