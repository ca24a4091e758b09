//! The echo-suppression registry: a process-wide concurrent mapping from
//! normalized relative path to the content digest most recently observed
//! for it, whether produced locally after a watcher event or received from
//! the peer.
//!
//! The store itself is a concurrent hash map from an outside crate; the
//! library sees it only through the trusted operations below, whose
//! contracts speak of the mathematical map the store holds.

use vstd::prelude::*;
use std::collections::hash_map::RandomState;

verus! {

#[verifier::external_type_specification]
#[verifier::external_body]
#[verifier::reject_recursive_types(K)]
#[verifier::reject_recursive_types(V)]
#[verifier::reject_recursive_types(S)]
pub struct ExDashMap<K, V, S>(dashmap::DashMap<K, V, S>);

/// The mapping a registry store holds, from path bytes to digest bytes.
pub uninterp spec fn registry_map(m: dashmap::DashMap<Vec<u8>, Vec<u8>, RandomState>) -> Map<
    Seq<u8>,
    Seq<u8>,
>;

/// The mathematical map of a registry that holds nothing.
pub open spec fn empty_registry() -> Map<Seq<u8>, Seq<u8>> {
    Map::empty()
}

/// The registry.  Key equality is byte-exact, as is digest comparison.
/// The store is opaque; every fact about it goes through `registry_map`.
pub struct SyncRegistry {
    pub map: dashmap::DashMap<Vec<u8>, Vec<u8>, RandomState>,
}

impl View for SyncRegistry {
    type V = Map<Seq<u8>, Seq<u8>>;

    open spec fn view(&self) -> Map<Seq<u8>, Seq<u8>> {
        registry_map(self.map)
    }
}

impl SyncRegistry {
    /// The mathematical map this registry holds.
    pub open spec fn entries(self) -> Map<Seq<u8>, Seq<u8>> {
        registry_map(self.map)
    }

    /// Relies on `dashmap::DashMap::new`: a newly made map holds nothing.
    #[verifier::external_body]
    pub fn new() -> (out: SyncRegistry)
        ensures
            out@ == empty_registry(),
    {
        SyncRegistry { map: dashmap::DashMap::new() }
    }

    /// Relies on `dashmap::DashMap::insert`: maps the key to the value,
    /// replacing any prior entry for it.
    #[verifier::external_body]
    pub fn insert(&mut self, key: Vec<u8>, digest: Vec<u8>)
        ensures
            registry_map(final(self).map) == registry_map(old(self).map).insert(key@, digest@),
    {
        self.map.insert(key, digest);
    }

    /// Relies on `dashmap::DashMap::remove`: removes the key's entry and
    /// returns the value it held, if any.
    #[verifier::external_body]
    pub fn remove(&mut self, key: &[u8]) -> (r: Option<Vec<u8>>)
        ensures
            registry_map(final(self).map) == registry_map(old(self).map).remove(key@),
            r is Some <==> registry_map(old(self).map).contains_key(key@),
            r matches Some(d) ==> d@ == registry_map(old(self).map)[key@],
    {
        self.map.remove(key).map(|kv| kv.1)
    }

    /// Relies on `dashmap::DashMap::get`: returns the value the key maps
    /// to, if any.
    #[verifier::external_body]
    pub fn get(&self, key: &[u8]) -> (r: Option<Vec<u8>>)
        ensures
            r is Some <==> registry_map(self.map).contains_key(key@),
            r matches Some(d) ==> d@ == registry_map(self.map)[key@],
    {
        self.map.get(key).map(|v| v.value().clone())
    }
}

} // verus!
