//! The connection registry: live transport connections keyed by remote
//! address (address integer and port; v4 addresses in their v4-mapped v6
//! form), each mapped to the handle of its outbound channel. The map is the
//! concurrent map of the `dashmap` crate, held behind trusted wrappers;
//! each wrapper guards exactly one map operation, so no broadcast or I/O
//! ever happens while a shard lock is held.

use vstd::prelude::*;

use dashmap::DashMap;
use std::collections::hash_map::RandomState;

verus! {

#[verifier::external_type_specification]
#[verifier::external_body]
#[verifier::reject_recursive_types(K)]
#[verifier::reject_recursive_types(V)]
#[verifier::reject_recursive_types(S)]
pub struct ExDashMap<K, V, S>(DashMap<K, V, S>);

/// What the registry's map holds: remote address to channel handle.
pub uninterp spec fn peer_entries(m: DashMap<(u128, u16), u64, RandomState>) -> Map<
    (u128, u16),
    u64,
>;

/// Relies on dashmap::DashMap::new: a map with no entries.
#[verifier::external_body]
fn dashmap_new() -> (m: DashMap<(u128, u16), u64, RandomState>)
    ensures
        peer_entries(m) =~= Map::empty(),
{
    DashMap::new()
}

/// Relies on dashmap::DashMap::insert: maps the key to the value and
/// returns the value it replaced, if any.
#[verifier::external_body]
fn dashmap_insert(m: &mut DashMap<(u128, u16), u64, RandomState>, k: (u128, u16), v: u64) -> (prev:
    Option<u64>)
    ensures
        peer_entries(*final(m)) == peer_entries(*old(m)).insert(k, v),
        prev == if peer_entries(*old(m)).dom().contains(k) {
            Option::Some(peer_entries(*old(m))[k])
        } else {
            Option::<u64>::None
        },
{
    m.insert(k, v)
}

/// Relies on dashmap::DashMap::remove: removes the key's entry and returns
/// its value, if one existed.
#[verifier::external_body]
fn dashmap_remove(m: &mut DashMap<(u128, u16), u64, RandomState>, k: &(u128, u16)) -> (prev: Option<
    u64,
>)
    ensures
        peer_entries(*final(m)) == peer_entries(*old(m)).remove(*k),
        prev == if peer_entries(*old(m)).dom().contains(*k) {
            Option::Some(peer_entries(*old(m))[*k])
        } else {
            Option::<u64>::None
        },
{
    m.remove(k).map(|p| p.1)
}

/// Relies on dashmap::DashMap::contains_key.
#[verifier::external_body]
fn dashmap_contains(m: &DashMap<(u128, u16), u64, RandomState>, k: &(u128, u16)) -> (r: bool)
    ensures
        r == peer_entries(*m).dom().contains(*k),
{
    m.contains_key(k)
}

/// The registry of live viewer connections.
pub struct PeerMap {
    map: DashMap<(u128, u16), u64, RandomState>,
}

impl PeerMap {
    /// The registry's contents: remote address to channel handle.
    pub closed spec fn entries(&self) -> Map<(u128, u16), u64> {
        peer_entries(self.map)
    }

    pub fn new() -> (m: PeerMap)
        ensures
            m.entries() == Map::<(u128, u16), u64>::empty(),
    {
        PeerMap { map: dashmap_new() }
    }

    /// Adds (or replaces) the connection for one remote address, returning
    /// the handle it displaced, if any.
    pub fn register(&mut self, addr: u128, port: u16, handle: u64) -> (prev: Option<u64>)
        ensures
            final(self).entries() == old(self).entries().insert((addr, port), handle),
            prev == if old(self).entries().dom().contains((addr, port)) {
                Option::Some(old(self).entries()[(addr, port)])
            } else {
                Option::<u64>::None
            },
    {
        dashmap_insert(&mut self.map, (addr, port), handle)
    }

    /// Removes the connection for one remote address, returning its
    /// handle if it was registered.
    pub fn unregister(&mut self, addr: u128, port: u16) -> (prev: Option<u64>)
        ensures
            final(self).entries() == old(self).entries().remove((addr, port)),
            prev == if old(self).entries().dom().contains((addr, port)) {
                Option::Some(old(self).entries()[(addr, port)])
            } else {
                Option::<u64>::None
            },
    {
        dashmap_remove(&mut self.map, &(addr, port))
    }

    /// Whether a connection from this remote address is registered.
    pub fn contains(&self, addr: u128, port: u16) -> (r: bool)
        ensures
            r == self.entries().dom().contains((addr, port)),
    {
        dashmap_contains(&self.map, &(addr, port))
    }
}

} // verus!
