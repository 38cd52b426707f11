//! The size-bounded store behind the tile caches.
//!
//! Both caches keep their tiles in a `moka::sync::Cache`, which decides by
//! itself what to take in and what to evict. To the verifier the store is
//! opaque. The items below say what holds of it whatever it decides: a
//! lookup answers from what the store holds, and nothing comes to lie in it
//! that was not put there.

use vstd::prelude::*;

use crate::buffer::{shared_bytes, shared_slice};

verus! {

/// `moka::sync::Cache`, made known so that it can stand in a field.
#[verifier::external_type_specification]
#[verifier::external_body]
#[verifier::reject_recursive_types(K)]
#[verifier::reject_recursive_types(V)]
#[verifier::reject_recursive_types(S)]
pub struct ExCache<K, V, S>(moka::sync::Cache<K, V, S>);

/// The key of a stored tile: slide, level, column, row.
pub type StoreKey = (u64, u32, u32, u32);

/// A stored tile: its bytes, width and height.
pub type StoreValue = (bytes::Bytes, u32, u32);

/// The store that both caches use.
pub type Store = moka::sync::Cache<(u64, u32, u32, u32), (bytes::Bytes, u32, u32)>;

/// The tiles that a lookup in the store finds, each as bytes, width, height.
pub uninterp spec fn stored(
    s: moka::sync::Cache<(u64, u32, u32, u32), (bytes::Bytes, u32, u32)>,
) -> Map<(u64, u32, u32, u32), (Seq<u8>, u32, u32)>;

/// The weight up to which the store was made to hold tiles; the greatest
/// number for a store that was made without a limit.
pub uninterp spec fn store_capacity(
    s: moka::sync::Cache<(u64, u32, u32, u32), (bytes::Bytes, u32, u32)>,
) -> u64;

/// The number of tiles that the store has counted. The store keeps this
/// count itself and brings it up to date only when its maintenance runs, so
/// it may lag behind what a lookup finds.
pub uninterp spec fn store_counted(
    s: moka::sync::Cache<(u64, u32, u32, u32), (bytes::Bytes, u32, u32)>,
) -> u64;

/// The total weight of the tiles that the store has counted. Like the
/// count, the store brings it up to date only when its maintenance runs.
pub uninterp spec fn store_weighed(
    s: moka::sync::Cache<(u64, u32, u32, u32), (bytes::Bytes, u32, u32)>,
) -> u64;

/// The store holds nothing and has counted nothing.
pub open spec fn unused(
    s: moka::sync::Cache<(u64, u32, u32, u32), (bytes::Bytes, u32, u32)>,
) -> bool {
    &&& stored(s).dom() == Set::<StoreKey>::empty()
    &&& store_counted(s) == 0
    &&& store_weighed(s) == 0
}

/// The limit that a store reports, as a number.
pub open spec fn limit_of(reported: Option<u64>) -> u64 {
    match reported {
        Some(limit) => limit,
        None => u64::MAX,
    }
}

/// A stored tile as a plain value.
pub open spec fn value_view(v: StoreValue) -> (Seq<u8>, u32, u32) {
    (shared_bytes(v.0), v.1, v.2)
}

/// The weight of a tile in the store: the number of its bytes, at most
/// `u32::MAX`.
pub fn entry_weight(value: &StoreValue) -> (w: u32)
    ensures
        w == if shared_bytes(value.0).len() > u32::MAX {
            u32::MAX as int
        } else {
            shared_bytes(value.0).len() as int
        },
{
    let n = shared_slice(&value.0).len();
    if n > u32::MAX as usize {
        u32::MAX
    } else {
        n as u32
    }
}

/// `Cache::builder`, `max_capacity`, `weigher` and `build` of moka: a new
/// store made to hold up to `max_bytes` of weight, which holds nothing and
/// has counted nothing. A tile weighs what `entry_weight` says.
#[verifier::external_body]
pub(crate) fn store_new(max_bytes: u64) -> (s: Store)
    ensures
        stored(s).dom() == Set::<StoreKey>::empty(),
        store_capacity(s) == max_bytes,
        store_counted(s) == 0,
        store_weighed(s) == 0,
{
    moka::sync::Cache::builder()
        .max_capacity(max_bytes)
        .weigher(|_key: &StoreKey, value: &StoreValue| -> u32 { entry_weight(value) })
        .build()
}

/// `Cache::get` of moka: the tile stored under `key`, if there is one. The
/// lookup is recorded and may set off maintenance, which may evict tiles but
/// adds none.
#[verifier::external_body]
pub(crate) fn store_get(s: &mut Store, key: &StoreKey) -> (r: Option<StoreValue>)
    ensures
        match r {
            Some(v) => stored(*old(s)).contains_key(*key) && value_view(v) == stored(*old(s))[*key],
            None => !stored(*old(s)).contains_key(*key),
        },
        stored(*final(s)).submap_of(stored(*old(s))),
        store_capacity(*final(s)) == store_capacity(*old(s)),
{
    s.get(key)
}

/// `Cache::insert` of moka: puts the tile under `key`, in place of what was
/// there. The store may refuse the tile or evict others to make room, so
/// afterwards it holds at most what it held and the new tile.
#[verifier::external_body]
pub(crate) fn store_insert(s: &mut Store, key: StoreKey, value: StoreValue)
    ensures
        stored(*final(s)).submap_of(stored(*old(s)).insert(key, value_view(value))),
        store_capacity(*final(s)) == store_capacity(*old(s)),
{
    s.insert(key, value)
}

/// `Cache::contains_key` of moka: whether a lookup of `key` would find a
/// tile. It is not recorded as a lookup and changes nothing.
#[verifier::external_body]
pub(crate) fn store_contains(s: &Store, key: &StoreKey) -> (b: bool)
    ensures
        b == stored(*s).contains_key(*key),
{
    s.contains_key(key)
}

/// `Cache::policy` of moka and `Policy::max_capacity`: the limit that the
/// store was made with, or `None` for a store without a limit.
#[verifier::external_body]
pub(crate) fn store_limit(s: &Store) -> (limit: Option<u64>)
    ensures
        limit_of(limit) == store_capacity(*s),
{
    s.policy().max_capacity()
}

/// `Cache::run_pending_tasks` of moka: runs the maintenance that is due,
/// which may evict tiles but adds none. The maintenance starts from the two
/// counts as they stand and changes them only where it applies the write of
/// a tile that the store still holds or evicts a tile that it has counted:
/// on a store that holds nothing and has counted nothing it leaves both
/// counts at zero. Of any other store nothing is claimed of the counts.
#[verifier::external_body]
pub(crate) fn store_run_pending_tasks(s: &mut Store)
    ensures
        stored(*final(s)).submap_of(stored(*old(s))),
        store_capacity(*final(s)) == store_capacity(*old(s)),
        unused(*old(s)) ==> unused(*final(s)),
{
    s.run_pending_tasks()
}

/// `Cache::entry_count` of moka: the number of tiles that the store has
/// counted. The call reads the count and changes nothing.
#[verifier::external_body]
pub(crate) fn store_entry_count(s: &Store) -> (n: u64)
    ensures
        n == store_counted(*s),
{
    s.entry_count()
}

/// `Cache::weighted_size` of moka: the total weight that the store has
/// counted. The call reads the number and changes nothing.
#[verifier::external_body]
pub(crate) fn store_weighted_size(s: &Store) -> (n: u64)
    ensures
        n == store_weighed(*s),
{
    s.weighted_size()
}

} // verus!
