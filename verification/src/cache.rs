//! Cache keys and the two tile caches.

use std::collections::hash_map::DefaultHasher;
use std::hash::Hasher;
use vstd::prelude::*;
use vstd::std_specs::hash::DefaultHasherAdditionalSpecFns;
use vstd::string::*;

use crate::decoder::{CompressedTileData, TileData};
use crate::store::{store_capacity, store_contains, store_counted, store_entry_count};
use crate::store::{store_get, store_insert, store_limit, store_new, store_run_pending_tasks};
use crate::store::{store_weighed, store_weighted_size, stored, unused};
use crate::store::{value_view, Store, StoreKey, StoreValue};
use crate::text::{decimal, push_decimal};

verus! {

/// Tile coordinate key.
#[derive(Debug, Clone, Copy, PartialEq, Eq, Hash, Structural)]
pub struct TileCoord {
    pub level: u32,
    pub col: u32,
    pub row: u32,
}

impl TileCoord {
    pub fn new(level: u32, col: u32, row: u32) -> (c: TileCoord)
        ensures
            c == (TileCoord { level, col, row }),
    {
        TileCoord { level, col, row }
    }

    /// The coordinate as it is written in messages: `level/col_row`.
    pub open spec fn text(self) -> Seq<char> {
        decimal(self.level as nat) + "/"@ + decimal(self.col as nat) + "_"@ + decimal(
            self.row as nat,
        )
    }

    /// Writes the coordinate as `level/col_row`.
    pub fn to_string(&self) -> (s: String)
        ensures
            s@ == self.text(),
    {
        let mut s = String::new();
        push_decimal(&mut s, self.level as u64);
        s.append("/");
        push_decimal(&mut s, self.col as u64);
        s.append("_");
        push_decimal(&mut s, self.row as u64);
        assert(s@ =~= self.text());
        s
    }
}

/// Tile coordinate key that includes a slide identifier, so that tiles of
/// several slides can lie in one cache.
#[derive(Debug, Clone, Copy, PartialEq, Eq, Hash, Structural)]
pub struct SlideTileCoord {
    pub slide_id: u64,
    pub level: u32,
    pub col: u32,
    pub row: u32,
}

impl SlideTileCoord {
    pub fn new(slide_id: u64, level: u32, col: u32, row: u32) -> (c: SlideTileCoord)
        ensures
            c == (SlideTileCoord { slide_id, level, col, row }),
    {
        SlideTileCoord { slide_id, level, col, row }
    }
}

/// The key of a tile of slide `slide_id` in the compressed cache.
pub open spec fn l2_key(slide_id: u64, c: TileCoord) -> StoreKey {
    (slide_id, c.level, c.col, c.row)
}

/// A key of one of the caches.
pub trait CacheKey {
    /// The key under which the tile lies in the store.
    spec fn store_key(&self) -> StoreKey;

    /// Computes the key under which the tile lies in the store.
    fn to_store_key(&self) -> (k: StoreKey)
        ensures
            k == self.store_key(),
    ;
}

impl CacheKey for TileCoord {
    open spec fn store_key(&self) -> StoreKey {
        (0u64, self.level, self.col, self.row)
    }

    fn to_store_key(&self) -> (k: StoreKey) {
        (0u64, self.level, self.col, self.row)
    }
}

impl CacheKey for SlideTileCoord {
    open spec fn store_key(&self) -> StoreKey {
        (self.slide_id, self.level, self.col, self.row)
    }

    fn to_store_key(&self) -> (k: StoreKey) {
        (self.slide_id, self.level, self.col, self.row)
    }
}

/// Cache statistics. The size and the number of tiles are the store's own
/// estimates.
#[derive(Debug, Clone, Copy, Default)]
pub struct CacheStats {
    pub hits: u64,
    pub misses: u64,
    pub size_bytes: usize,
    pub num_tiles: usize,
}

/// Trait for cache values that report their size in bytes.
pub trait Weighted: Sized {
    /// The value as it lies in the store: bytes, width, height.
    spec fn parts(&self) -> (Seq<u8>, u32, u32);

    /// Size in bytes, by which the cache weighs the value.
    fn size_bytes(&self) -> (n: usize)
        ensures
            n == self.parts().0.len(),
    ;

    /// Takes the value apart for the store.
    fn into_parts(self) -> (p: StoreValue)
        ensures
            value_view(p) == self.parts(),
    ;

    /// Puts a value together that came out of the store.
    fn from_parts(p: StoreValue) -> (v: Self)
        ensures
            v.parts() == value_view(p),
    ;
}

impl Weighted for TileData {
    open spec fn parts(&self) -> (Seq<u8>, u32, u32) {
        (self@.rgb, self.width, self.height)
    }

    fn size_bytes(&self) -> (n: usize) {
        TileData::size_bytes(self)
    }

    fn into_parts(self) -> (p: StoreValue) {
        (self.data, self.width, self.height)
    }

    fn from_parts(p: StoreValue) -> (v: TileData) {
        TileData { data: p.0, width: p.1, height: p.2 }
    }
}

impl Weighted for CompressedTileData {
    open spec fn parts(&self) -> (Seq<u8>, u32, u32) {
        (self@.data, self.width, self.height)
    }

    fn size_bytes(&self) -> (n: usize) {
        CompressedTileData::size_bytes(self)
    }

    fn into_parts(self) -> (p: StoreValue) {
        (self.jpeg_bytes, self.width, self.height)
    }

    fn from_parts(p: StoreValue) -> (v: CompressedTileData) {
        CompressedTileData { jpeg_bytes: p.0, width: p.1, height: p.2 }
    }
}

/// What a cache holds and has counted.
pub struct CacheView {
    /// The tiles that a lookup finds.
    pub entries: Map<StoreKey, (Seq<u8>, u32, u32)>,
    /// Lookups that found a tile.
    pub hits: u64,
    /// Lookups that found none.
    pub misses: u64,
    /// The size limit in bytes that the store was made with.
    pub capacity: u64,
    /// The number of tiles that the store has counted: its own estimate,
    /// which it brings up to date when its maintenance runs.
    pub counted: u64,
    /// The bytes of the tiles that the store has counted, an estimate
    /// likewise.
    pub weighed: u64,
}

/// A counter one higher, starting over after the greatest value.
pub open spec fn bumped(n: u64) -> u64 {
    if n == u64::MAX {
        0
    } else {
        (n + 1) as u64
    }
}

impl CacheView {
    /// The cache holds no tile, and its store has counted none.
    pub open spec fn unused(self) -> bool {
        &&& self.entries.dom() == Set::<StoreKey>::empty()
        &&& self.counted == 0
        &&& self.weighed == 0
    }
}

/// An empty cache with its counters at zero and the size limit `capacity`.
pub open spec fn vacant(capacity: u64) -> CacheView {
    CacheView { entries: Map::empty(), hits: 0, misses: 0, capacity, counted: 0, weighed: 0 }
}

/// One of the store's numbers as the statistics give it: at most the
/// greatest `usize`.
pub open spec fn clamped(n: u64) -> usize {
    if n > usize::MAX {
        usize::MAX
    } else {
        n as usize
    }
}

/// Cache with size-aware eviction and hit/miss tracking.
pub struct TrackedCache<K: CacheKey, V: Weighted> {
    inner: Store,
    hits: u64,
    misses: u64,
    _key: core::marker::PhantomData<K>,
    _value: core::marker::PhantomData<V>,
}

/// The size limit in bytes of a cache made for `max_size_mb` megabytes.
pub open spec fn megabytes(max_size_mb: usize) -> u64 {
    if max_size_mb * 1048576 > u64::MAX {
        u64::MAX
    } else {
        (max_size_mb * 1048576) as u64
    }
}

impl<K: CacheKey, V: Weighted> View for TrackedCache<K, V> {
    type V = CacheView;

    closed spec fn view(&self) -> CacheView {
        CacheView {
            entries: stored(self.inner),
            hits: self.hits,
            misses: self.misses,
            capacity: store_capacity(self.inner),
            counted: store_counted(self.inner),
            weighed: store_weighed(self.inner),
        }
    }
}

fn clamp(n: u64) -> (c: usize)
    ensures
        c == clamped(n),
{
    if n > usize::MAX as u64 {
        usize::MAX
    } else {
        n as usize
    }
}

impl<K: CacheKey, V: Weighted> TrackedCache<K, V> {
    /// Create a new cache with the given size limit in megabytes. A limit
    /// beyond the range of 64 bits is taken as the greatest that fits.
    pub fn new(max_size_mb: usize) -> (c: Self)
        ensures
            c@ == vacant(megabytes(max_size_mb)),
    {
        let mb: u64 = max_size_mb as u64;
        let max_bytes: u64 = if mb > u64::MAX / 1048576 {
            u64::MAX
        } else {
            mb * 1048576
        };
        let inner = store_new(max_bytes);
        assert(stored(inner) =~= Map::empty());
        TrackedCache {
            inner,
            hits: 0,
            misses: 0,
            _key: core::marker::PhantomData,
            _value: core::marker::PhantomData,
        }
    }

    /// Get a value from the cache and count the hit or the miss. The cache
    /// may evict tiles on the occasion; it never gains one.
    pub fn get(&mut self, key: &K) -> (r: Option<V>)
        ensures
            final(self)@.capacity == old(self)@.capacity,
            final(self)@.entries.submap_of(old(self)@.entries),
            match r {
                Some(v) => {
                    &&& old(self)@.entries.contains_key(key.store_key())
                    &&& v.parts() == old(self)@.entries[key.store_key()]
                    &&& final(self)@.hits == bumped(old(self)@.hits)
                    &&& final(self)@.misses == old(self)@.misses
                },
                None => {
                    &&& !old(self)@.entries.contains_key(key.store_key())
                    &&& final(self)@.hits == old(self)@.hits
                    &&& final(self)@.misses == bumped(old(self)@.misses)
                },
            },
    {
        let k = key.to_store_key();
        match store_get(&mut self.inner, &k) {
            Some(p) => {
                self.hits = self.hits.wrapping_add(1);
                Some(V::from_parts(p))
            },
            None => {
                self.misses = self.misses.wrapping_add(1);
                None
            },
        }
    }

    /// Insert a value into the cache. The cache decides whether it keeps
    /// the value and what it evicts: afterwards it holds at most what it
    /// held before and the new value.
    pub fn insert(&mut self, key: K, value: V)
        ensures
            final(self)@.capacity == old(self)@.capacity,
            final(self)@.entries.submap_of(
                old(self)@.entries.insert(key.store_key(), value.parts()),
            ),
            final(self)@.hits == old(self)@.hits,
            final(self)@.misses == old(self)@.misses,
    {
        let k = key.to_store_key();
        store_insert(&mut self.inner, k, value.into_parts());
    }

    /// Check if a key is in the cache. This counts neither as hit nor as
    /// miss.
    pub fn contains(&self, key: &K) -> (b: bool)
        ensures
            b == self@.entries.contains_key(key.store_key()),
    {
        let k = key.to_store_key();
        store_contains(&self.inner, &k)
    }

    /// Clear the cache: a new store with the same size limit takes the place
    /// of the old one, so that every tile is gone on return, and the counters
    /// start again at zero.
    pub fn clear(&mut self)
        ensures
            final(self)@ == vacant(old(self)@.capacity),
    {
        let limit = match store_limit(&self.inner) {
            Some(limit) => limit,
            None => u64::MAX,
        };
        self.inner = store_new(limit);
        self.reset_stats();
        assert(self@.entries =~= Map::empty());
    }

    /// Reset hit/miss counters to zero.
    pub fn reset_stats(&mut self)
        ensures
            final(self)@ == (CacheView { hits: 0, misses: 0, ..old(self)@ }),
    {
        self.hits = 0;
        self.misses = 0;
    }

    /// Get cache statistics, after the maintenance that is due, so that the
    /// store's estimates are current. A cache that holds no tile, and whose
    /// store has counted none, reports no tile and no byte.
    pub fn stats(&mut self) -> (s: CacheStats)
        ensures
            final(self)@.capacity == old(self)@.capacity,
            old(self)@.unused() ==> final(self)@.unused(),
            final(self)@.hits == old(self)@.hits,
            final(self)@.misses == old(self)@.misses,
            final(self)@.entries.submap_of(old(self)@.entries),
            s == (CacheStats {
                hits: old(self)@.hits,
                misses: old(self)@.misses,
                size_bytes: clamped(final(self)@.weighed),
                num_tiles: clamped(final(self)@.counted),
            }),
    {
        store_run_pending_tasks(&mut self.inner);
        let size = store_weighted_size(&self.inner);
        let count = store_entry_count(&self.inner);
        CacheStats {
            hits: self.hits,
            misses: self.misses,
            size_bytes: clamp(size),
            num_tiles: clamp(count),
        }
    }

    /// Whether the store counts no tile. The count is the store's estimate
    /// and is current only after its maintenance has run.
    pub fn is_empty(&self) -> (b: bool)
        ensures
            b == (self@.counted == 0),
    {
        store_entry_count(&self.inner) == 0
    }
}

/// L1 decoded RGB tile cache, cleared on slide switch.
pub type TileCache = TrackedCache<TileCoord, TileData>;

/// L2 compressed JPEG cache, which persists across slide switches. Tiles
/// of different slides are told apart by the slide identifier in the key.
pub type CompressedTileCache = TrackedCache<SlideTileCoord, CompressedTileData>;

/// The identifier of the slide at `path`: what the standard hasher makes of
/// the path's bytes followed by the byte `0xff`, which is how it hashes a
/// string.
pub open spec fn slide_id_of(path: Seq<char>) -> u64 {
    DefaultHasher::spec_finish(seq![vstd::utf8::encode_utf8(path), seq![0xffu8]])
}

/// Compute a slide identifier by hashing its path string. The identifier
/// serves in memory only and is not meant to be stored.
pub fn compute_slide_id(path: &str) -> (id: u64)
    ensures
        id == slide_id_of(path@),
{
    let mut hasher = DefaultHasher::new();
    hasher.write(path.as_bytes());
    let mut end: Vec<u8> = Vec::new();
    end.push(0xff);
    hasher.write(end.as_slice());
    assert(end@ =~= seq![0xffu8]);
    assert(hasher@ =~= seq![vstd::utf8::encode_utf8(path@), seq![0xffu8]]);
    hasher.finish()
}

} // verus!
