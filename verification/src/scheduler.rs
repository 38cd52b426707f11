//! Tile scheduler: the two caches, the current slide, and the protocol by
//! which tiles are fetched in the foreground and prefetched in the
//! background.
//!
//! The scheduler never reads a file and never decodes pixels. Where a tile
//! has to come from the pack, it says which bytes it needs and takes what
//! the host got for them in a second call; where the compressed cache holds
//! the tile, it gives the compressed tile out and takes what the codec made
//! of it in a second call. Between two calls the slide may change: every
//! call on behalf of a prefetch carries the generation of its batch, and a
//! call whose generation is no longer current leaves the decoded cache
//! alone.

use std::collections::HashSet;
use vstd::prelude::*;
use vstd::string::*;

use crate::bulk_preload::{all_coords, plan_skipped, plan_work, slides_view, stored_read};
use crate::bulk_preload::{BulkPreloader, BulkView, SlidePlan};
use crate::cache::{bumped, clamped, megabytes, vacant};
use crate::cache::{CacheKey, CacheStats, CacheView, CompressedTileCache};
use crate::cache::{l2_key, SlideTileCoord, TileCache, TileCoord, Weighted};
use crate::decoder::{decode_failure, decode_jpeg_bytes, decode_refusal, decoded_parts};
use crate::decoder::{probe_refusal, probed_parts, read_jpeg_bytes};
use crate::decoder::{CompressedTileData, Decoded, DecodedView, TileData, TileRead};
use crate::error::{TileError, TileResult};
use crate::format::{find_info, LevelInfo, SlideMetadata};
use crate::pack::{span_of, tile_ref_of, LevelIndex, PackTileRef, TilePack};
use crate::prefetch::{answered, candidates_of, grid, grid_tiles, kept, visible_of};
use crate::prefetch::{PrefetchCalculator, PrefetchConfig, Viewport};
use crate::slide_pool::{accepted, SlideEntry, SlidePool, SlideSource};
use crate::store::StoreKey;
use crate::text::{decimal, push_decimal};

verus! {

broadcast use vstd::std_specs::hash::group_hash_axioms;

/// Maximum number of visible tiles to load in a single prefetch batch:
/// enough for a 4K display at any zoom, with headroom.
pub const MAX_VISIBLE_TILES: usize = 256;

/// Budget for prefetch tiles beyond the visible ones: about one ring of
/// tiles around a typical viewport.
pub const EXTENDED_TILE_BUDGET: usize = 32;

/// Levels with at most this many tiles are loaded whole when a slide is
/// warmed up.
pub const MAX_TILES_PER_LEVEL: u64 = 64;

/// Combined L1 + L2 cache statistics.
#[derive(Debug, Clone, Copy, Default)]
pub struct CombinedCacheStats {
    pub l1: CacheStats,
    pub l2: CacheStats,
}

/// The number under which a claimed tile is kept: level, column and row
/// side by side.
spec fn claim_key(c: TileCoord) -> u128 {
    (c.level * 0x1_0000_0000_0000_0000 + c.col * 0x1_0000_0000 + c.row) as u128
}

/// The tile that is kept under `k`.
spec fn claimed_tile(k: u128) -> TileCoord {
    TileCoord {
        level: (k / 0x1_0000_0000_0000_0000) as u32,
        col: ((k / 0x1_0000_0000) % 0x1_0000_0000) as u32,
        row: (k % 0x1_0000_0000) as u32,
    }
}

/// Every tile is kept under a number of its own, and every number below
/// the limit keeps a tile.
proof fn lemma_claim_key(c: TileCoord, k: u128)
    ensures
        claim_key(c) < 0x1_0000_0000_0000_0000_0000_0000,
        claimed_tile(claim_key(c)) == c,
        k < 0x1_0000_0000_0000_0000_0000_0000 ==> claim_key(claimed_tile(k)) == k,
{
}

/// The tiles that prefetch workers have claimed and not yet finished.
struct InFlight {
    keys: HashSet<u128>,
}

impl View for InFlight {
    type V = Set<TileCoord>;

    closed spec fn view(&self) -> Set<TileCoord> {
        Set::new(|c: TileCoord| self.keys@.contains(claim_key(c)))
    }
}

impl InFlight {
    #[verifier::type_invariant]
    spec fn within_limit(self) -> bool {
        forall|k: u128| #[trigger]
            self.keys@.contains(k) ==> k < 0x1_0000_0000_0000_0000_0000_0000
    }

    fn new() -> (f: InFlight)
        ensures
            f@ == Set::<TileCoord>::empty(),
    {
        let f = InFlight { keys: HashSet::new() };
        assert(f@ =~= Set::<TileCoord>::empty());
        f
    }

    fn key_of(coord: &TileCoord) -> (k: u128)
        ensures
            k == claim_key(*coord),
    {
        let level: u128 = coord.level as u128;
        let col: u128 = coord.col as u128;
        let row: u128 = coord.row as u128;
        level * 0x1_0000_0000_0000_0000u128 + col * 0x1_0000_0000u128 + row
    }

    fn contains(&self, coord: &TileCoord) -> (b: bool)
        ensures
            b == self@.contains(*coord),
    {
        let k = Self::key_of(coord);
        self.keys.contains(&k)
    }

    /// Claims `coord`; `false` where it was claimed already.
    fn insert(&mut self, coord: TileCoord) -> (fresh: bool)
        ensures
            fresh == !old(self)@.contains(coord),
            final(self)@ == old(self)@.insert(coord),
    {
        proof {
            use_type_invariant(&*self);
        }
        let k = Self::key_of(&coord);
        let mut keys: HashSet<u128> = HashSet::new();
        std::mem::swap(&mut keys, &mut self.keys);
        let fresh = keys.insert(k);
        proof {
            lemma_claim_key(coord, k);
        }
        self.keys = keys;
        assert(self@ =~= old(self)@.insert(coord)) by {
            assert forall|c: TileCoord| claim_key(c) == k implies c == coord by {
                lemma_claim_key(c, k);
            }
        }
        fresh
    }

    fn remove(&mut self, coord: &TileCoord)
        ensures
            final(self)@ == old(self)@.remove(*coord),
    {
        proof {
            use_type_invariant(&*self);
        }
        let k = Self::key_of(coord);
        let mut keys: HashSet<u128> = HashSet::new();
        std::mem::swap(&mut keys, &mut self.keys);
        keys.remove(&k);
        self.keys = keys;
        assert(self@ =~= old(self)@.remove(*coord)) by {
            assert forall|c: TileCoord| claim_key(c) == k implies c == *coord by {
                lemma_claim_key(c, k);
                lemma_claim_key(*coord, k);
            }
        }
    }

    fn clear(&mut self)
        ensures
            final(self)@ == Set::<TileCoord>::empty(),
    {
        self.keys = HashSet::new();
        assert(self@ =~= Set::<TileCoord>::empty());
    }

    fn is_empty(&self) -> (b: bool)
        ensures
            b == (self@ == Set::<TileCoord>::empty()),
    {
        proof {
            use_type_invariant(self);
        }
        let b = self.keys.is_empty();
        proof {
            if b {
                assert(self@ =~= Set::<TileCoord>::empty());
            } else {
                let k = choose|k: u128| self.keys@.contains(k);
                lemma_claim_key(claimed_tile(k), k);
                assert(self@.contains(claimed_tile(k)));
            }
        }
        b
    }
}

/// What the scheduler holds.
pub struct SchedulerView {
    /// The cache of decoded tiles of the current slide.
    pub l1: CacheView,
    /// The cache of compressed tiles of all slides.
    pub l2: CacheView,
    /// The slides that were opened.
    pub pool: Map<u64, SlideEntry>,
    /// The identifier under which the current slide lies in the pool.
    pub slide: Option<u64>,
    /// The tiles that prefetch workers have claimed.
    pub in_flight: Set<TileCoord>,
    /// Counts the loads and closes.
    pub generation: u64,
    /// The identifier of the current slide in the keys of the compressed
    /// cache; 0 while no slide is loaded, which keeps that cache out of use.
    pub active_slide_id: u64,
    /// How the prefetch planner is set up.
    pub config: PrefetchConfig,
    /// The background preloader.
    pub bulk: BulkView,
}

/// One more hit was counted; the size limit stands.
pub open spec fn counted_hit(before: CacheView, after: CacheView) -> bool {
    &&& after.hits == bumped(before.hits)
    &&& after.misses == before.misses
    &&& after.capacity == before.capacity
}

/// One more miss was counted; the size limit stands.
pub open spec fn counted_miss(before: CacheView, after: CacheView) -> bool {
    &&& after.hits == before.hits
    &&& after.misses == bumped(before.misses)
    &&& after.capacity == before.capacity
}

/// The counters and the size limit stand as they stood.
pub open spec fn counted_nothing(before: CacheView, after: CacheView) -> bool {
    &&& after.hits == before.hits
    &&& after.misses == before.misses
    &&& after.capacity == before.capacity
}

impl SchedulerView {
    /// The current slide.
    pub open spec fn current(self) -> Option<SlideEntry> {
        match self.slide {
            Some(id) => if self.pool.contains_key(id) {
                Some(self.pool[id])
            } else {
                None
            },
            None => None,
        }
    }

    /// Where the pack of the current slide holds the tile, if it does.
    pub open spec fn tile_ref(self, c: TileCoord) -> Option<PackTileRef> {
        match self.current() {
            Some(e) => tile_ref_of(e.pack@, c.level, c.col, c.row),
            None => None,
        }
    }

    /// Nothing but the caches differs between `self` and `after`.
    pub open spec fn same_slide(self, after: SchedulerView) -> bool {
        &&& after.pool == self.pool
        &&& after.slide == self.slide
        &&& after.in_flight == self.in_flight
        &&& after.generation == self.generation
        &&& after.active_slide_id == self.active_slide_id
        &&& after.config == self.config
        &&& after.bulk == self.bulk
    }
}

/// What `get_tile` answers.
#[derive(Debug)]
pub enum TileFetch {
    /// The tile, or `None` where there is none to be had.
    Ready(Option<TileData>),
    /// The compressed cache holds the tile: the host has to decode these
    /// bytes and hand what the codec gives to `promote_decoded`.
    Decode(CompressedTileData),
    /// The host has to read these bytes from the pack of the current slide,
    /// decode them, and hand both to `load_tile_into_cache`.
    Read(PackTileRef),
}

/// What a step of a prefetch answers.
#[derive(Debug)]
pub enum PrefetchStep {
    /// The prefetch of this tile is over: with the tile, or with nothing.
    Done(Option<TileData>),
    /// The compressed cache holds the tile: the host has to decode these
    /// bytes and hand what the codec gives to `promote_for_prefetch`.
    Decode(CompressedTileData),
    /// The host has to read these bytes from the pack of slide `slide_id`,
    /// decode them, and hand both to `finish_prefetch`.
    Read { tile_ref: PackTileRef, slide_id: u64 },
}

/// What `get_tile_jpeg` answers.
#[derive(Debug)]
pub enum JpegFetch {
    /// The compressed tile, or `None` where there is none to be had.
    Ready(Option<CompressedTileData>),
    /// The host has to read these bytes from the pack of the current slide
    /// and hand them to `load_jpeg_into_cache`.
    Read(PackTileRef),
}

/// The outcome of a fetch of the compressed tile `c`: while a slide is
/// active the compressed cache is asked; then the pack.
pub open spec fn jpeg_fetched(v0: SchedulerView, c: TileCoord, v1: SchedulerView, r: JpegFetch) -> bool {
    let k2 = l2_key(v0.active_slide_id, c);
    &&& v0.same_slide(v1)
    &&& v1.l1 == v0.l1
    &&& if v0.active_slide_id != 0 && v0.l2.entries.contains_key(k2) {
        &&& (r matches JpegFetch::Ready(Some(t)) && t.parts() == v0.l2.entries[k2])
        &&& counted_hit(v0.l2, v1.l2)
        &&& v1.l2.entries.submap_of(v0.l2.entries)
    } else {
        &&& if v0.active_slide_id != 0 {
            counted_miss(v0.l2, v1.l2) && v1.l2.entries.submap_of(v0.l2.entries)
        } else {
            v1.l2 == v0.l2
        }
        &&& r == match v0.tile_ref(c) {
            Some(tile_ref) => JpegFetch::Read(tile_ref),
            None => JpegFetch::Ready(None),
        }
    }
}

/// The outcome of handing the read of the compressed tile `c` over: bytes
/// whose header can be read are returned and, while a slide is active, put
/// into the compressed cache. A failed read is passed on, an unreadable
/// header is reported, and neither changes anything.
pub open spec fn jpeg_loaded(
    v0: SchedulerView,
    c: TileCoord,
    read: TileResult<Vec<u8>>,
    v1: SchedulerView,
    r: TileResult<CompressedTileData>,
) -> bool {
    let k2 = l2_key(v0.active_slide_id, c);
    &&& v0.same_slide(v1)
    &&& v1.l1 == v0.l1
    &&& counted_nothing(v0.l2, v1.l2)
    &&& match read {
        Err(e) => r == Err::<CompressedTileData, TileError>(e) && v1 == v0,
        Ok(jpeg) => match probed_parts(jpeg@) {
            None => decode_failure(r, probe_refusal(jpeg@).unwrap()) && v1 == v0,
            Some(compressed) => {
                &&& (r matches Ok(t) && t.parts() == compressed)
                &&& if v0.active_slide_id != 0 {
                    v1.l2.entries.submap_of(v0.l2.entries.insert(k2, compressed))
                } else {
                    v1.l2 == v0.l2
                }
            },
        },
    }
}

/// What the pack of the current slide has to say of a tile that neither
/// cache could give.
pub open spec fn from_pack(v: SchedulerView, c: TileCoord) -> TileFetch {
    match v.tile_ref(c) {
        Some(r) => TileFetch::Read(r),
        None => TileFetch::Ready(None),
    }
}

/// The outcome of a foreground fetch of tile `c`: the decoded cache is
/// asked first, then, while a slide is active, the compressed cache, whose
/// tile is given out to be decoded; then the pack.
pub open spec fn fetched(v0: SchedulerView, c: TileCoord, v1: SchedulerView, r: TileFetch) -> bool {
    let k1 = c.store_key();
    let k2 = l2_key(v0.active_slide_id, c);
    &&& v0.same_slide(v1)
    &&& if v0.l1.entries.contains_key(k1) {
        &&& (r matches TileFetch::Ready(Some(t)) && t.parts() == v0.l1.entries[k1])
        &&& counted_hit(v0.l1, v1.l1)
        &&& v1.l1.entries.submap_of(v0.l1.entries)
        &&& v1.l2 == v0.l2
    } else if v0.active_slide_id != 0 && v0.l2.entries.contains_key(k2) {
        &&& counted_miss(v0.l1, v1.l1)
        &&& counted_hit(v0.l2, v1.l2)
        &&& v1.l1.entries.submap_of(v0.l1.entries)
        &&& v1.l2.entries.submap_of(v0.l2.entries)
        &&& (r matches TileFetch::Decode(t) && t.parts() == v0.l2.entries[k2])
    } else {
        &&& counted_miss(v0.l1, v1.l1)
        &&& v1.l1.entries.submap_of(v0.l1.entries)
        &&& if v0.active_slide_id != 0 {
            counted_miss(v0.l2, v1.l2) && v1.l2.entries.submap_of(v0.l2.entries)
        } else {
            v1.l2 == v0.l2
        }
        &&& r == from_pack(v0, c)
    }
}

/// The outcome of handing over what the codec made of the compressed tile
/// that a foreground fetch of tile `c` gave out: a tile goes to the decoded
/// cache and to the caller; where the codec gave none, the pack is asked,
/// as if the compressed cache had not held the tile.
pub open spec fn promoted(
    v0: SchedulerView,
    c: TileCoord,
    d: DecodedView,
    v1: SchedulerView,
    r: TileFetch,
) -> bool {
    &&& v0.same_slide(v1)
    &&& counted_nothing(v0.l1, v1.l1)
    &&& v1.l2 == v0.l2
    &&& match decoded_parts(d) {
        Some(p) => (r matches TileFetch::Ready(Some(t)) && t.parts() == p)
            && v1.l1.entries.submap_of(v0.l1.entries.insert(c.store_key(), p)),
        None => r == from_pack(v0, c) && v1.l1 == v0.l1,
    }
}

/// The outcome of handing what the host got for tile `c` to the foreground
/// path: while a slide is active the bytes go to the compressed cache; the
/// decoded tile goes to the decoded cache and to the caller. A failed read
/// is passed on; an unreadable header and a refusal of the codec are
/// reported.
pub open spec fn loaded_into_cache(
    v0: SchedulerView,
    c: TileCoord,
    read: TileResult<TileRead>,
    v1: SchedulerView,
    r: TileResult<TileData>,
) -> bool {
    let k1 = c.store_key();
    let k2 = l2_key(v0.active_slide_id, c);
    &&& v0.same_slide(v1)
    &&& counted_nothing(v0.l1, v1.l1)
    &&& counted_nothing(v0.l2, v1.l2)
    &&& match read {
        Err(e) => r == Err::<TileData, TileError>(e) && v1 == v0,
        Ok(got) => match probed_parts(got.jpeg@) {
            None => decode_failure(r, probe_refusal(got.jpeg@).unwrap()) && v1 == v0,
            Some(compressed) => {
                &&& if v0.active_slide_id != 0 {
                    v1.l2.entries.submap_of(v0.l2.entries.insert(k2, compressed))
                } else {
                    v1.l2 == v0.l2
                }
                &&& match decoded_parts(got.decoded@) {
                    Some(p) => (r matches Ok(t) && t.parts() == p) && v1.l1.entries.submap_of(
                        v0.l1.entries.insert(k1, p),
                    ),
                    None => decode_failure(r, decode_refusal(got.decoded@).unwrap()) && v1.l1
                        == v0.l1,
                }
            },
        },
    }
}

/// What lies in a cache after tiles were evicted from it and one was put in
/// lies among what lay there before and the one that was put in.
pub proof fn lemma_put_after_eviction(
    before: Map<StoreKey, (Seq<u8>, u32, u32)>,
    between: Map<StoreKey, (Seq<u8>, u32, u32)>,
    after: Map<StoreKey, (Seq<u8>, u32, u32)>,
    key: StoreKey,
    value: (Seq<u8>, u32, u32),
)
    requires
        between.submap_of(before),
        after.submap_of(between.insert(key, value)),
    ensures
        after.submap_of(before.insert(key, value)),
{
    assert forall|k: StoreKey| #[trigger] after.dom().contains(k) implies before.insert(
        key,
        value,
    ).dom().contains(k) && after[k] == before.insert(key, value)[k] by {
        assert(between.insert(key, value).dom().contains(k));
        if k != key {
            assert(between.dom().contains(k));
        }
    }
}

/// The outcome of claiming tile `c` for a prefetch worker: the tile is
/// claimed from now on; a worker that finds it claimed already gives up, any
/// other is told to read the tile's bytes from the pack of the slide that
/// is active now.
pub open spec fn claimed(
    v0: SchedulerView,
    c: TileCoord,
    tile_ref: PackTileRef,
    v1: SchedulerView,
    r: PrefetchStep,
) -> bool {
    &&& v1.in_flight == v0.in_flight.insert(c)
    &&& r == if v0.in_flight.contains(c) {
        PrefetchStep::Done(None)
    } else {
        PrefetchStep::Read { tile_ref, slide_id: v0.active_slide_id }
    }
}

/// The outcome of the first step of a prefetch of tile `c` for a batch of
/// generation `batch`. A batch whose generation is no longer current does
/// nothing. Otherwise the caches are asked as for a foreground fetch; where
/// neither holds the tile, the tile is claimed.
pub open spec fn prefetch_started(
    v0: SchedulerView,
    c: TileCoord,
    tile_ref: PackTileRef,
    batch: u64,
    v1: SchedulerView,
    r: PrefetchStep,
) -> bool {
    let k1 = c.store_key();
    let k2 = l2_key(v0.active_slide_id, c);
    if v0.generation != batch {
        v1 == v0 && r == PrefetchStep::Done(None)
    } else {
        &&& v1.pool == v0.pool
        &&& v1.slide == v0.slide
        &&& v1.generation == v0.generation
        &&& v1.active_slide_id == v0.active_slide_id
        &&& v1.config == v0.config
        &&& v1.bulk == v0.bulk
        &&& if v0.l1.entries.contains_key(k1) {
            &&& (r matches PrefetchStep::Done(Some(t)) && t.parts() == v0.l1.entries[k1])
            &&& counted_hit(v0.l1, v1.l1)
            &&& v1.l1.entries.submap_of(v0.l1.entries)
            &&& v1.l2 == v0.l2
            &&& v1.in_flight == v0.in_flight
        } else if v0.active_slide_id != 0 && v0.l2.entries.contains_key(k2) {
            &&& counted_miss(v0.l1, v1.l1)
            &&& counted_hit(v0.l2, v1.l2)
            &&& v1.l1.entries.submap_of(v0.l1.entries)
            &&& v1.l2.entries.submap_of(v0.l2.entries)
            &&& v1.in_flight == v0.in_flight
            &&& (r matches PrefetchStep::Decode(t) && t.parts() == v0.l2.entries[k2])
        } else {
            &&& counted_miss(v0.l1, v1.l1)
            &&& v1.l1.entries.submap_of(v0.l1.entries)
            &&& if v0.active_slide_id != 0 {
                counted_miss(v0.l2, v1.l2) && v1.l2.entries.submap_of(v0.l2.entries)
            } else {
                v1.l2 == v0.l2
            }
            &&& claimed(v0, c, tile_ref, v1, r)
        }
    }
}

/// The outcome of handing over what the codec made of the compressed tile
/// that the first step of a prefetch of tile `c` gave out. A batch whose
/// generation is no longer current does nothing. Otherwise a tile goes to
/// the decoded cache and to the caller; where the codec gave none, the tile
/// is claimed, as if the compressed cache had not held it.
pub open spec fn prefetch_promoted(
    v0: SchedulerView,
    c: TileCoord,
    tile_ref: PackTileRef,
    batch: u64,
    d: DecodedView,
    v1: SchedulerView,
    r: PrefetchStep,
) -> bool {
    if v0.generation != batch {
        v1 == v0 && r == PrefetchStep::Done(None)
    } else {
        &&& v1.pool == v0.pool
        &&& v1.slide == v0.slide
        &&& v1.generation == v0.generation
        &&& v1.active_slide_id == v0.active_slide_id
        &&& v1.config == v0.config
        &&& v1.bulk == v0.bulk
        &&& counted_nothing(v0.l1, v1.l1)
        &&& v1.l2 == v0.l2
        &&& match decoded_parts(d) {
            Some(p) => (r matches PrefetchStep::Done(Some(t)) && t.parts() == p)
                && v1.l1.entries.submap_of(v0.l1.entries.insert(c.store_key(), p))
                && v1.in_flight == v0.in_flight,
            None => v1.l1 == v0.l1 && claimed(v0, c, tile_ref, v1, r),
        }
    }
}

/// The outcome of the last step of a prefetch of tile `c`, which takes
/// what the host got for the read that an earlier step asked for. The bytes go to the compressed cache
/// only while the slide they were read for is still the active one; the
/// decoded tile goes to the decoded cache only while the batch's generation
/// is still current, and so does the release of the claim. A failed read is
/// passed on; an unreadable header and a refusal of the codec are reported;
/// an outdated batch ends with nothing.
pub open spec fn prefetch_finished(
    v0: SchedulerView,
    c: TileCoord,
    slide_id: u64,
    batch: u64,
    read: TileResult<TileRead>,
    v1: SchedulerView,
    r: TileResult<Option<TileData>>,
) -> bool {
    let k1 = c.store_key();
    let k2 = l2_key(slide_id, c);
    &&& v1.pool == v0.pool
    &&& v1.slide == v0.slide
    &&& v1.generation == v0.generation
    &&& v1.active_slide_id == v0.active_slide_id
    &&& v1.config == v0.config
    &&& v1.bulk == v0.bulk
    &&& counted_nothing(v0.l1, v1.l1)
    &&& counted_nothing(v0.l2, v1.l2)
    &&& v1.in_flight == if v0.generation == batch {
        v0.in_flight.remove(c)
    } else {
        v0.in_flight
    }
    &&& match read {
        Err(e) => r == Err::<Option<TileData>, TileError>(e) && v1.l1 == v0.l1 && v1.l2 == v0.l2,
        Ok(got) => match probed_parts(got.jpeg@) {
            None => decode_failure(r, probe_refusal(got.jpeg@).unwrap()) && v1.l1 == v0.l1
                && v1.l2 == v0.l2,
            Some(compressed) => {
                &&& if slide_id != 0 && v0.active_slide_id == slide_id {
                    v1.l2.entries.submap_of(v0.l2.entries.insert(k2, compressed))
                } else {
                    v1.l2 == v0.l2
                }
                &&& match decoded_parts(got.decoded@) {
                    None => decode_failure(r, decode_refusal(got.decoded@).unwrap()) && v1.l1
                        == v0.l1,
                    Some(p) => if v0.generation == batch {
                        (r matches Ok(Some(t)) && t.parts() == p) && v1.l1.entries.submap_of(
                            v0.l1.entries.insert(k1, p),
                        )
                    } else {
                        r matches Ok(None) && v1.l1 == v0.l1
                    },
                }
            },
        },
    }
}

/// Those of `tiles` that the decoded cache does not hold, in their order.
pub open spec fn uncached(tiles: Seq<TileCoord>, l1: Map<StoreKey, (Seq<u8>, u32, u32)>) -> Seq<
    TileCoord,
>
    decreases tiles.len(),
{
    if tiles.len() == 0 {
        Seq::empty()
    } else if l1.contains_key(tiles.last().store_key()) {
        uncached(tiles.drop_last(), l1)
    } else {
        uncached(tiles.drop_last(), l1).push(tiles.last())
    }
}

/// The first `n` elements of `s`, or all of it where it has fewer.
pub open spec fn first_n(s: Seq<TileCoord>, n: int) -> Seq<TileCoord> {
    if s.len() <= n {
        s
    } else {
        s.take(n)
    }
}

/// Those of `tiles` that `excluded` does not hold, in their order.
pub open spec fn without(tiles: Seq<TileCoord>, excluded: Seq<TileCoord>) -> Seq<TileCoord>
    decreases tiles.len(),
{
    if tiles.len() == 0 {
        Seq::empty()
    } else if excluded.contains(tiles.last()) {
        without(tiles.drop_last(), excluded)
    } else {
        without(tiles.drop_last(), excluded).push(tiles.last())
    }
}

/// The tiles of a prefetch batch for a viewport: the visible tiles that are
/// not cached, up to `MAX_VISIBLE_TILES` of them, and then the candidates
/// outside the visible tiles that are not cached, up to
/// `EXTENDED_TILE_BUDGET` of them.
pub open spec fn batch_coords(
    config: PrefetchConfig,
    l1: Map<StoreKey, (Seq<u8>, u32, u32)>,
    m: SlideMetadata,
    vp: Viewport,
) -> Seq<TileCoord> {
    let visible = visible_of(m, vp);
    let further = without(uncached(candidates_of(config, m, vp), l1), visible);
    first_n(uncached(visible, l1), 256) + first_n(further, 32)
}

/// What is left of the first `k` tiles is the beginning of what is left of
/// all of them.
pub proof fn lemma_without_prefix(tiles: Seq<TileCoord>, excluded: Seq<TileCoord>, k: int)
    requires
        0 <= k <= tiles.len(),
    ensures
        without(tiles.take(k), excluded).len() <= without(tiles, excluded).len(),
        without(tiles.take(k), excluded) == without(tiles, excluded).take(
            without(tiles.take(k), excluded).len() as int,
        ),
    decreases tiles.len(),
{
    let all = without(tiles, excluded);
    if k == tiles.len() {
        assert(tiles.take(k) =~= tiles);
        assert(all.take(all.len() as int) =~= all);
    } else {
        let rest = tiles.drop_last();
        lemma_without_prefix(rest, excluded, k);
        assert(rest.take(k) =~= tiles.take(k));
        let part = without(tiles.take(k), excluded);
        let shorter = without(rest, excluded);
        assert(part =~= all.take(part.len() as int)) by {
            assert(part == shorter.take(part.len() as int));
            assert(forall|q: int| 0 <= q < shorter.len() ==> all[q] == shorter[q]);
        }
    }
}

/// The tiles among `coords` that the pack holds, each with its place in the
/// pack.
pub open spec fn with_refs(coords: Seq<TileCoord>, pack: Seq<LevelIndex>) -> Seq<
    (TileCoord, PackTileRef),
>
    decreases coords.len(),
{
    if coords.len() == 0 {
        Seq::empty()
    } else {
        let c = coords.last();
        match tile_ref_of(pack, c.level, c.col, c.row) {
            Some(r) => with_refs(coords.drop_last(), pack).push((c, r)),
            None => with_refs(coords.drop_last(), pack),
        }
    }
}

/// All tiles of those of `levels` that have at most `MAX_TILES_PER_LEVEL`
/// tiles, level by level in the order of the list.
pub open spec fn low_res_coords(levels: Seq<LevelInfo>) -> Seq<TileCoord>
    decreases levels.len(),
{
    if levels.len() == 0 {
        Seq::empty()
    } else {
        let info = levels.last();
        low_res_coords(levels.drop_last()) + if info.cols * info.rows <= 64 {
            grid(info.level, 0, info.cols as int, 0, info.rows as int)
        } else {
            Seq::empty()
        }
    }
}

/// A tile is cached: the decoded cache holds it, or a slide is active and
/// the compressed cache holds it for that slide.
pub open spec fn is_cached(v: SchedulerView, t: (u32, u32, u32)) -> bool {
    let c = TileCoord { level: t.0, col: t.1, row: t.2 };
    v.l1.entries.contains_key(c.store_key()) || (v.active_slide_id != 0
        && v.l2.entries.contains_key(l2_key(v.active_slide_id, c)))
}

/// Those of `tiles` that are cached, in their order.
pub open spec fn cached_among(v: SchedulerView, tiles: Seq<(u32, u32, u32)>) -> Seq<(u32, u32, u32)>
    decreases tiles.len(),
{
    if tiles.len() == 0 {
        Seq::empty()
    } else if is_cached(v, tiles.last()) {
        cached_among(v, tiles.drop_last()).push(tiles.last())
    } else {
        cached_among(v, tiles.drop_last())
    }
}

/// A batch of tiles to prefetch.
#[derive(Debug)]
pub struct PrefetchBatch {
    /// The generation in which the batch was planned.
    pub generation: u64,
    /// The tiles, most urgent first, each with its place in the pack of the
    /// slide that was current when the batch was planned.
    pub tiles: Vec<(TileCoord, PackTileRef)>,
}

/// Where the answers say whether the decoded cache holds a tile, the tiles
/// that are kept are those that it does not hold.
pub proof fn lemma_kept_uncached(
    tiles: Seq<TileCoord>,
    answers: Seq<bool>,
    l1: Map<StoreKey, (Seq<u8>, u32, u32)>,
)
    requires
        answers.len() == tiles.len(),
        forall|k: int|
            0 <= k < tiles.len() ==> #[trigger] answers[k] == l1.contains_key(
                tiles[k].store_key(),
            ),
    ensures
        kept(tiles, answers) == uncached(tiles, l1),
    decreases tiles.len(),
{
    if tiles.len() > 0 {
        let n = tiles.len() - 1;
        let rest = answers.take(n);
        assert forall|k: int| 0 <= k < n implies #[trigger] rest[k] == l1.contains_key(
            tiles.drop_last()[k].store_key(),
        ) by {
            assert(rest[k] == answers[k]);
        }
        lemma_kept_uncached(tiles.drop_last(), rest, l1);
        assert(answers[n] == l1.contains_key(tiles[n].store_key()));
    }
}

/// Filtering returns nothing but tiles that were asked for, and every tile
/// asked for that is cached.
pub proof fn lemma_cached_among(v: SchedulerView, tiles: Seq<(u32, u32, u32)>, t: (u32, u32, u32))
    ensures
        cached_among(v, tiles).contains(t) <==> tiles.contains(t) && is_cached(v, t),
    decreases tiles.len(),
{
    if tiles.len() > 0 {
        let init = tiles.drop_last();
        let last = tiles.last();
        lemma_cached_among(v, init, t);
        let out = cached_among(v, tiles);
        if out.contains(t) {
            let k = choose|k: int| 0 <= k < out.len() && out[k] == t;
            if is_cached(v, last) && k == out.len() - 1 {
                assert(tiles[tiles.len() - 1] == t);
            } else {
                assert(cached_among(v, init)[k] == t);
                assert(cached_among(v, init).contains(t));
                let j = choose|j: int| 0 <= j < init.len() && init[j] == t;
                assert(tiles[j] == t);
            }
        }
        if tiles.contains(t) && is_cached(v, t) {
            let j = choose|j: int| 0 <= j < tiles.len() && tiles[j] == t;
            if j == tiles.len() - 1 {
                assert(out[out.len() - 1] == t);
            } else {
                assert(init[j] == t);
                assert(init.contains(t));
                let k = choose|k: int|
                    0 <= k < cached_among(v, init).len() && cached_among(v, init)[k] == t;
                assert(out[k] == t);
            }
        }
    }
}

/// A slide switch outdates every batch that was planned before it: the
/// generation after the switch differs from the one before.
pub proof fn lemma_switch_outdates(v: SchedulerView, slide: Option<u64>, active: u64)
    ensures
        switched(v, slide, active).generation != v.generation,
        switched(v, slide, active).l1.entries == Map::<StoreKey, (Seq<u8>, u32, u32)>::empty(),
        switched(v, slide, active).in_flight == Set::<TileCoord>::empty(),
        switched(v, slide, active).l2 == v.l2,
{
}

/// The outcome of reading the statistics of a cache, which runs the
/// maintenance that is due: tiles may leave the cache, the counters of hits
/// and misses are reported as they stand, the size and the number of tiles
/// as the store counts them afterwards. A cache that holds no tile, and
/// whose store has counted none, stays so.
pub open spec fn cache_read(before: CacheView, after: CacheView, s: CacheStats) -> bool {
    &&& counted_nothing(before, after)
    &&& after.entries.submap_of(before.entries)
    &&& before.unused() ==> after.unused()
    &&& s == (CacheStats {
        hits: before.hits,
        misses: before.misses,
        size_bytes: clamped(after.weighed),
        num_tiles: clamped(after.counted),
    })
}

/// The outcome of reading the statistics of both caches.
pub open spec fn stats_read(v0: SchedulerView, v1: SchedulerView, s: CombinedCacheStats) -> bool {
    &&& v0.same_slide(v1)
    &&& cache_read(v0.l1, v1.l1, s.l1)
    &&& cache_read(v0.l2, v1.l2, s.l2)
}

/// A slide switch leaves the decoded cache empty: it holds no tile, and
/// statistics that are read next report no hit, no miss, no tile and no byte
/// for it. The compressed cache is as it was.
pub proof fn lemma_switch_empties(
    v: SchedulerView,
    slide: Option<u64>,
    active: u64,
    v1: SchedulerView,
    s: CombinedCacheStats,
)
    requires
        stats_read(switched(v, slide, active), v1, s),
    ensures
        switched(v, slide, active).l1.entries == Map::<StoreKey, (Seq<u8>, u32, u32)>::empty(),
        switched(v, slide, active).l2 == v.l2,
        s.l1 == (CacheStats { hits: 0, misses: 0, size_bytes: 0, num_tiles: 0 }),
{
    assert(switched(v, slide, active).l1.entries.dom() =~= Set::<StoreKey>::empty());
}

/// A prefetch whose batch is outdated does nothing when it starts.
pub proof fn lemma_stale_prefetch_start(
    v0: SchedulerView,
    c: TileCoord,
    tile_ref: PackTileRef,
    batch: u64,
    v1: SchedulerView,
    r: PrefetchStep,
)
    requires
        v0.generation != batch,
        prefetch_started(v0, c, tile_ref, batch, v1, r),
    ensures
        v1 == v0,
        r == PrefetchStep::Done(None),
{
}

/// A prefetch whose batch is outdated puts no tile into the decoded cache
/// when it finishes, returns no tile, and leaves the claims of the current
/// generation alone.
pub proof fn lemma_stale_prefetch_finish(
    v0: SchedulerView,
    c: TileCoord,
    slide_id: u64,
    batch: u64,
    read: TileResult<TileRead>,
    v1: SchedulerView,
    r: TileResult<Option<TileData>>,
)
    requires
        v0.generation != batch,
        prefetch_finished(v0, c, slide_id, batch, read, v1, r),
    ensures
        v1.l1 == v0.l1,
        v1.in_flight == v0.in_flight,
        !(r matches Ok(Some(_))),
{
}

/// A prefetch that was planned before a slide switch and runs after it
/// leaves the decoded cache of the new slide empty.
pub proof fn lemma_generation_guard(
    before: SchedulerView,
    slide: Option<u64>,
    active: u64,
    c: TileCoord,
    tile_ref: PackTileRef,
    slide_id: u64,
    read: TileResult<TileRead>,
    started: SchedulerView,
    step: PrefetchStep,
    finished: SchedulerView,
    r: TileResult<Option<TileData>>,
)
    requires
        prefetch_started(
            switched(before, slide, active),
            c,
            tile_ref,
            before.generation,
            started,
            step,
        ),
        prefetch_finished(started, c, slide_id, before.generation, read, finished, r),
    ensures
        step == PrefetchStep::Done(None),
        !(r matches Ok(Some(_))),
        started.l1.entries == Map::<StoreKey, (Seq<u8>, u32, u32)>::empty(),
        finished.l1.entries == Map::<StoreKey, (Seq<u8>, u32, u32)>::empty(),
{
    lemma_switch_outdates(before, slide, active);
    lemma_stale_prefetch_start(
        switched(before, slide, active),
        c,
        tile_ref,
        before.generation,
        started,
        step,
    );
    lemma_stale_prefetch_finish(started, c, slide_id, before.generation, read, finished, r);
}

/// The line that reports a tile that could not be read or decoded.
pub fn tile_error_line(coord: &TileCoord, message: &str) -> (s: String)
    ensures
        s@ == "[TILE ERROR] "@ + coord.text() + ": "@ + message@,
{
    let mut s = String::from_str("[TILE ERROR] ");
    s.append(coord.to_string().as_str());
    s.append(": ");
    s.append(message);
    s
}

/// The line that sums up a prefetch.
pub fn prefetch_summary_line(loaded: usize, failed: usize) -> (s: String)
    ensures
        s@ == "[PREFETCH] "@ + decimal(loaded as nat) + " loaded, "@ + decimal(failed as nat)
            + " failed"@,
{
    let mut s = String::from_str("[PREFETCH] ");
    push_decimal(&mut s, loaded as u64);
    s.append(" loaded, ");
    push_decimal(&mut s, failed as u64);
    s.append(" failed");
    s
}

/// High-performance tile scheduler with caching and prefetching.
pub struct TileScheduler {
    cache: TileCache,
    l2_cache: CompressedTileCache,
    slide: Option<u64>,
    pool: SlidePool,
    prefetch_calc: PrefetchCalculator,
    in_flight: InFlight,
    generation: u64,
    active_slide_id: u64,
    bulk_preloader: BulkPreloader,
}

impl View for TileScheduler {
    type V = SchedulerView;

    closed spec fn view(&self) -> SchedulerView {
        SchedulerView {
            l1: self.cache@,
            l2: self.l2_cache@,
            pool: self.pool@,
            slide: self.slide,
            in_flight: self.in_flight@,
            generation: self.generation,
            active_slide_id: self.active_slide_id,
            config: self.prefetch_calc.config(),
            bulk: self.bulk_preloader@,
        }
    }
}

/// The state of a new scheduler with a decoded cache of `cache_size_mb`
/// megabytes and a compressed cache of `l2_cache_size_mb` megabytes, which
/// prefetches `prefetch_distance` tiles ahead.
pub open spec fn fresh(
    cache_size_mb: usize,
    l2_cache_size_mb: usize,
    prefetch_distance: u32,
) -> SchedulerView {
    SchedulerView {
        l1: vacant(megabytes(cache_size_mb)),
        l2: vacant(megabytes(l2_cache_size_mb)),
        pool: Map::empty(),
        slide: None,
        in_flight: Set::empty(),
        generation: 0,
        active_slide_id: 0,
        config: PrefetchConfig {
            tiles_ahead: prefetch_distance,
            tiles_around: 1,
            prefetch_levels: true,
            min_velocity: 50,
        },
        bulk: BulkView {
            slides: Seq::empty(),
            next: 0,
            cancelled: false,
            running: false,
            loaded: 0,
            failed: 0,
        },
    }
}

/// The state after a slide switch to `slide` with the identifier `active`:
/// a new generation, no claimed tile, an empty decoded cache of the same
/// size limit with its counters at zero. The compressed cache and the pool
/// are not touched.
pub open spec fn switched(v: SchedulerView, slide: Option<u64>, active: u64) -> SchedulerView {
    SchedulerView {
        l1: vacant(v.l1.capacity),
        slide,
        in_flight: Set::empty(),
        generation: bumped(v.generation),
        active_slide_id: active,
        ..v
    }
}

/// The compressed cache outlives slide switches, which leave it as it is.
/// After a switch to slide `id`, the first fetch of a tile that the
/// compressed cache holds for that slide asks for no read: it gives that
/// compressed tile out to be decoded, the decoded cache counts its first
/// miss and the compressed cache one more hit. Where the codec then gives a
/// tile, that tile is returned.
pub proof fn lemma_compressed_outlives_switch(
    v: SchedulerView,
    id: u64,
    c: TileCoord,
    v1: SchedulerView,
    r: TileFetch,
    d: DecodedView,
    v2: SchedulerView,
    r2: TileFetch,
)
    requires
        id != 0,
        v.l2.entries.contains_key(l2_key(id, c)),
        fetched(switched(v, Some(id), id), c, v1, r),
        promoted(v1, c, d, v2, r2),
    ensures
        switched(v, Some(id), id).l2 == v.l2,
        r matches TileFetch::Decode(t) && t.parts() == v.l2.entries[l2_key(id, c)],
        counted_hit(v.l2, v1.l2),
        v1.l1.hits == 0,
        v1.l1.misses == 1,
        decoded_parts(d) matches Some(p) ==> (r2 matches TileFetch::Ready(Some(t)) && t.parts()
            == p),
{
}

impl TileScheduler {
    /// Create a new scheduler with caches of the given sizes in megabytes.
    pub fn new(cache_size_mb: usize, l2_cache_size_mb: usize, prefetch_distance: u32) -> (s: TileScheduler)
        ensures
            s@ == fresh(cache_size_mb, l2_cache_size_mb, prefetch_distance),
    {
        let d = PrefetchConfig::default();
        let prefetch_config = PrefetchConfig {
            tiles_ahead: prefetch_distance,
            tiles_around: d.tiles_around,
            prefetch_levels: d.prefetch_levels,
            min_velocity: d.min_velocity,
        };
        TileScheduler {
            cache: TileCache::new(cache_size_mb),
            l2_cache: CompressedTileCache::new(l2_cache_size_mb),
            slide: None,
            pool: SlidePool::new(),
            prefetch_calc: PrefetchCalculator::new(prefetch_config),
            in_flight: InFlight::new(),
            generation: 0,
            active_slide_id: 0,
            bulk_preloader: BulkPreloader::new(),
        }
    }

    /// Load the slide with the identifier `slide_id`. A slide that the pool
    /// holds is taken from there; any other is read by `load`. Then the
    /// generation moves on, the claims of prefetch workers are dropped and the
    /// decoded cache is emptied; the compressed cache stays as it is. Where
    /// the slide cannot be had, the error is returned and nothing changes.
    pub fn load<F: FnOnce() -> TileResult<SlideSource>>(&mut self, slide_id: u64, load: F) -> (r:
        TileResult<()>)
        requires
            call_requires(load, ()),
        ensures
            old(self)@.pool.contains_key(slide_id) ==> r is Ok && final(self)@.pool == old(
                self,
            )@.pool,
            !old(self)@.pool.contains_key(slide_id) ==> exists|read: TileResult<SlideSource>|
                call_ensures(load, (), read) && #[trigger] accepted(
                    old(self)@.pool,
                    slide_id,
                    read,
                    final(self)@.pool,
                    r,
                ),
            match r {
                Ok(_) => final(self)@ == switched(
                    SchedulerView { pool: final(self)@.pool, ..old(self)@ },
                    Some(slide_id),
                    slide_id,
                ),
                Err(_) => final(self)@ == old(self)@,
            },
    {
        let r = self.pool.load_or_get(slide_id, load);
        if r.is_err() {
            return r;
        }
        self.generation = self.generation.wrapping_add(1);
        self.in_flight.clear();
        self.cache.clear();
        self.slide = Some(slide_id);
        self.active_slide_id = slide_id;
        r
    }

    /// Close the current slide.
    pub fn close(&mut self)
        ensures
            final(self)@ == switched(old(self)@, None, 0),
    {
        self.generation = self.generation.wrapping_add(1);
        self.in_flight.clear();
        self.slide = None;
        self.cache.clear();
        self.active_slide_id = 0;
    }

    fn current(&self) -> (e: Option<&SlideEntry>)
        ensures
            match e {
                Some(entry) => self@.current() == Some(*entry),
                None => self@.current() is None,
            },
    {
        match self.slide {
            Some(id) => self.pool.get(id),
            None => None,
        }
    }

    /// Check if a slide is loaded.
    pub fn is_loaded(&self) -> (b: bool)
        ensures
            b == self@.current() is Some,
    {
        self.current().is_some()
    }

    /// Get tile size: that of the current slide, 512 while none is loaded.
    pub fn tile_size(&self) -> (n: u32)
        ensures
            n == match self@.current() {
                Some(e) => e.metadata.tile_size,
                None => 512,
            },
    {
        match self.current() {
            Some(e) => e.metadata.tile_size,
            None => 512,
        }
    }

    /// Get number of pyramid levels, 0 while no slide is loaded.
    pub fn num_levels(&self) -> (n: usize)
        ensures
            n == match self@.current() {
                Some(e) => e.metadata.levels@.len(),
                None => 0,
            },
    {
        match self.current() {
            Some(e) => e.metadata.num_levels(),
            None => 0,
        }
    }

    /// Get slide dimensions, (0, 0) while no slide is loaded.
    pub fn dimensions(&self) -> (d: (u32, u32))
        ensures
            d == match self@.current() {
                Some(e) => e.metadata.dimensions,
                None => (0u32, 0u32),
            },
    {
        match self.current() {
            Some(e) => e.metadata.dimensions,
            None => (0, 0),
        }
    }

    /// How many slides the pool holds.
    pub fn pooled_slides(&self) -> (n: usize)
        ensures
            n == self@.pool.len(),
    {
        self.pool.len()
    }

    /// The generation: how many loads and closes there were.
    pub fn generation(&self) -> (g: u64)
        ensures
            g == self@.generation,
    {
        self.generation
    }

    /// The identifier of the active slide, 0 while none is loaded.
    pub fn active_slide_id(&self) -> (id: u64)
        ensures
            id == self@.active_slide_id,
    {
        self.active_slide_id
    }

    /// Whether a prefetch worker has claimed the tile.
    pub fn is_in_flight(&self, coord: &TileCoord) -> (b: bool)
        ensures
            b == self@.in_flight.contains(*coord),
    {
        self.in_flight.contains(coord)
    }

    /// Whether no tile is claimed by a prefetch worker.
    pub fn in_flight_is_empty(&self) -> (b: bool)
        ensures
            b == (self@.in_flight == Set::<TileCoord>::empty()),
    {
        self.in_flight.is_empty()
    }

    /// Get a tile. The decoded cache is asked first, then the compressed
    /// cache, whose tile is given out to be decoded; where neither has the
    /// tile, the answer says which bytes of the pack to read, or that there
    /// is no such tile. Claims of prefetch workers are not looked at.
    pub fn get_tile(&mut self, level: u32, col: u32, row: u32) -> (r: TileFetch)
        ensures
            fetched(old(self)@, TileCoord { level, col, row }, final(self)@, r),
    {
        let coord = TileCoord::new(level, col, row);
        match self.cache.get(&coord) {
            Some(tile) => {
                return TileFetch::Ready(Some(tile));
            },
            None => {},
        }
        let slide_id = self.active_slide_id;
        if slide_id != 0 {
            let l2_coord = SlideTileCoord::new(slide_id, level, col, row);
            match self.l2_cache.get(&l2_coord) {
                Some(compressed) => {
                    return TileFetch::Decode(compressed);
                },
                None => {},
            }
        }
        self.ask_pack(&coord)
    }

    /// What the pack of the current slide has to say of a tile.
    fn ask_pack(&self, coord: &TileCoord) -> (r: TileFetch)
        ensures
            r == from_pack(self@, *coord),
    {
        let tile_ref = match self.current() {
            Some(entry) => entry.pack.tile_ref(coord.level, coord.col, coord.row),
            None => None,
        };
        match tile_ref {
            Some(r) => TileFetch::Read(r),
            None => TileFetch::Ready(None),
        }
    }

    /// Takes what the codec made of the compressed tile that `get_tile` gave
    /// out: a tile is put into the decoded cache and returned. Where the
    /// codec gave none, the answer is that of the pack: which bytes to read,
    /// or that there is no such tile.
    pub fn promote_decoded(&mut self, coord: &TileCoord, decoded: Decoded) -> (r: TileFetch)
        ensures
            promoted(old(self)@, *coord, decoded@, final(self)@, r),
    {
        match decode_jpeg_bytes(decoded) {
            Ok(tile) => {
                self.cache.insert(*coord, tile.share());
                TileFetch::Ready(Some(tile))
            },
            Err(_) => self.ask_pack(coord),
        }
    }

    /// Takes what the host got for the read that `get_tile` asked for:
    /// caches the compressed bytes, makes the tile of what the codec gave,
    /// caches the tile and returns it. What went wrong, if anything did, is
    /// returned for the host to report.
    pub fn load_tile_into_cache(&mut self, coord: &TileCoord, read: TileResult<TileRead>) -> (r:
        TileResult<TileData>)
        ensures
            loaded_into_cache(old(self)@, *coord, read, final(self)@, r),
    {
        let slide_id = self.active_slide_id;
        let got = match read {
            Ok(got) => got,
            Err(e) => {
                return Err(e);
            },
        };
        let compressed = match read_jpeg_bytes(Ok(got.jpeg)) {
            Ok(c) => c,
            Err(e) => {
                return Err(e);
            },
        };
        if slide_id != 0 {
            let l2_coord = SlideTileCoord::new(slide_id, coord.level, coord.col, coord.row);
            self.l2_cache.insert(l2_coord, compressed);
        }
        match decode_jpeg_bytes(got.decoded) {
            Ok(tile) => {
                self.cache.insert(*coord, tile.share());
                Ok(tile)
            },
            Err(e) => Err(e),
        }
    }

    /// Get a tile as compressed JPEG bytes: from the compressed cache while
    /// a slide is active, else from the pack, for which the answer says what
    /// to read. The decoded cache is not asked and not filled.
    pub fn get_tile_jpeg(&mut self, level: u32, col: u32, row: u32) -> (r: JpegFetch)
        ensures
            jpeg_fetched(old(self)@, TileCoord { level, col, row }, final(self)@, r),
    {
        let slide_id = self.active_slide_id;
        if slide_id != 0 {
            let l2_coord = SlideTileCoord::new(slide_id, level, col, row);
            match self.l2_cache.get(&l2_coord) {
                Some(compressed) => {
                    return JpegFetch::Ready(Some(compressed));
                },
                None => {},
            }
        }
        let tile_ref = match self.current() {
            Some(entry) => entry.pack.tile_ref(level, col, row),
            None => None,
        };
        match tile_ref {
            Some(r) => JpegFetch::Read(r),
            None => JpegFetch::Ready(None),
        }
    }

    /// Takes the outcome of the read that `get_tile_jpeg` asked for: caches
    /// the compressed bytes and returns them.
    pub fn load_jpeg_into_cache(&mut self, coord: &TileCoord, read: TileResult<Vec<u8>>) -> (r:
        TileResult<CompressedTileData>)
        ensures
            jpeg_loaded(old(self)@, *coord, read, final(self)@, r),
    {
        let slide_id = self.active_slide_id;
        let jpeg = match read {
            Ok(b) => b,
            Err(e) => {
                return Err(e);
            },
        };
        let compressed = match read_jpeg_bytes(Ok(jpeg)) {
            Ok(c) => c,
            Err(e) => {
                return Err(e);
            },
        };
        if slide_id != 0 {
            let l2_coord = SlideTileCoord::new(slide_id, coord.level, coord.col, coord.row);
            self.l2_cache.insert(l2_coord, compressed.share());
        }
        Ok(compressed)
    }

    /// The byte range to read from a pack of slide `slide_id` for
    /// `tile_ref`, checked against the size of the pack. A slide that the
    /// pool does not hold is reported as not loaded.
    pub fn tile_span(&self, slide_id: u64, tile_ref: PackTileRef) -> (r: TileResult<(u64, u64)>)
        ensures
            match r {
                Ok(span) => self@.pool.contains_key(slide_id) && span_of(
                    self@.pool[slide_id].pack@,
                    tile_ref,
                ) == Ok::<(u64, u64), Seq<char>>(span),
                Err(TileError::NotLoaded) => !self@.pool.contains_key(slide_id),
                Err(TileError::Validation(m)) => self@.pool.contains_key(slide_id) && span_of(
                    self@.pool[slide_id].pack@,
                    tile_ref,
                ) == Err::<(u64, u64), Seq<char>>(m@),
                Err(_) => false,
            },
    {
        match self.pool.get(slide_id) {
            Some(entry) => entry.pack.tile_span(tile_ref),
            None => Err(TileError::NotLoaded),
        }
    }

    /// Remove the claim on a tile only if the generation still matches, so
    /// that a stale worker cannot release a claim of the new generation.
    pub fn clear_in_flight_for_generation(&mut self, coord: &TileCoord, batch_generation: u64)
        ensures
            final(self)@ == (SchedulerView {
                in_flight: if old(self)@.generation == batch_generation {
                    old(self)@.in_flight.remove(*coord)
                } else {
                    old(self)@.in_flight
                },
                ..old(self)@
            }),
    {
        if self.generation == batch_generation {
            self.in_flight.remove(coord);
        }
    }

    /// First step of the prefetch of a tile for a batch that was planned in
    /// `batch_generation`; `tile_ref` is the tile's place in the pack. A stale
    /// batch is dropped. A tile that the decoded cache holds is served from
    /// there; one that the compressed cache holds is given out to be decoded.
    /// Any other is claimed, so that no second worker loads it, and the
    /// answer says what to read.
    pub fn load_tile_for_prefetch(
        &mut self,
        coord: &TileCoord,
        tile_ref: PackTileRef,
        batch_generation: u64,
    ) -> (r: PrefetchStep)
        ensures
            prefetch_started(old(self)@, *coord, tile_ref, batch_generation, final(self)@, r),
    {
        let slide_id = self.active_slide_id;
        if self.generation != batch_generation {
            return PrefetchStep::Done(None);
        }
        match self.cache.get(coord) {
            Some(tile) => {
                return PrefetchStep::Done(Some(tile));
            },
            None => {},
        }
        if slide_id != 0 {
            let l2_coord = SlideTileCoord::new(slide_id, coord.level, coord.col, coord.row);
            match self.l2_cache.get(&l2_coord) {
                Some(compressed) => {
                    return PrefetchStep::Decode(compressed);
                },
                None => {},
            }
        }
        self.claim(coord, tile_ref)
    }

    /// Claims a tile for a prefetch worker.
    fn claim(&mut self, coord: &TileCoord, tile_ref: PackTileRef) -> (r: PrefetchStep)
        ensures
            claimed(old(self)@, *coord, tile_ref, final(self)@, r),
            final(self)@ == (SchedulerView { in_flight: final(self)@.in_flight, ..old(self)@ }),
    {
        if !self.in_flight.insert(*coord) {
            return PrefetchStep::Done(None);
        }
        PrefetchStep::Read { tile_ref, slide_id: self.active_slide_id }
    }

    /// Takes what the codec made of the compressed tile that the first step
    /// of a prefetch gave out. A batch that has become stale meanwhile is
    /// dropped. A tile is put into the decoded cache and returned. Where the
    /// codec gave none, the tile is claimed and the answer says what to read.
    pub fn promote_for_prefetch(
        &mut self,
        coord: &TileCoord,
        tile_ref: PackTileRef,
        batch_generation: u64,
        decoded: Decoded,
    ) -> (r: PrefetchStep)
        ensures
            prefetch_promoted(
                old(self)@,
                *coord,
                tile_ref,
                batch_generation,
                decoded@,
                final(self)@,
                r,
            ),
    {
        if self.generation != batch_generation {
            return PrefetchStep::Done(None);
        }
        match decode_jpeg_bytes(decoded) {
            Ok(tile) => {
                self.cache.insert(*coord, tile.share());
                PrefetchStep::Done(Some(tile))
            },
            Err(_) => self.claim(coord, tile_ref),
        }
    }

    /// Last step of the prefetch of a tile: takes what the host got for the
    /// read that an earlier step asked for on behalf of slide `slide_id`.
    /// What went wrong, if anything did, is returned for the host to report.
    pub fn finish_prefetch(
        &mut self,
        coord: &TileCoord,
        slide_id: u64,
        batch_generation: u64,
        read: TileResult<TileRead>,
    ) -> (r: TileResult<Option<TileData>>)
        ensures
            prefetch_finished(
                old(self)@,
                *coord,
                slide_id,
                batch_generation,
                read,
                final(self)@,
                r,
            ),
    {
        let got = match read {
            Ok(got) => got,
            Err(e) => {
                self.clear_in_flight_for_generation(coord, batch_generation);
                return Err(e);
            },
        };
        let compressed = match read_jpeg_bytes(Ok(got.jpeg)) {
            Ok(c) => c,
            Err(e) => {
                self.clear_in_flight_for_generation(coord, batch_generation);
                return Err(e);
            },
        };
        if slide_id != 0 && self.active_slide_id == slide_id {
            let l2_coord = SlideTileCoord::new(slide_id, coord.level, coord.col, coord.row);
            self.l2_cache.insert(l2_coord, compressed);
        }
        let result = match decode_jpeg_bytes(got.decoded) {
            Ok(tile) => {
                if self.generation != batch_generation {
                    Ok(None)
                } else {
                    self.cache.insert(*coord, tile.share());
                    Ok(Some(tile))
                }
            },
            Err(e) => Err(e),
        };
        self.clear_in_flight_for_generation(coord, batch_generation);
        result
    }

    /// Whether the decoded cache holds the tile.
    pub fn is_decoded(&self, coord: &TileCoord) -> (b: bool)
        ensures
            b == self@.l1.entries.contains_key(coord.store_key()),
    {
        self.cache.contains(coord)
    }

    /// Whether the compressed cache holds the tile.
    pub fn is_compressed(&self, coord: &SlideTileCoord) -> (b: bool)
        ensures
            b == self@.l2.entries.contains_key(coord.store_key()),
    {
        self.l2_cache.contains(coord)
    }

    fn uncached_tiles(&self, tiles: &Vec<TileCoord>) -> (out: Vec<TileCoord>)
        ensures
            out@ == uncached(tiles@, self@.l1.entries),
    {
        let mut out: Vec<TileCoord> = Vec::new();
        let mut k: usize = 0;
        assert(tiles@.take(0) =~= Seq::<TileCoord>::empty());
        while k < tiles.len()
            invariant
                k <= tiles.len(),
                out@ == uncached(tiles@.take(k as int), self@.l1.entries),
            decreases tiles.len() - k,
        {
            let coord = tiles[k];
            proof {
                let prefix = tiles@.take(k + 1);
                assert(prefix.drop_last() =~= tiles@.take(k as int));
                assert(prefix.last() == coord);
            }
            if !self.cache.contains(&coord) {
                out.push(coord);
            }
            k += 1;
        }
        assert(tiles@.take(k as int) =~= tiles@);
        out
    }

    /// Resolve tile coordinates to their places in the pack. Tiles that the
    /// pack does not hold are left out.
    fn collect_tile_refs(pack: &TilePack, coords: &Vec<TileCoord>) -> (out: Vec<
        (TileCoord, PackTileRef),
    >)
        ensures
            out@ == with_refs(coords@, pack@),
    {
        let mut out: Vec<(TileCoord, PackTileRef)> = Vec::new();
        let mut k: usize = 0;
        assert(coords@.take(0) =~= Seq::<TileCoord>::empty());
        while k < coords.len()
            invariant
                k <= coords.len(),
                out@ == with_refs(coords@.take(k as int), pack@),
            decreases coords.len() - k,
        {
            let coord = coords[k];
            proof {
                let prefix = coords@.take(k + 1);
                assert(prefix.drop_last() =~= coords@.take(k as int));
                assert(prefix.last() == coord);
            }
            match pack.tile_ref(coord.level, coord.col, coord.row) {
                Some(r) => {
                    out.push((coord, r));
                },
                None => {},
            }
            k += 1;
        }
        assert(coords@.take(k as int) =~= coords@);
        out
    }

    /// Whether `list` holds `coord`.
    fn holds(list: &Vec<TileCoord>, coord: TileCoord) -> (b: bool)
        ensures
            b == list@.contains(coord),
    {
        let mut j: usize = 0;
        while j < list.len()
            invariant
                j <= list.len(),
                forall|q: int| 0 <= q < j ==> list@[q] != coord,
            decreases list.len() - j,
        {
            if list[j] == coord {
                assert(list@[j as int] == coord);
                return true;
            }
            j += 1;
        }
        false
    }

    /// Update viewport and plan the prefetch for it.
    pub fn update_viewport(
        &self,
        x: i64,
        y: i64,
        width: i64,
        height: i64,
        max_downsample: u32,
        velocity_x: i64,
        velocity_y: i64,
    ) -> (batch: PrefetchBatch)
        ensures
            batch.generation == self@.generation,
            batch.tiles@ == match self@.current() {
                Some(e) => with_refs(
                    batch_coords(
                        self@.config,
                        self@.l1.entries,
                        e.metadata,
                        Viewport { x, y, width, height, max_downsample, velocity_x, velocity_y },
                    ),
                    e.pack@,
                ),
                None => Seq::empty(),
            },
    {
        let viewport = Viewport::new(x, y, width, height, max_downsample, velocity_x, velocity_y);
        self.prefetch_for_viewport(&viewport)
    }

    /// Plan the prefetch for a viewport: the tiles to load, most urgent
    /// first, under the generation that is current now. The host hands each
    /// tile to `load_tile_for_prefetch`.
    pub fn prefetch_for_viewport(&self, viewport: &Viewport) -> (batch: PrefetchBatch)
        ensures
            batch.generation == self@.generation,
            batch.tiles@ == match self@.current() {
                Some(e) => with_refs(
                    batch_coords(self@.config, self@.l1.entries, e.metadata, *viewport),
                    e.pack@,
                ),
                None => Seq::empty(),
            },
    {
        let batch_generation = self.generation;
        let state = match self.current() {
            Some(e) => e,
            None => {
                return PrefetchBatch { generation: batch_generation, tiles: Vec::new() };
            },
        };
        let visible_tiles = self.prefetch_calc.visible_tiles(&state.metadata, viewport);
        let visible_uncached = self.uncached_tiles(&visible_tiles);
        let cache = &self.cache;
        let cached = |coord: &TileCoord| -> (b: bool)
            ensures
                b == cache@.entries.contains_key(coord.store_key()),
            { cache.contains(coord) };
        let all_tiles = self.prefetch_calc.prefetch_tiles(&state.metadata, viewport, &cached);
        proof {
            let candidates = candidates_of(self@.config, state.metadata, *viewport);
            let answers = choose|answers: Seq<bool>|
                #[trigger] answered(cached, candidates, answers) && all_tiles@ == kept(
                    candidates,
                    answers,
                );
            lemma_kept_uncached(candidates, answers, self@.l1.entries);
        }
        let visible_count: usize = if visible_uncached.len() < MAX_VISIBLE_TILES {
            visible_uncached.len()
        } else {
            MAX_VISIBLE_TILES
        };
        let mut tiles_to_load: Vec<TileCoord> = Vec::new();
        let mut i: usize = 0;
        while i < visible_count
            invariant
                i <= visible_count <= visible_uncached.len(),
                tiles_to_load@ == visible_uncached@.take(i as int),
            decreases visible_count - i,
        {
            tiles_to_load.push(visible_uncached[i]);
            assert(tiles_to_load@ =~= visible_uncached@.take(i + 1));
            i += 1;
        }
        assert(tiles_to_load@ =~= first_n(visible_uncached@, 256)) by {
            if visible_uncached@.len() <= 256 {
                assert(visible_uncached@.take(visible_count as int) =~= visible_uncached@);
            }
        }
        let ghost start = tiles_to_load@;
        let ghost further = without(all_tiles@, visible_tiles@);
        let mut taken: usize = 0;
        let mut k: usize = 0;
        assert(all_tiles@.take(0) =~= Seq::<TileCoord>::empty());
        while k < all_tiles.len() && taken < EXTENDED_TILE_BUDGET
            invariant
                k <= all_tiles.len(),
                taken <= EXTENDED_TILE_BUDGET,
                taken == without(all_tiles@.take(k as int), visible_tiles@).len(),
                tiles_to_load@ == start + without(all_tiles@.take(k as int), visible_tiles@),
            decreases all_tiles.len() - k,
        {
            let coord = all_tiles[k];
            proof {
                let next = all_tiles@.take(k + 1);
                assert(next.last() == coord);
                assert(next.drop_last() =~= all_tiles@.take(k as int));
            }
            if !Self::holds(&visible_tiles, coord) {
                tiles_to_load.push(coord);
                taken += 1;
                assert(tiles_to_load@ =~= start + without(
                    all_tiles@.take(k + 1),
                    visible_tiles@,
                ));
            }
            k += 1;
        }
        proof {
            let part = without(all_tiles@.take(k as int), visible_tiles@);
            lemma_without_prefix(all_tiles@, visible_tiles@, k as int);
            if k == all_tiles.len() {
                assert(all_tiles@.take(k as int) =~= all_tiles@);
            }
            assert(part == first_n(further, 32));
        }
        let tiles = Self::collect_tile_refs(&state.pack, &tiles_to_load);
        PrefetchBatch { generation: batch_generation, tiles }
    }

    /// Plan the warm-up of a slide: all tiles of the levels that have few
    /// tiles, so that any first view finds its tiles ready. The host hands
    /// each of them to `load_tile_for_prefetch`.
    pub fn prefetch_low_res_levels(&self) -> (batch: PrefetchBatch)
        ensures
            batch.generation == self@.generation,
            batch.tiles@ == match self@.current() {
                Some(e) => with_refs(low_res_coords(e.metadata.levels@), e.pack@),
                None => Seq::empty(),
            },
    {
        let batch_generation = self.generation;
        let state = match self.current() {
            Some(e) => e,
            None => {
                return PrefetchBatch { generation: batch_generation, tiles: Vec::new() };
            },
        };
        let ghost levels = state.metadata.levels@;
        let mut all_coords: Vec<TileCoord> = Vec::new();
        let mut i: usize = 0;
        assert(levels.take(0) =~= Seq::<LevelInfo>::empty());
        while i < state.metadata.levels.len()
            invariant
                i <= state.metadata.levels.len(),
                levels == state.metadata.levels@,
                all_coords@ == low_res_coords(levels.take(i as int)),
            decreases state.metadata.levels.len() - i,
        {
            let level_info = state.metadata.levels[i];
            proof {
                let prefix = levels.take(i + 1);
                assert(prefix.drop_last() =~= levels.take(i as int));
                assert(prefix.last() == level_info);
            }
            assert(level_info.cols * level_info.rows <= 0xffff_ffff * 0xffff_ffff)
                by (nonlinear_arith)
                requires
                    level_info.cols <= 0xffff_ffff,
                    level_info.rows <= 0xffff_ffff,
            ;
            let total_tiles: u64 = (level_info.cols as u64) * (level_info.rows as u64);
            if total_tiles <= MAX_TILES_PER_LEVEL {
                let mut tiles = grid_tiles(level_info.level, 0, level_info.cols, 0, level_info.rows);
                all_coords.append(&mut tiles);
            } else {
                assert(all_coords@ + Seq::<TileCoord>::empty() =~= all_coords@);
            }
            i += 1;
        }
        assert(levels.take(i as int) =~= levels);
        let tiles = Self::collect_tile_refs(&state.pack, &all_coords);
        PrefetchBatch { generation: batch_generation, tiles }
    }

    /// Check which tiles from a list are cached: those that the decoded
    /// cache holds, and, while a slide is active, those that the compressed
    /// cache holds for it.
    pub fn filter_cached_tiles(&self, tiles: &[(u32, u32, u32)]) -> (out: Vec<(u32, u32, u32)>)
        ensures
            out@ == cached_among(self@, tiles@),
            forall|t: (u32, u32, u32)|
                out@.contains(t) <==> tiles@.contains(t) && is_cached(self@, t),
    {
        let slide_id = self.active_slide_id;
        let mut out: Vec<(u32, u32, u32)> = Vec::new();
        let mut k: usize = 0;
        assert(tiles@.take(0) =~= Seq::<(u32, u32, u32)>::empty());
        while k < tiles.len()
            invariant
                k <= tiles.len(),
                slide_id == self@.active_slide_id,
                out@ == cached_among(self@, tiles@.take(k as int)),
            decreases tiles.len() - k,
        {
            let t = tiles[k];
            proof {
                let prefix = tiles@.take(k + 1);
                assert(prefix.drop_last() =~= tiles@.take(k as int));
                assert(prefix.last() == t);
            }
            let coord = TileCoord::new(t.0, t.1, t.2);
            let hit = if self.cache.contains(&coord) {
                true
            } else if slide_id != 0 {
                let l2_coord = SlideTileCoord::new(slide_id, t.0, t.1, t.2);
                self.l2_cache.contains(&l2_coord)
            } else {
                false
            };
            if hit {
                out.push(t);
            }
            k += 1;
        }
        proof {
            assert(tiles@.take(k as int) =~= tiles@);
            assert forall|t: (u32, u32, u32)|
                out@.contains(t) <==> tiles@.contains(t) && is_cached(self@, t) by {
                lemma_cached_among(self@, tiles@, t);
            }
        }
        out
    }

    /// Get combined L1 + L2 cache statistics. The caches run the maintenance
    /// that is due, which may evict tiles; the sizes and the numbers of tiles
    /// are the stores' estimates after it. A cache that holds no tile, and
    /// whose store has counted none, reports no tile and no byte.
    pub fn cache_stats(&mut self) -> (s: CombinedCacheStats)
        ensures
            stats_read(old(self)@, final(self)@, s),
    {
        let l1 = self.cache.stats();
        let l2 = self.l2_cache.stats();
        CombinedCacheStats { l1, l2 }
    }

    /// Reset cache hit/miss counters to zero (both L1 and L2).
    pub fn reset_cache_stats(&mut self)
        ensures
            final(self)@ == (SchedulerView {
                l1: CacheView { hits: 0, misses: 0, ..old(self)@.l1 },
                l2: CacheView { hits: 0, misses: 0, ..old(self)@.l2 },
                ..old(self)@
            }),
    {
        self.cache.reset_stats();
        self.l2_cache.reset_stats();
    }

    /// Get metadata of the current slide: width, height, tile size, number
    /// of levels, and the bit patterns of the two targets.
    pub fn get_metadata(&self) -> (m: Option<(u32, u32, u32, usize, u64, u64)>)
        ensures
            m == match self@.current() {
                Some(e) => Some(
                    (
                        e.metadata.dimensions.0,
                        e.metadata.dimensions.1,
                        e.metadata.tile_size,
                        e.metadata.levels@.len() as usize,
                        e.metadata.target_mpp_bits,
                        e.metadata.target_magnification_bits,
                    ),
                ),
                None => None,
            },
    {
        match self.current() {
            Some(s) => Some(
                (
                    s.metadata.dimensions.0,
                    s.metadata.dimensions.1,
                    s.metadata.tile_size,
                    s.metadata.num_levels(),
                    s.metadata.target_mpp_bits,
                    s.metadata.target_magnification_bits,
                ),
            ),
            None => None,
        }
    }

    /// Get downsample, columns and rows of a level of the current slide.
    pub fn get_level_info(&self, level: u32) -> (r: Option<(u32, u32, u32)>)
        ensures
            r == match self@.current() {
                Some(e) => match find_info(e.metadata.levels@, level) {
                    Some(l) => Some((l.downsample, l.cols, l.rows)),
                    None => None,
                },
                None => None,
            },
    {
        match self.current() {
            Some(s) => match s.metadata.get_level(level) {
                Some(l) => Some((l.downsample, l.cols, l.rows)),
                None => None,
            },
            None => None,
        }
    }
    /// Start background preloading of slides into the compressed cache.
    /// `slides` holds the identifier and the directory of each slide, in the
    /// order of priority.
    pub fn start_bulk_preload(&mut self, slides: Vec<(u64, String)>)
        ensures
            final(self)@ == (SchedulerView {
                bulk: if slides@.len() == 0 {
                    BulkView { cancelled: true, running: false, ..old(self)@.bulk }
                } else {
                    BulkView {
                        slides: slides_view(slides@),
                        next: 0,
                        cancelled: false,
                        running: true,
                        loaded: 0,
                        failed: 0,
                    }
                },
                ..old(self)@
            }),
    {
        self.bulk_preloader.start(slides);
    }

    /// Cancel any running bulk preload.
    pub fn cancel_bulk_preload(&mut self)
        ensures
            final(self)@ == (SchedulerView {
                bulk: BulkView { cancelled: true, running: false, ..old(self)@.bulk },
                ..old(self)@
            }),
    {
        self.bulk_preloader.cancel();
    }

    /// Whether a bulk preload is currently running.
    pub fn is_bulk_preloading(&self) -> (b: bool)
        ensures
            b == self@.bulk.running,
    {
        self.bulk_preloader.is_running()
    }

    /// Whether the bulk preload was cancelled.
    pub fn is_bulk_cancelled(&self) -> (b: bool)
        ensures
            b == self@.bulk.cancelled,
    {
        self.bulk_preloader.is_cancelled()
    }

    /// The slide that the bulk preload turns to next, or `None` when the run
    /// is over.
    pub fn bulk_next_slide(&mut self) -> (s: Option<(u64, String)>)
        ensures
            final(self)@ == (SchedulerView { bulk: final(self)@.bulk, ..old(self)@ }),
            match s {
                Some(slide) => {
                    &&& !old(self)@.bulk.cancelled
                    &&& old(self)@.bulk.next < old(self)@.bulk.slides.len()
                    &&& (slide.0, slide.1@) == old(self)@.bulk.slides[old(self)@.bulk.next as int]
                    &&& final(self)@.bulk == (BulkView {
                        next: old(self)@.bulk.next + 1,
                        loaded: 0,
                        failed: 0,
                        ..old(self)@.bulk
                    })
                },
                None => {
                    &&& old(self)@.bulk.cancelled || old(self)@.bulk.next >= old(
                        self,
                    )@.bulk.slides.len()
                    &&& final(self)@.bulk == (BulkView { running: false, ..old(self)@.bulk })
                },
            },
    {
        self.bulk_preloader.next_slide()
    }

    /// Makes sure that the pool holds a slide of the bulk preload; `load`
    /// reads the slide and is called only where the pool does not hold it. A
    /// slide that cannot be had is skipped by the host.
    pub fn bulk_open_slide<F: FnOnce() -> TileResult<SlideSource>>(&mut self, slide_id: u64, load: F) -> (r:
        TileResult<()>)
        requires
            call_requires(load, ()),
        ensures
            final(self)@ == (SchedulerView { pool: final(self)@.pool, ..old(self)@ }),
            old(self)@.pool.contains_key(slide_id) ==> r is Ok && final(self)@.pool == old(
                self,
            )@.pool,
            !old(self)@.pool.contains_key(slide_id) ==> exists|read: TileResult<SlideSource>|
                call_ensures(load, (), read) && #[trigger] accepted(
                    old(self)@.pool,
                    slide_id,
                    read,
                    final(self)@.pool,
                    r,
                ),
    {
        self.pool.load_or_get(slide_id, load)
    }

    /// Plans the bulk preload of a slide that the pool holds: which tiles
    /// to read, and how many are left out because the compressed cache holds
    /// them. `None` for a slide that the pool does not hold.
    pub fn bulk_plan_slide(&self, slide_id: u64) -> (plan: Option<SlidePlan>)
        ensures
            match plan {
                Some(p) => {
                    &&& self@.pool.contains_key(slide_id)
                    &&& p.work@ == plan_work(
                        all_coords(self@.pool[slide_id].metadata.levels@),
                        slide_id,
                        self@.l2.entries,
                        self@.pool[slide_id].pack@,
                    )
                    &&& p.skipped == plan_skipped(
                        all_coords(self@.pool[slide_id].metadata.levels@),
                        slide_id,
                        self@.l2.entries,
                    )
                },
                None => !self@.pool.contains_key(slide_id),
            },
    {
        match self.pool.get(slide_id) {
            Some(entry) => Some(self.bulk_preloader.plan_slide(slide_id, entry, &self.l2_cache)),
            None => None,
        }
    }

    /// The line that reports the bulk preload of the slide `name`, of which
    /// `skipped` tiles were left out.
    pub fn bulk_summary(&self, name: &str, skipped: usize) -> (s: String)
        ensures
            s@ == crate::bulk_preload::summary_text(
                name@,
                self@.bulk.loaded,
                self@.bulk.failed,
                skipped,
            ),
    {
        self.bulk_preloader.summary(name, skipped)
    }

    /// Takes the outcome of a read of the bulk preload: the bytes go to the
    /// compressed cache, and the tile is counted as loaded or as failed.
    pub fn bulk_store_tile(&mut self, coord: SlideTileCoord, read: TileResult<Vec<u8>>) -> (ok: bool)
        ensures
            final(self)@ == (SchedulerView {
                l2: final(self)@.l2,
                bulk: final(self)@.bulk,
                ..old(self)@
            }),
            stored_read(old(self)@.l2, coord, read, final(self)@.l2, ok),
            final(self)@.bulk == if ok {
                BulkView {
                    loaded: crate::bulk_preload::one_more(old(self)@.bulk.loaded),
                    ..old(self)@.bulk
                }
            } else {
                BulkView {
                    failed: crate::bulk_preload::one_more(old(self)@.bulk.failed),
                    ..old(self)@.bulk
                }
            },
    {
        self.bulk_preloader.store_tile(&mut self.l2_cache, coord, read)
    }
}

} // verus!
