//! Cached tiles agree with the packs they were read from.
//!
//! The scheduler keeps no record of the packs and does not run the codec.
//! What it promises is stated against any host: a function that gives the
//! bytes of the file of each tile that has one, and a function that gives
//! what the codec makes of bytes. As long as the host hands over those bytes
//! whenever it is asked to read a tile, and that decoding whenever it is
//! asked to decode, both caches hold nothing else, and every fetch of a tile
//! returns the same pixels.

use vstd::prelude::*;

use crate::bulk_preload::stored_read;
use crate::cache::{l2_key, CacheKey, SlideTileCoord, TileCoord, Weighted};
use crate::decoder::{decoded_parts, probed_parts};
use crate::decoder::{CompressedTileData, DecodedView, TileData, TileRead};
use crate::error::TileResult;
use crate::pack::PackTileRef;
use crate::scheduler::{fetched, jpeg_fetched, jpeg_loaded, loaded_into_cache, promoted};
use crate::scheduler::{prefetch_finished, prefetch_promoted, prefetch_started, switched};
use crate::scheduler::{JpegFetch, PrefetchStep, SchedulerView, TileFetch};
use crate::store::StoreKey;

verus! {

/// What lies outside the scheduler and is taken not to change.
pub ghost struct Host {
    /// The bytes of the file of each tile of each slide; `None` for a tile
    /// that the packs lack.
    pub files: spec_fn(StoreKey) -> Option<Seq<u8>>,
    /// What the codec makes of bytes.
    pub codec: spec_fn(Seq<u8>) -> DecodedView,
}

/// The compressed tile `entry` is the file of tile `k`: it holds the file's
/// bytes and the dimensions in the file's header.
pub open spec fn file_held(
    h: Host,
    k: StoreKey,
    entry: (Seq<u8>, u32, u32),
) -> bool {
    (h.files)(k) == Some(entry.0) && probed_parts(entry.0) == Some(entry)
}

/// The decoded tile `entry` is what the file of tile `k` decodes to, and the
/// file's header can be read.
pub open spec fn file_shown(
    h: Host,
    k: StoreKey,
    entry: (Seq<u8>, u32, u32),
) -> bool {
    match (h.files)(k) {
        Some(jpeg) => probed_parts(jpeg) is Some && decoded_parts((h.codec)(jpeg)) == Some(entry),
        None => false,
    }
}

/// Every compressed tile is the file of its tile and lies under a slide
/// identifier other than 0.
pub open spec fn l2_agrees(
    entries: Map<StoreKey, (Seq<u8>, u32, u32)>,
    h: Host,
) -> bool {
    forall|k: StoreKey| #[trigger]
        entries.contains_key(k) ==> file_held(h, k, entries[k]) && k.0 != 0
}

/// Every decoded tile is what the file of that tile of slide `active`
/// decodes to.
pub open spec fn l1_agrees(
    entries: Map<StoreKey, (Seq<u8>, u32, u32)>,
    active: u64,
    h: Host,
) -> bool {
    forall|c: TileCoord| #[trigger]
        entries.contains_key(c.store_key()) ==> file_shown(
            h,
            l2_key(active, c),
            entries[c.store_key()],
        )
}

/// The caches agree with the packs. Every compressed tile is the file of its
/// tile and lies under a slide identifier other than 0, and every decoded
/// tile is what the file of that tile of the active slide decodes to.
pub open spec fn coherent(v: SchedulerView, h: Host) -> bool {
    l2_agrees(v.l2.entries, h) && l1_agrees(v.l1.entries, v.active_slide_id, h)
}

proof fn lemma_l2_shrunk(
    before: Map<StoreKey, (Seq<u8>, u32, u32)>,
    after: Map<StoreKey, (Seq<u8>, u32, u32)>,
    h: Host,
)
    requires
        l2_agrees(before, h),
        after.submap_of(before),
    ensures
        l2_agrees(after, h),
{
    assert forall|k: StoreKey| #[trigger] after.contains_key(k) implies file_held(
        h,
        k,
        after[k],
    ) && k.0 != 0 by {
        assert(after.dom().contains(k));
        assert(before.contains_key(k));
    }
}

proof fn lemma_l2_put(
    before: Map<StoreKey, (Seq<u8>, u32, u32)>,
    after: Map<StoreKey, (Seq<u8>, u32, u32)>,
    key: StoreKey,
    value: (Seq<u8>, u32, u32),
    h: Host,
)
    requires
        l2_agrees(before, h),
        after.submap_of(before.insert(key, value)),
        file_held(h, key, value),
        key.0 != 0,
    ensures
        l2_agrees(after, h),
{
    assert forall|k: StoreKey| #[trigger] after.contains_key(k) implies file_held(
        h,
        k,
        after[k],
    ) && k.0 != 0 by {
        assert(after.dom().contains(k));
        assert(before.insert(key, value).dom().contains(k));
        if k != key {
            assert(before.contains_key(k));
        }
    }
}

proof fn lemma_l1_shrunk(
    before: Map<StoreKey, (Seq<u8>, u32, u32)>,
    after: Map<StoreKey, (Seq<u8>, u32, u32)>,
    active: u64,
    h: Host,
)
    requires
        l1_agrees(before, active, h),
        after.submap_of(before),
    ensures
        l1_agrees(after, active, h),
{
    assert forall|c: TileCoord| #[trigger] after.contains_key(c.store_key()) implies file_shown(
        h,
        l2_key(active, c),
        after[c.store_key()],
    ) by {
        assert(after.dom().contains(c.store_key()));
        assert(before.contains_key(c.store_key()));
    }
}

proof fn lemma_l1_put(
    before: Map<StoreKey, (Seq<u8>, u32, u32)>,
    after: Map<StoreKey, (Seq<u8>, u32, u32)>,
    active: u64,
    c: TileCoord,
    value: (Seq<u8>, u32, u32),
    h: Host,
)
    requires
        l1_agrees(before, active, h),
        after.submap_of(before.insert(c.store_key(), value)),
        file_shown(h, l2_key(active, c), value),
    ensures
        l1_agrees(after, active, h),
{
    assert forall|d: TileCoord| #[trigger] after.contains_key(d.store_key()) implies file_shown(
        h,
        l2_key(active, d),
        after[d.store_key()],
    ) by {
        assert(after.dom().contains(d.store_key()));
        assert(before.insert(c.store_key(), value).dom().contains(d.store_key()));
        if d.store_key() != c.store_key() {
            assert(before.contains_key(d.store_key()));
        } else {
            assert(d == c);
        }
    }
}

/// What the host hands over for tile `c` of slide `slide_id` holds the bytes
/// of the tile's file and what the codec makes of them, if it holds
/// anything: the host reads no tile that has no file.
pub open spec fn faithful(read: TileResult<TileRead>, slide_id: u64, c: TileCoord, h: Host) -> bool {
    read matches Ok(got) ==> {
        &&& (h.files)(l2_key(slide_id, c)) == Some(got.jpeg@)
        &&& got.decoded@ == (h.codec)(got.jpeg@)
    }
}

/// The bytes that the host hands over for the tile with the key `k` are
/// those of the tile's file, if it hands any over.
pub open spec fn faithful_bytes(read: TileResult<Vec<u8>>, k: StoreKey, h: Host) -> bool {
    read matches Ok(jpeg) ==> (h.files)(k) == Some(jpeg@)
}

/// A new scheduler agrees with any packs.
pub proof fn lemma_fresh_coherent(
    cache_size_mb: usize,
    l2_cache_size_mb: usize,
    prefetch_distance: u32,
    h: Host,
)
    ensures
        coherent(crate::scheduler::fresh(cache_size_mb, l2_cache_size_mb, prefetch_distance), h),
{
}

/// A slide switch keeps the caches in agreement with the packs.
pub proof fn lemma_switch_coherent(v: SchedulerView, slide: Option<u64>, active: u64, h: Host)
    requires
        coherent(v, h),
    ensures
        coherent(switched(v, slide, active), h),
{
}

/// A foreground fetch keeps the caches in agreement with the packs. A tile
/// that it returns is what the tile's file decodes to, and a compressed
/// tile that it gives out to be decoded is the tile's file.
pub proof fn lemma_fetch_coherent(
    v0: SchedulerView,
    c: TileCoord,
    v1: SchedulerView,
    r: TileFetch,
    h: Host,
)
    requires
        coherent(v0, h),
        fetched(v0, c, v1, r),
    ensures
        coherent(v1, h),
        r matches TileFetch::Ready(Some(t)) ==> file_shown(
            h,
            l2_key(v0.active_slide_id, c),
            t.parts(),
        ),
        r matches TileFetch::Decode(t) ==> file_held(h, l2_key(v0.active_slide_id, c), t.parts()),
{
    let k2 = l2_key(v0.active_slide_id, c);
    lemma_l1_shrunk(v0.l1.entries, v1.l1.entries, v0.active_slide_id, h);
    if v0.l1.entries.contains_key(c.store_key()) {
    } else if v0.active_slide_id != 0 {
        lemma_l2_shrunk(v0.l2.entries, v1.l2.entries, h);
    }
}

/// Handing over what the codec makes of a compressed tile that is the file
/// of tile `c` of the active slide keeps the caches in agreement with the
/// packs, and a tile that is returned is what the tile's file decodes to.
pub proof fn lemma_promote_coherent(
    v0: SchedulerView,
    c: TileCoord,
    given: (Seq<u8>, u32, u32),
    d: DecodedView,
    v1: SchedulerView,
    r: TileFetch,
    h: Host,
)
    requires
        coherent(v0, h),
        file_held(h, l2_key(v0.active_slide_id, c), given),
        d == (h.codec)(given.0),
        promoted(v0, c, d, v1, r),
    ensures
        coherent(v1, h),
        r matches TileFetch::Ready(Some(t)) ==> file_shown(
            h,
            l2_key(v0.active_slide_id, c),
            t.parts(),
        ),
{
    match decoded_parts(d) {
        Some(p) => {
            lemma_l1_put(v0.l1.entries, v1.l1.entries, v0.active_slide_id, c, p, h);
        },
        None => {},
    }
}

/// Handing what a faithful host got for a read to the foreground path keeps
/// the caches in agreement with the packs, and the tile that is returned is
/// what the tile's file decodes to.
pub proof fn lemma_load_coherent(
    v0: SchedulerView,
    c: TileCoord,
    read: TileResult<TileRead>,
    v1: SchedulerView,
    r: TileResult<TileData>,
    h: Host,
)
    requires
        coherent(v0, h),
        faithful(read, v0.active_slide_id, c, h),
        loaded_into_cache(v0, c, read, v1, r),
    ensures
        coherent(v1, h),
        r matches Ok(t) ==> file_shown(h, l2_key(v0.active_slide_id, c), t.parts()),
{
    let k2 = l2_key(v0.active_slide_id, c);
    match read {
        Err(_) => {},
        Ok(got) => match probed_parts(got.jpeg@) {
            None => {},
            Some(compressed) => {
                if v0.active_slide_id != 0 {
                    lemma_l2_put(v0.l2.entries, v1.l2.entries, k2, compressed, h);
                }
                match decoded_parts(got.decoded@) {
                    Some(p) => {
                        lemma_l1_put(v0.l1.entries, v1.l1.entries, v0.active_slide_id, c, p, h);
                    },
                    None => {},
                }
            },
        },
    }
}

/// The first step of a prefetch keeps the caches in agreement with the
/// packs. A tile that it returns is what the tile's file decodes to, and a
/// compressed tile that it gives out to be decoded is the tile's file.
pub proof fn lemma_prefetch_start_coherent(
    v0: SchedulerView,
    c: TileCoord,
    tile_ref: PackTileRef,
    batch: u64,
    v1: SchedulerView,
    r: PrefetchStep,
    h: Host,
)
    requires
        coherent(v0, h),
        prefetch_started(v0, c, tile_ref, batch, v1, r),
    ensures
        coherent(v1, h),
        r matches PrefetchStep::Done(Some(t)) ==> file_shown(
            h,
            l2_key(v0.active_slide_id, c),
            t.parts(),
        ),
        r matches PrefetchStep::Decode(t) ==> file_held(
            h,
            l2_key(v0.active_slide_id, c),
            t.parts(),
        ),
{
    if v0.generation != batch {
    } else {
        lemma_l1_shrunk(v0.l1.entries, v1.l1.entries, v0.active_slide_id, h);
        if v0.l1.entries.contains_key(c.store_key()) {
        } else if v0.active_slide_id != 0 {
            lemma_l2_shrunk(v0.l2.entries, v1.l2.entries, h);
        }
    }
}

/// Handing over, on behalf of a prefetch, what the codec makes of a
/// compressed tile that is the file of tile `c` of the active slide keeps
/// the caches in agreement with the packs, and a tile that is returned is
/// what the tile's file decodes to.
pub proof fn lemma_prefetch_promote_coherent(
    v0: SchedulerView,
    c: TileCoord,
    tile_ref: PackTileRef,
    batch: u64,
    given: (Seq<u8>, u32, u32),
    d: DecodedView,
    v1: SchedulerView,
    r: PrefetchStep,
    h: Host,
)
    requires
        coherent(v0, h),
        v0.generation == batch ==> file_held(h, l2_key(v0.active_slide_id, c), given),
        d == (h.codec)(given.0),
        prefetch_promoted(v0, c, tile_ref, batch, d, v1, r),
    ensures
        coherent(v1, h),
        r matches PrefetchStep::Done(Some(t)) ==> file_shown(
            h,
            l2_key(v0.active_slide_id, c),
            t.parts(),
        ),
{
    if v0.generation == batch {
        match decoded_parts(d) {
            Some(p) => {
                lemma_l1_put(v0.l1.entries, v1.l1.entries, v0.active_slide_id, c, p, h);
            },
            None => {},
        }
    }
}

/// Handing what a faithful host got for a read to the last step of a
/// prefetch keeps the caches in agreement with the packs, whether or not the
/// slide was switched in between, and a tile that is returned is what the
/// tile's file decodes to.
pub proof fn lemma_prefetch_finish_coherent(
    v0: SchedulerView,
    c: TileCoord,
    slide_id: u64,
    batch: u64,
    read: TileResult<TileRead>,
    v1: SchedulerView,
    r: TileResult<Option<TileData>>,
    h: Host,
)
    requires
        coherent(v0, h),
        faithful(read, slide_id, c, h),
        prefetch_finished(v0, c, slide_id, batch, read, v1, r),
        v0.generation == batch ==> v0.active_slide_id == slide_id,
    ensures
        coherent(v1, h),
        r matches Ok(Some(t)) ==> file_shown(h, l2_key(slide_id, c), t.parts()),
{
    let k2 = l2_key(slide_id, c);
    match read {
        Err(_) => {},
        Ok(got) => match probed_parts(got.jpeg@) {
            None => {},
            Some(compressed) => {
                if slide_id != 0 && v0.active_slide_id == slide_id {
                    lemma_l2_put(v0.l2.entries, v1.l2.entries, k2, compressed, h);
                }
                if v0.generation == batch && decoded_parts(got.decoded@) is Some {
                    lemma_l1_put(
                        v0.l1.entries,
                        v1.l1.entries,
                        v0.active_slide_id,
                        c,
                        decoded_parts(got.decoded@).unwrap(),
                        h,
                    );
                } else {
                    assert(v1.l1 == v0.l1);
                }
            },
        },
    }
}

/// Putting a faithful read of the bulk preload into the compressed cache
/// keeps the caches in agreement with the packs.
pub proof fn lemma_bulk_store_coherent(
    v0: SchedulerView,
    coord: SlideTileCoord,
    read: TileResult<Vec<u8>>,
    v1: SchedulerView,
    ok: bool,
    h: Host,
)
    requires
        coherent(v0, h),
        faithful_bytes(read, coord.store_key(), h),
        stored_read(v0.l2, coord, read, v1.l2, ok),
        v1.l1 == v0.l1,
        v1.active_slide_id == v0.active_slide_id,
    ensures
        coherent(v1, h),
{
    match read {
        Err(_) => {},
        Ok(jpeg) => match probed_parts(jpeg@) {
            None => {},
            Some(compressed) => {
                if coord.slide_id != 0 {
                    lemma_l2_put(v0.l2.entries, v1.l2.entries, coord.store_key(), compressed, h);
                }
            },
        },
    }
}

/// A fetch of a compressed tile keeps the caches in agreement with the
/// packs, and a tile that it returns is the tile's file.
pub proof fn lemma_jpeg_fetch_coherent(
    v0: SchedulerView,
    c: TileCoord,
    v1: SchedulerView,
    r: JpegFetch,
    h: Host,
)
    requires
        coherent(v0, h),
        jpeg_fetched(v0, c, v1, r),
    ensures
        coherent(v1, h),
        r matches JpegFetch::Ready(Some(t)) ==> file_held(
            h,
            l2_key(v0.active_slide_id, c),
            t.parts(),
        ),
{
    let k2 = l2_key(v0.active_slide_id, c);
    if v0.active_slide_id != 0 {
        lemma_l2_shrunk(v0.l2.entries, v1.l2.entries, h);
        if v0.l2.entries.contains_key(k2) {
            assert(file_held(h, k2, v0.l2.entries[k2]));
        }
    }
}

/// Handing a faithful read to the fetch of a compressed tile keeps the
/// caches in agreement with the packs, and the tile that is returned is the
/// tile's file.
pub proof fn lemma_jpeg_load_coherent(
    v0: SchedulerView,
    c: TileCoord,
    read: TileResult<Vec<u8>>,
    v1: SchedulerView,
    r: TileResult<CompressedTileData>,
    h: Host,
)
    requires
        coherent(v0, h),
        faithful_bytes(read, l2_key(v0.active_slide_id, c), h),
        jpeg_loaded(v0, c, read, v1, r),
    ensures
        coherent(v1, h),
        r matches Ok(t) ==> file_held(h, l2_key(v0.active_slide_id, c), t.parts()),
{
    let k2 = l2_key(v0.active_slide_id, c);
    match read {
        Err(_) => {},
        Ok(jpeg) => match probed_parts(jpeg@) {
            None => {},
            Some(compressed) => {
                if v0.active_slide_id != 0 {
                    lemma_l2_put(v0.l2.entries, v1.l2.entries, k2, compressed, h);
                }
            },
        },
    }
}

/// The steps of one foreground fetch of tile `c` by a faithful host, from
/// the state `v0`: `get_tile` answers `first`; where that gives a compressed
/// tile out, the host decodes it and `promote_decoded` answers `second`;
/// where the answer so far asks for a read, the host reads and decodes, the
/// read succeeds, and `load_tile_into_cache` answers `loaded`.
pub open spec fn fetch_steps(
    h: Host,
    v0: SchedulerView,
    c: TileCoord,
    v1: SchedulerView,
    first: TileFetch,
    v2: SchedulerView,
    second: TileFetch,
    read: TileResult<TileRead>,
    v3: SchedulerView,
    loaded: TileResult<TileData>,
) -> bool {
    &&& fetched(v0, c, v1, first)
    &&& match first {
        TileFetch::Decode(t) => promoted(v1, c, (h.codec)(t.parts().0), v2, second),
        _ => v2 == v1 && second == first,
    }
    &&& second is Read ==> read is Ok && faithful(read, v0.active_slide_id, c, h)
        && loaded_into_cache(v2, c, read, v3, loaded)
}

/// The pixels that the steps of a fetch gave the caller, if they gave any.
pub open spec fn fetch_answer(second: TileFetch, loaded: TileResult<TileData>) -> Option<
    (Seq<u8>, u32, u32),
> {
    match second {
        TileFetch::Ready(Some(t)) => Some(t.parts()),
        TileFetch::Ready(None) => None,
        TileFetch::Decode(_) => None,
        TileFetch::Read(_) => match loaded {
            Ok(t) => Some(t.parts()),
            Err(_) => None,
        },
    }
}

/// Fetching a tile is idempotent: while the caches agree with the packs,
/// two fetches of the same tile of the same slide that both find the tile
/// in the decoded cache return the same pixels, whatever was evicted in
/// between.
pub proof fn lemma_get_tile_idempotent(
    v0: SchedulerView,
    c: TileCoord,
    v1: SchedulerView,
    t1: TileData,
    w0: SchedulerView,
    w1: SchedulerView,
    t2: TileData,
    h: Host,
)
    requires
        coherent(v0, h),
        coherent(w0, h),
        w0.active_slide_id == v0.active_slide_id,
        fetched(v0, c, v1, TileFetch::Ready(Some(t1))),
        fetched(w0, c, w1, TileFetch::Ready(Some(t2))),
    ensures
        t1.parts() == t2.parts(),
{
    lemma_fetch_coherent(v0, c, v1, TileFetch::Ready(Some(t1)), h);
    lemma_fetch_coherent(w0, c, w1, TileFetch::Ready(Some(t2)), h);
}

/// What the host's files and codec give for tile `k`: the pixels, or `None`
/// where the tile has no file, the header of the file cannot be read, or
/// the codec gives no tile.
pub open spec fn file_pixels(h: Host, k: StoreKey) -> Option<(Seq<u8>, u32, u32)> {
    match (h.files)(k) {
        Some(jpeg) => if probed_parts(jpeg) is Some {
            decoded_parts((h.codec)(jpeg))
        } else {
            None
        },
        None => None,
    }
}

/// A fetch gives what the host's files and codec give for the tile. While
/// the caches agree with the packs and the pack of the current slide holds
/// the tile if and only if the tile has a file, the pixels that the steps of
/// a fetch by a faithful host give the caller are those that the tile's file
/// decodes to, and none where it decodes to none: the answer does not
/// depend on what the caches hold.
pub proof fn lemma_fetch_answer(
    h: Host,
    v0: SchedulerView,
    c: TileCoord,
    v1: SchedulerView,
    first: TileFetch,
    v2: SchedulerView,
    second: TileFetch,
    read: TileResult<TileRead>,
    v3: SchedulerView,
    loaded: TileResult<TileData>,
)
    requires
        coherent(v0, h),
        v0.tile_ref(c) is Some <==> (h.files)(l2_key(v0.active_slide_id, c)) is Some,
        fetch_steps(h, v0, c, v1, first, v2, second, read, v3, loaded),
    ensures
        fetch_answer(second, loaded) == file_pixels(h, l2_key(v0.active_slide_id, c)),
{
    lemma_fetch_coherent(v0, c, v1, first, h);
    match first {
        TileFetch::Decode(t) => {
            lemma_promote_coherent(v1, c, t.parts(), (h.codec)(t.parts().0), v2, second, h);
        },
        _ => {},
    }
    if second is Read {
        lemma_load_coherent(v2, c, read, v3, loaded, h);
    }
}

/// Fetching a tile is idempotent in what it gives: two fetches of the same
/// tile of the same slide by a faithful host give the caller the same
/// pixels, or both give none, whichever cache or pack each is served from
/// and whatever was evicted in between. This holds while the caches agree
/// with the packs and the pack of the current slide holds the tile if and
/// only if the tile has a file.
pub proof fn lemma_get_tile_repeats(
    h: Host,
    c: TileCoord,
    v0: SchedulerView,
    v1: SchedulerView,
    first: TileFetch,
    v2: SchedulerView,
    second: TileFetch,
    read: TileResult<TileRead>,
    v3: SchedulerView,
    loaded: TileResult<TileData>,
    w0: SchedulerView,
    w1: SchedulerView,
    again: TileFetch,
    w2: SchedulerView,
    then: TileFetch,
    reread: TileResult<TileRead>,
    w3: SchedulerView,
    reloaded: TileResult<TileData>,
)
    requires
        coherent(v0, h),
        coherent(w0, h),
        w0.active_slide_id == v0.active_slide_id,
        v0.tile_ref(c) is Some <==> (h.files)(l2_key(v0.active_slide_id, c)) is Some,
        w0.tile_ref(c) is Some <==> (h.files)(l2_key(w0.active_slide_id, c)) is Some,
        fetch_steps(h, v0, c, v1, first, v2, second, read, v3, loaded),
        fetch_steps(h, w0, c, w1, again, w2, then, reread, w3, reloaded),
    ensures
        fetch_answer(then, reloaded) == fetch_answer(second, loaded),
{
    lemma_fetch_answer(h, v0, c, v1, first, v2, second, read, v3, loaded);
    lemma_fetch_answer(h, w0, c, w1, again, w2, then, reread, w3, reloaded);
}

/// A tile that the packs lack is not to be had: while the caches agree with
/// the packs, a fetch of a tile that has no file and no place in the pack of
/// the current slide answers that there is none. It asks for no read and no
/// decoding, and puts nothing into the caches.
pub proof fn lemma_missing_tile(
    v0: SchedulerView,
    c: TileCoord,
    v1: SchedulerView,
    r: TileFetch,
    h: Host,
)
    requires
        coherent(v0, h),
        (h.files)(l2_key(v0.active_slide_id, c)) is None,
        v0.tile_ref(c) is None,
        fetched(v0, c, v1, r),
    ensures
        r == TileFetch::Ready(None),
        v1.l1.entries.submap_of(v0.l1.entries),
        v1.l2.entries.submap_of(v0.l2.entries),
{
    let k2 = l2_key(v0.active_slide_id, c);
    if v0.l1.entries.contains_key(c.store_key()) {
        assert(file_shown(h, k2, v0.l1.entries[c.store_key()]));
    }
    if v0.l2.entries.contains_key(k2) {
        assert(file_held(h, k2, v0.l2.entries[k2]));
    }
}

} // verus!
