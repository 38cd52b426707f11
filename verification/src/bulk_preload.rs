//! Background preloader for the compressed tile cache.
//!
//! The preloader goes through a list of slides in the order of their
//! priority. For each it plans which tiles to read, leaving out what the
//! cache holds already, and puts what the host read into the cache. Nothing
//! is decoded here; tiles are decoded when they are viewed. The host runs
//! the worker threads and polls `is_cancelled` between slides and before
//! every read.

use vstd::prelude::*;
use vstd::string::*;

use crate::cache::{l2_key, CacheKey, CacheView, CompressedTileCache};
use crate::cache::{SlideTileCoord, TileCoord, Weighted};
use crate::decoder::{probed_parts, read_jpeg_bytes};
use crate::error::TileResult;
use crate::format::LevelInfo;
use crate::pack::{tile_ref_of, LevelIndex, PackTileRef};
use crate::prefetch::{grid, grid_tiles};
use crate::slide_pool::SlideEntry;
use crate::store::StoreKey;
use crate::text::{decimal, push_decimal};

verus! {

/// What the preloader holds.
pub struct BulkView {
    /// The slides of the current run: identifier and directory of each.
    pub slides: Seq<(u64, Seq<char>)>,
    /// How many of them have been handed out.
    pub next: nat,
    /// Whether the run was cancelled.
    pub cancelled: bool,
    /// Whether a run is under way.
    pub running: bool,
    /// Tiles of the current slide that were put into the cache.
    pub loaded: usize,
    /// Tiles of the current slide that could not be read.
    pub failed: usize,
}

/// Background preloader that fills the compressed cache with tiles of
/// several slides.
#[derive(Debug)]
pub struct BulkPreloader {
    slides: Vec<(u64, String)>,
    next: usize,
    cancelled: bool,
    running: bool,
    loaded: usize,
    failed: usize,
}

/// The paths of `slides` as plain values.
pub open spec fn slides_view(slides: Seq<(u64, String)>) -> Seq<(u64, Seq<char>)> {
    Seq::new(slides.len(), |i: int| (slides[i].0, slides[i].1@))
}

impl View for BulkPreloader {
    type V = BulkView;

    closed spec fn view(&self) -> BulkView {
        BulkView {
            slides: slides_view(self.slides@),
            next: self.next as nat,
            cancelled: self.cancelled,
            running: self.running,
            loaded: self.loaded,
            failed: self.failed,
        }
    }
}

/// All tiles of `levels`, level by level in the order of the list, each
/// level row by row.
pub open spec fn all_coords(levels: Seq<LevelInfo>) -> Seq<TileCoord>
    decreases levels.len(),
{
    if levels.len() == 0 {
        Seq::empty()
    } else {
        all_coords(levels.drop_last()) + grid(
            levels.last().level,
            0,
            levels.last().cols as int,
            0,
            levels.last().rows as int,
        )
    }
}

/// The tiles among `coords` that are to be read for slide `slide_id`: those
/// that the cache does not hold and the pack does, each with its place in
/// the pack.
pub open spec fn plan_work(
    coords: Seq<TileCoord>,
    slide_id: u64,
    l2: Map<StoreKey, (Seq<u8>, u32, u32)>,
    pack: Seq<LevelIndex>,
) -> Seq<(SlideTileCoord, PackTileRef)>
    decreases coords.len(),
{
    if coords.len() == 0 {
        Seq::empty()
    } else {
        let c = coords.last();
        let init = plan_work(coords.drop_last(), slide_id, l2, pack);
        if l2.contains_key(l2_key(slide_id, c)) {
            init
        } else {
            match tile_ref_of(pack, c.level, c.col, c.row) {
                Some(r) => init.push(
                    (SlideTileCoord { slide_id, level: c.level, col: c.col, row: c.row }, r),
                ),
                None => init,
            }
        }
    }
}

/// How many of `coords` the cache holds already for slide `slide_id`.
pub open spec fn plan_skipped(
    coords: Seq<TileCoord>,
    slide_id: u64,
    l2: Map<StoreKey, (Seq<u8>, u32, u32)>,
) -> nat
    decreases coords.len(),
{
    if coords.len() == 0 {
        0
    } else if l2.contains_key(l2_key(slide_id, coords.last())) {
        plan_skipped(coords.drop_last(), slide_id, l2) + 1
    } else {
        plan_skipped(coords.drop_last(), slide_id, l2)
    }
}

/// The tiles to read for one slide, and how many were left out because the
/// cache holds them.
#[derive(Debug)]
pub struct SlidePlan {
    pub work: Vec<(SlideTileCoord, PackTileRef)>,
    pub skipped: usize,
}

/// The line that reports the preload of one slide.
pub open spec fn summary_text(name: Seq<char>, loaded: usize, failed: usize, skipped: usize) -> Seq<
    char,
> {
    "[BULK PRELOAD] "@ + name + ": "@ + decimal(loaded as nat) + " tiles loaded, "@ + decimal(
        failed as nat,
    ) + " failed, "@ + decimal(skipped as nat) + " skipped"@
}

/// The outcome of putting a read into the cache: bytes whose header can be
/// read go to the cache under `coord`; a failed read and an unreadable
/// header change nothing, and neither does a tile of slide 0, the identifier
/// that stands for no slide.
pub open spec fn stored_read(
    before: CacheView,
    coord: SlideTileCoord,
    read: TileResult<Vec<u8>>,
    after: CacheView,
    ok: bool,
) -> bool {
    match read {
        Err(_) => !ok && after == before,
        Ok(jpeg) => match probed_parts(jpeg@) {
            None => !ok && after == before,
            Some(compressed) => if coord.slide_id == 0 {
                !ok && after == before
            } else {
                ok && after.entries.submap_of(before.entries.insert(coord.store_key(), compressed))
                    && after.hits == before.hits && after.misses == before.misses
                    && after.capacity == before.capacity
            },
        },
    }
}

/// A counter one higher, at most the greatest value.
pub open spec fn one_more(n: usize) -> usize {
    if n == usize::MAX {
        n
    } else {
        (n + 1) as usize
    }
}

impl BulkPreloader {
    /// Create a new bulk preloader, which is not running.
    pub fn new() -> (p: BulkPreloader)
        ensures
            p@ == (BulkView {
                slides: Seq::empty(),
                next: 0,
                cancelled: false,
                running: false,
                loaded: 0,
                failed: 0,
            }),
    {
        let p = BulkPreloader {
            slides: Vec::new(),
            next: 0,
            cancelled: false,
            running: false,
            loaded: 0,
            failed: 0,
        };
        assert(p@.slides =~= Seq::empty());
        p
    }

    /// Start preloading `slides`, given in the order of their priority. A
    /// run that is under way is cancelled first. An empty list starts
    /// nothing.
    pub fn start(&mut self, slides: Vec<(u64, String)>)
        ensures
            final(self)@ == if slides@.len() == 0 {
                BulkView { cancelled: true, running: false, ..old(self)@ }
            } else {
                BulkView {
                    slides: slides_view(slides@),
                    next: 0,
                    cancelled: false,
                    running: true,
                    loaded: 0,
                    failed: 0,
                }
            },
    {
        self.cancel();
        if slides.len() == 0 {
            return ;
        }
        self.cancelled = false;
        self.slides = slides;
        self.next = 0;
        self.loaded = 0;
        self.failed = 0;
        self.running = true;
    }

    /// Cancel any running bulk preload. On return no run is under way.
    pub fn cancel(&mut self)
        ensures
            final(self)@ == (BulkView { cancelled: true, running: false, ..old(self)@ }),
    {
        self.cancelled = true;
        self.running = false;
    }

    /// Whether a bulk preload is currently running.
    pub fn is_running(&self) -> (b: bool)
        ensures
            b == self@.running,
    {
        self.running
    }

    /// Whether the run was cancelled. Workers ask before every read.
    pub fn is_cancelled(&self) -> (b: bool)
        ensures
            b == self@.cancelled,
    {
        self.cancelled
    }

    /// The slide to preload next, with its identifier and directory, or
    /// `None` when the run was cancelled or the list is through; the run is
    /// over then. The counters start again at zero for the slide.
    pub fn next_slide(&mut self) -> (s: Option<(u64, String)>)
        ensures
            match s {
                Some(slide) => {
                    &&& !old(self)@.cancelled
                    &&& old(self)@.next < old(self)@.slides.len()
                    &&& (slide.0, slide.1@) == old(self)@.slides[old(self)@.next as int]
                    &&& final(self)@ == (BulkView {
                        next: old(self)@.next + 1,
                        loaded: 0,
                        failed: 0,
                        ..old(self)@
                    })
                },
                None => {
                    &&& old(self)@.cancelled || old(self)@.next >= old(self)@.slides.len()
                    &&& final(self)@ == (BulkView { running: false, ..old(self)@ })
                },
            },
    {
        if self.cancelled || self.next >= self.slides.len() {
            self.running = false;
            return None;
        }
        let id = self.slides[self.next].0;
        let path = self.slides[self.next].1.clone();
        self.next = self.next + 1;
        self.loaded = 0;
        self.failed = 0;
        Some((id, path))
    }

    /// Plan the preload of one slide: enumerate all tiles across all
    /// levels, leave out those that the cache holds, and look up the others
    /// in the pack.
    pub fn plan_slide(&self, slide_id: u64, entry: &SlideEntry, l2_cache: &CompressedTileCache) -> (plan:
        SlidePlan)
        ensures
            plan.work@ == plan_work(
                all_coords(entry.metadata.levels@),
                slide_id,
                l2_cache@.entries,
                entry.pack@,
            ),
            plan.skipped == plan_skipped(
                all_coords(entry.metadata.levels@),
                slide_id,
                l2_cache@.entries,
            ),
    {
        let mut coords: Vec<TileCoord> = Vec::new();
        let mut i: usize = 0;
        let ghost levels = entry.metadata.levels@;
        assert(levels.take(0) =~= Seq::<LevelInfo>::empty());
        while i < entry.metadata.levels.len()
            invariant
                i <= entry.metadata.levels.len(),
                levels == entry.metadata.levels@,
                coords@ == all_coords(levels.take(i as int)),
            decreases entry.metadata.levels.len() - i,
        {
            let info = entry.metadata.levels[i];
            proof {
                let prefix = levels.take(i + 1);
                assert(prefix.drop_last() =~= levels.take(i as int));
                assert(prefix.last() == info);
            }
            let mut tiles = grid_tiles(info.level, 0, info.cols, 0, info.rows);
            coords.append(&mut tiles);
            i += 1;
        }
        assert(levels.take(i as int) =~= levels);
        let mut work: Vec<(SlideTileCoord, PackTileRef)> = Vec::new();
        let mut skipped: usize = 0;
        let mut k: usize = 0;
        assert(coords@.take(0) =~= Seq::<TileCoord>::empty());
        while k < coords.len()
            invariant
                k <= coords.len(),
                skipped <= k,
                work@ == plan_work(coords@.take(k as int), slide_id, l2_cache@.entries, entry.pack@),
                skipped == plan_skipped(coords@.take(k as int), slide_id, l2_cache@.entries),
            decreases coords.len() - k,
        {
            let c = coords[k];
            proof {
                let prefix = coords@.take(k + 1);
                assert(prefix.drop_last() =~= coords@.take(k as int));
                assert(prefix.last() == c);
            }
            let l2_coord = SlideTileCoord::new(slide_id, c.level, c.col, c.row);
            if l2_cache.contains(&l2_coord) {
                skipped = skipped + 1;
            } else {
                match entry.pack.tile_ref(c.level, c.col, c.row) {
                    Some(r) => {
                        work.push((l2_coord, r));
                    },
                    None => {},
                }
            }
            k += 1;
        }
        assert(coords@.take(k as int) =~= coords@);
        SlidePlan { work, skipped }
    }

    /// Take the outcome of reading one tile: put its bytes into the cache
    /// and count it as loaded, or count it as failed.
    pub fn store_tile(
        &mut self,
        l2_cache: &mut CompressedTileCache,
        coord: SlideTileCoord,
        read: TileResult<Vec<u8>>,
    ) -> (ok: bool)
        ensures
            stored_read(old(l2_cache)@, coord, read, final(l2_cache)@, ok),
            final(self)@ == if ok {
                BulkView { loaded: one_more(old(self)@.loaded), ..old(self)@ }
            } else {
                BulkView { failed: one_more(old(self)@.failed), ..old(self)@ }
            },
    {
        let compressed = match read {
            Ok(jpeg) => read_jpeg_bytes(Ok(jpeg)),
            Err(e) => Err(e),
        };
        let ok = match compressed {
            Ok(c) => {
                if coord.slide_id != 0 {
                    l2_cache.insert(coord, c);
                    true
                } else {
                    false
                }
            },
            Err(_) => false,
        };
        if ok {
            if self.loaded < usize::MAX {
                self.loaded = self.loaded + 1;
            }
        } else {
            if self.failed < usize::MAX {
                self.failed = self.failed + 1;
            }
        }
        ok
    }

    /// The line that reports the preload of the slide `name`, of which
    /// `skipped` tiles were left out.
    pub fn summary(&self, name: &str, skipped: usize) -> (s: String)
        ensures
            s@ == summary_text(name@, self@.loaded, self@.failed, skipped),
    {
        let mut s = String::from_str("[BULK PRELOAD] ");
        s.append(name);
        s.append(": ");
        push_decimal(&mut s, self.loaded as u64);
        s.append(" tiles loaded, ");
        push_decimal(&mut s, self.failed as u64);
        s.append(" failed, ");
        push_decimal(&mut s, skipped as u64);
        s.append(" skipped");
        s
    }
}

} // verus!
