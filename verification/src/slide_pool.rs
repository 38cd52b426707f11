//! Slides that were opened once and are kept for the lifetime of the pool.

use std::collections::HashMap;
use vstd::prelude::*;

use crate::error::{TileError, TileResult};
use crate::format::{metadata_refusal, sorted_levels, SlideMetadata};
use crate::pack::{open_refusal, sorted_indexes, LevelSource, TilePack};

verus! {

broadcast use vstd::std_specs::hash::group_hash_axioms;

/// What the host read of a slide: its description as it stands in the
/// metadata file, and the index of each level.
#[derive(Debug)]
pub struct SlideSource {
    pub metadata: SlideMetadata,
    pub levels: Vec<LevelSource>,
}

/// Cached slide state: validated metadata and the tile container.
#[derive(Debug)]
pub struct SlideEntry {
    pub metadata: SlideMetadata,
    pub pack: TilePack,
}

/// The message with which a slide is refused, or `None` where it is
/// accepted: the description is checked first, then the container.
pub open spec fn slide_refusal(source: SlideSource) -> Option<Seq<char>> {
    let m = source.metadata;
    if metadata_refusal(m.dimensions, m.tile_size, m.levels@) is Some {
        metadata_refusal(m.dimensions, m.tile_size, m.levels@)
    } else {
        open_refusal(source.levels@)
    }
}

/// `entry` is what `source` describes: the same description with its levels
/// sorted, and the indexes of the levels sorted likewise.
pub open spec fn entry_of(entry: SlideEntry, source: SlideSource) -> bool {
    &&& entry.metadata.valid()
    &&& entry.metadata.dimensions == source.metadata.dimensions
    &&& entry.metadata.tile_size == source.metadata.tile_size
    &&& entry.metadata.levels@ == sorted_levels(source.metadata.levels@)
    &&& entry.metadata.target_mpp_bits == source.metadata.target_mpp_bits
    &&& entry.metadata.target_magnification_bits == source.metadata.target_magnification_bits
    &&& entry.pack@ == sorted_indexes(source.levels@)
}

/// What taking in the outcome of a read does to a pool: a slide that was
/// read and is valid is added under its identifier, anything else is
/// reported and leaves the pool as it was.
pub open spec fn accepted(
    before: Map<u64, SlideEntry>,
    slide_id: u64,
    read: TileResult<SlideSource>,
    after: Map<u64, SlideEntry>,
    r: TileResult<()>,
) -> bool {
    match read {
        Err(e) => r == Err::<(), TileError>(e) && after == before,
        Ok(source) => match r {
            Ok(_) => slide_refusal(source) is None && after.dom() == before.dom().insert(slide_id)
                && entry_of(after[slide_id], source) && forall|k: u64|
                k != slide_id && before.contains_key(k) ==> after[k] == #[trigger] before[k],
            Err(e) => after == before && (e matches TileError::Validation(m) && slide_refusal(
                source,
            ) == Some(m@)),
        },
    }
}

impl SlideEntry {
    /// Validates what was read of a slide and builds its entry.
    pub fn open(source: SlideSource) -> (r: TileResult<SlideEntry>)
        ensures
            match r {
                Ok(entry) => slide_refusal(source) is None && entry_of(entry, source),
                Err(e) => e matches TileError::Validation(m) && slide_refusal(source) == Some(m@),
            },
    {
        let SlideSource { metadata, levels } = source;
        let mut metadata = metadata;
        match metadata.validate() {
            Ok(_) => {},
            Err(e) => {
                return Err(e);
            },
        }
        match TilePack::open(&levels) {
            Ok(pack) => Ok(SlideEntry { metadata, pack }),
            Err(e) => Err(e),
        }
    }
}

/// Pool of opened slides, keyed by slide identifier. Entries are never
/// removed.
pub struct SlidePool {
    entries: HashMap<u64, SlideEntry>,
}

impl View for SlidePool {
    type V = Map<u64, SlideEntry>;

    closed spec fn view(&self) -> Map<u64, SlideEntry> {
        self.entries@
    }
}

impl SlidePool {
    pub fn new() -> (p: SlidePool)
        ensures
            p@ == Map::<u64, SlideEntry>::empty(),
    {
        SlidePool { entries: HashMap::new() }
    }

    /// Whether the pool holds the slide.
    pub fn contains(&self, slide_id: u64) -> (b: bool)
        ensures
            b == self@.contains_key(slide_id),
    {
        self.entries.contains_key(&slide_id)
    }

    /// The entry of a slide that the pool holds.
    pub fn get(&self, slide_id: u64) -> (e: Option<&SlideEntry>)
        ensures
            match e {
                Some(entry) => self@.contains_key(slide_id) && *entry == self@[slide_id],
                None => !self@.contains_key(slide_id),
            },
    {
        self.entries.get(&slide_id)
    }

    /// Adds a slide from the outcome of reading it.
    pub fn accept(&mut self, slide_id: u64, read: TileResult<SlideSource>) -> (r: TileResult<()>)
        ensures
            accepted(old(self)@, slide_id, read, final(self)@, r),
    {
        let source = match read {
            Ok(s) => s,
            Err(e) => {
                return Err(e);
            },
        };
        match SlideEntry::open(source) {
            Ok(entry) => {
                self.entries.insert(slide_id, entry);
                assert(self@.dom() =~= old(self)@.dom().insert(slide_id));
                Ok(())
            },
            Err(e) => Err(e),
        }
    }

    /// Get a cached entry or load it. `load` reads the slide and is called
    /// only where the pool does not hold it; afterwards the entry can be had
    /// with `get`.
    pub fn load_or_get<F: FnOnce() -> TileResult<SlideSource>>(&mut self, slide_id: u64, load: F) -> (r:
        TileResult<()>)
        requires
            call_requires(load, ()),
        ensures
            old(self)@.contains_key(slide_id) ==> r is Ok && final(self)@ == old(self)@,
            !old(self)@.contains_key(slide_id) ==> exists|read: TileResult<SlideSource>|
                call_ensures(load, (), read) && #[trigger] accepted(
                    old(self)@,
                    slide_id,
                    read,
                    final(self)@,
                    r,
                ),
    {
        if self.entries.contains_key(&slide_id) {
            return Ok(());
        }
        let read = load();
        self.accept(slide_id, read)
    }

    /// Number of cached entries.
    pub fn len(&self) -> (n: usize)
        ensures
            n == self@.len(),
    {
        self.entries.len()
    }
}

impl Default for SlidePool {
    fn default() -> (p: SlidePool)
        ensures
            p@ == Map::<u64, SlideEntry>::empty(),
    {
        SlidePool::new()
    }
}

} // verus!
