//! The description of a slide's pyramid and the layout of its directory.

use vstd::prelude::*;
use vstd::string::*;

use crate::error::{TileError, TileResult};
use crate::order::{key_fn, lemma_no_repeat, lemma_stable_sort, lemma_stable_sort_keeps};
use crate::order::sort_by_key;
use crate::order::{stable_sort, strictly_ascending, Keyed};
use crate::text::{decimal, push_decimal};

verus! {

/// Information about a pyramid level.
#[derive(Debug, Clone, Copy, PartialEq, Eq)]
pub struct LevelInfo {
    pub level: u32,
    pub downsample: u32,
    pub cols: u32,
    pub rows: u32,
}

impl Keyed for LevelInfo {
    open spec fn key(&self) -> u32 {
        self.level
    }

    fn sort_key(&self) -> (k: u32) {
        self.level
    }
}

/// The description of a slide. The two targets are carried as the bit
/// patterns of IEEE 754 doubles; nothing here reads them.
#[derive(Debug)]
pub struct SlideMetadata {
    pub dimensions: (u32, u32),
    pub tile_size: u32,
    pub levels: Vec<LevelInfo>,
    pub target_mpp_bits: u64,
    pub target_magnification_bits: u64,
}

/// The level numbers of `levels`, in their order.
pub open spec fn level_numbers(levels: Seq<LevelInfo>) -> Seq<u32> {
    levels.map_values(key_fn::<LevelInfo>())
}

/// `levels` sorted by level number, equal numbers in the order they came in.
pub open spec fn sorted_levels(levels: Seq<LevelInfo>) -> Seq<LevelInfo> {
    stable_sort(levels, key_fn::<LevelInfo>())
}

/// The message for a field of a level that must be positive.
pub open spec fn positive_message(level: u32, field: Seq<char>) -> Seq<char> {
    "level "@ + decimal(level as nat) + ": "@ + field + " must be positive"@
}

/// Why the `i`-th of the sorted `levels` is refused, or `None` where it is
/// accepted: downsample, columns and rows must be positive, and the level
/// number must differ from the one before.
pub open spec fn level_refusal(levels: Seq<LevelInfo>, i: int) -> Option<Seq<char>> {
    let li = levels[i];
    if li.downsample == 0 {
        Some(positive_message(li.level, "downsample"@))
    } else if li.cols == 0 {
        Some(positive_message(li.level, "cols"@))
    } else if li.rows == 0 {
        Some(positive_message(li.level, "rows"@))
    } else if i > 0 && li.level == levels[i - 1].level {
        Some("duplicate level number: "@ + decimal(li.level as nat))
    } else {
        None
    }
}

/// A fault that is found before the levels are looked at.
pub open spec fn early_refusal(dimensions: (u32, u32), tile_size: u32, levels: Seq<LevelInfo>) -> Option<
    Seq<char>,
> {
    if dimensions.0 == 0 || dimensions.1 == 0 {
        Some("dimensions must be positive"@)
    } else if tile_size == 0 {
        Some("tile_size must be positive"@)
    } else if levels.len() == 0 {
        Some("levels must not be empty"@)
    } else {
        None
    }
}

/// The message with which a description is refused, or `None` where it is
/// valid. Of several faults the first is reported: dimensions, tile size,
/// the lack of levels, and then the levels in ascending order of number.
pub open spec fn metadata_refusal(dimensions: (u32, u32), tile_size: u32, levels: Seq<LevelInfo>) -> Option<
    Seq<char>,
> {
    let sorted = sorted_levels(levels);
    if early_refusal(dimensions, tile_size, levels) is Some {
        early_refusal(dimensions, tile_size, levels)
    } else if exists|i: int| 0 <= i < sorted.len() && #[trigger] level_refusal(sorted, i) is Some {
        let i = choose|i: int|
            0 <= i < sorted.len() && #[trigger] level_refusal(sorted, i) is Some && forall|j: int|
                0 <= j < i ==> #[trigger] level_refusal(sorted, j) is None;
        Some(level_refusal(sorted, i).unwrap())
    } else {
        None
    }
}

/// The first of `levels` with the number `level`.
pub open spec fn find_info(levels: Seq<LevelInfo>, level: u32) -> Option<LevelInfo>
    decreases levels.len(),
{
    if levels.len() == 0 {
        None
    } else if levels[0].level == level {
        Some(levels[0])
    } else {
        find_info(levels.drop_first(), level)
    }
}

proof fn lemma_first_level_refusal(sorted: Seq<LevelInfo>, k: int)
    requires
        0 <= k < sorted.len(),
        level_refusal(sorted, k) is Some,
        forall|j: int| 0 <= j < k ==> #[trigger] level_refusal(sorted, j) is None,
    ensures
        (choose|i: int|
            0 <= i < sorted.len() && #[trigger] level_refusal(sorted, i) is Some && forall|j: int|
                0 <= j < i ==> #[trigger] level_refusal(sorted, j) is None) == k,
{
    let i = choose|i: int|
        0 <= i < sorted.len() && #[trigger] level_refusal(sorted, i) is Some && forall|j: int|
            0 <= j < i ==> #[trigger] level_refusal(sorted, j) is None;
    if i < k {
        assert(level_refusal(sorted, i) is None);
    }
    if k < i {
        assert(level_refusal(sorted, k) is None);
    }
}

fn positive_error(level: u32, field: &str) -> (e: TileError)
    ensures
        e matches TileError::Validation(m) && m@ == positive_message(level, field@),
{
    let mut s = String::from_str("level ");
    push_decimal(&mut s, level as u64);
    s.append(": ");
    s.append(field);
    s.append(" must be positive");
    TileError::Validation(s)
}

impl SlideMetadata {
    /// The description is valid: positive dimensions and tile size, at least
    /// one level, every level with positive downsample, columns and rows, and
    /// the levels in strictly ascending order of their numbers.
    pub open spec fn valid(&self) -> bool {
        &&& self.dimensions.0 >= 1 && self.dimensions.1 >= 1
        &&& self.tile_size >= 1
        &&& self.levels@.len() >= 1
        &&& forall|i: int|
            0 <= i < self.levels@.len() ==> (#[trigger] self.levels@[i]).downsample >= 1
                && self.levels@[i].cols >= 1 && self.levels@[i].rows >= 1
        &&& strictly_ascending(level_numbers(self.levels@))
    }

    /// Validates the fields and sorts the levels by level number. Nothing
    /// but the order of the levels changes, and that only where the fault, if
    /// any, lies in a level.
    pub fn validate(&mut self) -> (r: TileResult<()>)
        ensures
            final(self).dimensions == old(self).dimensions,
            final(self).tile_size == old(self).tile_size,
            final(self).target_mpp_bits == old(self).target_mpp_bits,
            final(self).target_magnification_bits == old(self).target_magnification_bits,
            final(self).levels@ == if early_refusal(
                old(self).dimensions,
                old(self).tile_size,
                old(self).levels@,
            ) is Some {
                old(self).levels@
            } else {
                sorted_levels(old(self).levels@)
            },
            match r {
                Ok(_) => metadata_refusal(
                    old(self).dimensions,
                    old(self).tile_size,
                    old(self).levels@,
                ) is None && final(self).valid(),
                Err(e) => e matches TileError::Validation(m) && metadata_refusal(
                    old(self).dimensions,
                    old(self).tile_size,
                    old(self).levels@,
                ) == Some(m@),
            },
    {
        if self.dimensions.0 == 0 || self.dimensions.1 == 0 {
            return Err(TileError::Validation(String::from_str("dimensions must be positive")));
        }
        if self.tile_size == 0 {
            return Err(TileError::Validation(String::from_str("tile_size must be positive")));
        }
        if self.levels.len() == 0 {
            return Err(TileError::Validation(String::from_str("levels must not be empty")));
        }
        let sorted = sort_by_key(&self.levels);
        proof {
            lemma_stable_sort(old(self).levels@, key_fn::<LevelInfo>());
        }
        self.levels = sorted;
        let ghost all = self.levels@;
        let mut i: usize = 0;
        while i < self.levels.len()
            invariant
                i <= self.levels.len(),
                self.levels@ == all,
                all == sorted_levels(old(self).levels@),
                self.dimensions == old(self).dimensions,
                self.tile_size == old(self).tile_size,
                self.target_mpp_bits == old(self).target_mpp_bits,
                self.target_magnification_bits == old(self).target_magnification_bits,
                early_refusal(old(self).dimensions, old(self).tile_size, old(self).levels@) is None,
                forall|j: int| 0 <= j < i ==> #[trigger] level_refusal(all, j) is None,
            decreases self.levels.len() - i,
        {
            let li = self.levels[i];
            if li.downsample == 0 {
                proof {
                    lemma_first_level_refusal(all, i as int);
                }
                return Err(positive_error(li.level, "downsample"));
            }
            if li.cols == 0 {
                proof {
                    lemma_first_level_refusal(all, i as int);
                }
                return Err(positive_error(li.level, "cols"));
            }
            if li.rows == 0 {
                proof {
                    lemma_first_level_refusal(all, i as int);
                }
                return Err(positive_error(li.level, "rows"));
            }
            if i > 0 && li.level == self.levels[i - 1].level {
                proof {
                    lemma_first_level_refusal(all, i as int);
                }
                let mut s = String::from_str("duplicate level number: ");
                push_decimal(&mut s, li.level as u64);
                return Err(TileError::Validation(s));
            }
            i += 1;
        }
        proof {
            let numbers = level_numbers(all);
            assert forall|k: int| 0 < k < numbers.len() implies numbers[k - 1]
                != #[trigger] numbers[k] by {
                assert(level_refusal(all, k) is None);
            }
            lemma_no_repeat(numbers);
            assert forall|k: int| 0 <= k < all.len() implies (#[trigger] all[k]).downsample >= 1
                && all[k].cols >= 1 && all[k].rows >= 1 by {
                assert(level_refusal(all, k) is None);
            }
        }
        Ok(())
    }

    /// Get level info by level number.
    pub fn get_level(&self, level: u32) -> (r: Option<&LevelInfo>)
        ensures
            match r {
                Some(l) => find_info(self.levels@, level) == Some(*l),
                None => find_info(self.levels@, level) is None,
            },
    {
        let ghost all = self.levels@;
        let mut i: usize = 0;
        assert(all.skip(0) =~= all);
        while i < self.levels.len()
            invariant
                i <= self.levels.len(),
                all == self.levels@,
                find_info(all, level) == find_info(all.skip(i as int), level),
            decreases self.levels.len() - i,
        {
            proof {
                let tail = all.skip(i as int);
                assert(tail[0] == all[i as int]);
                assert(tail.drop_first() =~= all.skip(i + 1));
            }
            if self.levels[i].level == level {
                return Some(&self.levels[i]);
            }
            i += 1;
        }
        None
    }

    /// Get total number of levels.
    pub fn num_levels(&self) -> (n: usize)
        ensures
            n == self.levels@.len(),
    {
        self.levels.len()
    }
}

/// Among levels with strictly ascending numbers, each is found under its
/// number.
pub proof fn lemma_find_info(levels: Seq<LevelInfo>, i: int)
    requires
        0 <= i < levels.len(),
        strictly_ascending(level_numbers(levels)),
    ensures
        find_info(levels, levels[i].level) == Some(levels[i]),
    decreases levels.len(),
{
    if i == 0 {
    } else {
        let rest = levels.drop_first();
        assert(level_numbers(levels)[0] < level_numbers(levels)[i]);
        assert(rest[i - 1] == levels[i]);
        assert forall|a: int, b: int| 0 <= a < b < rest.len() implies level_numbers(rest)[a]
            < level_numbers(rest)[b] by {
            assert(level_numbers(levels)[a + 1] < level_numbers(levels)[b + 1]);
        }
        lemma_find_info(rest, i - 1);
    }
}

/// Validation loses no level: every level of a description that is
/// accepted is found under its number afterwards, unchanged.
pub proof fn lemma_validated_finds(
    dimensions: (u32, u32),
    tile_size: u32,
    levels: Seq<LevelInfo>,
    i: int,
)
    requires
        metadata_refusal(dimensions, tile_size, levels) is None,
        0 <= i < levels.len(),
    ensures
        find_info(sorted_levels(levels), levels[i].level) == Some(levels[i]),
{
    let sorted = sorted_levels(levels);
    let numbers = level_numbers(sorted);
    lemma_stable_sort(levels, key_fn::<LevelInfo>());
    assert forall|k: int| 0 < k < numbers.len() implies numbers[k - 1] != #[trigger] numbers[k] by {
        assert(level_refusal(sorted, k) is None);
    }
    lemma_no_repeat(numbers);
    lemma_stable_sort_keeps(levels, key_fn::<LevelInfo>(), i);
    let p = choose|p: int| 0 <= p < sorted.len() && sorted[p] == levels[i];
    lemma_find_info(sorted, p);
}

/// Resolves tile paths in the directory of a slide whose tiles lie in
/// single files: `tiles_files/<level>/<col>_<row>.jpg`.
#[derive(Debug, Clone)]
pub struct TilePathResolver {
    fastpath_dir: String,
}

/// The path of a tile file below the directory `dir`.
pub open spec fn tile_path_text(dir: Seq<char>, level: u32, col: u32, row: u32) -> Seq<char> {
    dir + "/tiles_files/"@ + decimal(level as nat) + "/"@ + decimal(col as nat) + "_"@ + decimal(
        row as nat,
    ) + ".jpg"@
}

impl TilePathResolver {
    /// The directory that the resolver works in.
    pub closed spec fn dir(&self) -> Seq<char> {
        self.fastpath_dir@
    }

    /// Create a new resolver for a slide directory.
    pub fn new(fastpath_dir: String) -> (r: TileResult<TilePathResolver>)
        ensures
            r matches Ok(res) && res.dir() == fastpath_dir@,
    {
        Ok(TilePathResolver { fastpath_dir })
    }

    /// Get the file path for a tile. The path is given whether or not the
    /// file exists; the reader reports a missing file.
    pub fn get_tile_path(&self, level: u32, col: u32, row: u32) -> (r: Option<String>)
        ensures
            r matches Some(p) && p@ == tile_path_text(self.dir(), level, col, row),
    {
        let mut p = self.fastpath_dir.clone();
        p.append("/tiles_files/");
        push_decimal(&mut p, level as u64);
        p.append("/");
        push_decimal(&mut p, col as u64);
        p.append("_");
        push_decimal(&mut p, row as u64);
        p.append(".jpg");
        Some(p)
    }
}

} // verus!
