//! The packed tile container: one index and one pack of tile bytes per
//! pyramid level.
//!
//! An index is a 16-byte header (magic, version, columns, rows) followed by
//! one 12-byte entry per grid cell in row-major order. An entry gives the
//! offset and length of the tile's bytes in the pack; length zero marks a
//! cell without a tile.

use vstd::prelude::*;
use vstd::string::*;

use crate::codec::{le_u16, le_u32, le_u64, read_u16_le, read_u32_le, read_u64_le};
use crate::codec::{lemma_le_u16_bound, lemma_le_u32_bound, lemma_le_u64_bound};
use crate::buffer::{share, shared_bytes};
use crate::error::{TileError, TileResult};
use crate::order::{first_repeat, insert_sorted, keys_of, rank, stable_insert, stable_sort, Keyed};
use crate::order::{lemma_first_repeat, lemma_no_repeat, lemma_rank, lemma_stable_sort};
use crate::order::{lemma_stable_sort_keeps, strictly_ascending};
use crate::text::{decimal, has_prefix, has_suffix, parse_u32, parsed_u32, push_decimal};

verus! {

/// The version of the index layout that this crate reads and writes.
pub const LEVEL_VERSION: u32 = 1;

/// Bytes in an index header.
pub const LEVEL_HEADER_SIZE: usize = 16;

/// Bytes in one index entry.
pub const LEVEL_ENTRY_SIZE: usize = 12;

/// The eight bytes every index starts with: `FPLIDX1` and a zero byte.
pub open spec fn level_magic() -> Seq<u8> {
    seq![70u8, 80u8, 76u8, 73u8, 68u8, 88u8, 49u8, 0u8]
}

/// Where one tile's bytes lie in the pack.
#[derive(Clone, Copy, Debug, PartialEq, Eq)]
pub struct TileEntry {
    pub offset: u64,
    pub length: u32,
}

/// Why an index is refused. The order of the variants is the order in which
/// the faults are looked for.
pub enum IndexFault {
    /// Shorter than a header.
    TooSmall,
    /// The first eight bytes are not the magic.
    BadMagic,
    /// A version other than `LEVEL_VERSION`.
    BadVersion,
    /// Zero columns or zero rows.
    ZeroGrid,
    /// The entry table runs past the end of the index.
    MissingEntries,
    /// An entry whose bytes would end beyond the pack.
    EntryOutsidePack,
}

/// The version field of an index.
pub open spec fn index_version(bytes: Seq<u8>) -> nat {
    le_u32(bytes.subrange(8, 12))
}

/// The column count of an index.
pub open spec fn index_cols(bytes: Seq<u8>) -> nat {
    le_u16(bytes.subrange(12, 14))
}

/// The row count of an index.
pub open spec fn index_rows(bytes: Seq<u8>) -> nat {
    le_u16(bytes.subrange(14, 16))
}

/// The `i`-th entry of an index.
pub open spec fn index_entry(bytes: Seq<u8>, i: int) -> TileEntry {
    TileEntry {
        offset: le_u64(bytes.subrange(16 + 12 * i, 16 + 12 * i + 8)) as u64,
        length: le_u32(bytes.subrange(16 + 12 * i + 8, 16 + 12 * i + 12)) as u32,
    }
}

/// All entries of an index, in row-major order.
pub open spec fn index_entries(bytes: Seq<u8>) -> Seq<TileEntry> {
    Seq::new(index_cols(bytes) * index_rows(bytes), |i: int| index_entry(bytes, i))
}

/// The tile's bytes end within a pack of `pack_len` bytes.
pub open spec fn entry_in_pack(e: TileEntry, pack_len: u64) -> bool {
    e.offset + e.length <= pack_len
}

/// The first fault of an index that belongs to a pack of `pack_len` bytes,
/// or `None` for an index that is accepted.
pub open spec fn index_fault(bytes: Seq<u8>, pack_len: u64) -> Option<IndexFault> {
    if bytes.len() < 16 {
        Some(IndexFault::TooSmall)
    } else if bytes.subrange(0, 8) != level_magic() {
        Some(IndexFault::BadMagic)
    } else if index_version(bytes) != 1 {
        Some(IndexFault::BadVersion)
    } else if index_cols(bytes) == 0 || index_rows(bytes) == 0 {
        Some(IndexFault::ZeroGrid)
    } else if bytes.len() < 16 + 12 * (index_cols(bytes) * index_rows(bytes)) {
        Some(IndexFault::MissingEntries)
    } else if exists|i: int|
        0 <= i < index_cols(bytes) * index_rows(bytes) && !entry_in_pack(
            #[trigger] index_entry(bytes, i),
            pack_len,
        ) {
        Some(IndexFault::EntryOutsidePack)
    } else {
        None
    }
}

/// The message that reports `fault` for the index of `level`.
pub open spec fn fault_message(level: u32, bytes: Seq<u8>, fault: IndexFault) -> Seq<char> {
    let name = "level_"@ + decimal(level as nat);
    match fault {
        IndexFault::TooSmall => name + ".idx is too small"@,
        IndexFault::BadMagic => name + ".idx magic mismatch"@,
        IndexFault::BadVersion => "Unsupported "@ + name + ".idx version: "@ + decimal(
            index_version(bytes),
        ),
        IndexFault::ZeroGrid => name + ".idx has zero cols/rows"@,
        IndexFault::MissingEntries => name + ".idx missing entry table"@,
        IndexFault::EntryOutsidePack => name + ".idx entry exceeds pack size"@,
    }
}

/// What a parsed index holds.
pub struct LevelIndex {
    pub level: u32,
    pub cols: u32,
    pub rows: u32,
    pub entries: Seq<TileEntry>,
    pub pack_len: u64,
}

impl LevelIndex {
    /// A grid within the format's limits, one entry per cell, every tile
    /// inside the pack.
    pub open spec fn wf(self) -> bool {
        &&& 1 <= self.cols <= 0xffff
        &&& 1 <= self.rows <= 0xffff
        &&& self.entries.len() == self.cols * self.rows
        &&& forall|i: int|
            0 <= i < self.entries.len() ==> entry_in_pack(#[trigger] self.entries[i], self.pack_len)
    }

    /// The entry of a cell, if the cell lies in the grid and holds a tile.
    pub open spec fn lookup(self, col: u32, row: u32) -> Option<TileEntry> {
        if col < self.cols && row < self.rows && self.entries[row * self.cols + col].length != 0 {
            Some(self.entries[row * self.cols + col])
        } else {
            None
        }
    }
}

/// The index of one level together with the size of its pack.
#[derive(Debug)]
pub struct LevelPack {
    level: u32,
    cols: u32,
    rows: u32,
    entries: Vec<TileEntry>,
    pack_len: u64,
}

impl View for LevelPack {
    type V = LevelIndex;

    closed spec fn view(&self) -> LevelIndex {
        LevelIndex {
            level: self.level,
            cols: self.cols,
            rows: self.rows,
            entries: self.entries@,
            pack_len: self.pack_len,
        }
    }
}

fn level_name(prefix: &str, level: u32) -> (s: String)
    ensures
        s@ == prefix@ + "level_"@ + decimal(level as nat),
{
    let mut s = String::from_str(prefix);
    s.append("level_");
    push_decimal(&mut s, level as u64);
    s
}

fn fault_error(level: u32, tail: &str) -> (e: TileError)
    ensures
        e matches TileError::Validation(m) && m@ == "level_"@ + decimal(level as nat) + tail@,
{
    let mut s = level_name("", level);
    s.append(tail);
    proof {
        reveal_strlit("");
        assert(s@ =~= "level_"@ + decimal(level as nat) + tail@);
    }
    TileError::Validation(s)
}

fn has_magic(bytes: &[u8]) -> (b: bool)
    requires
        bytes@.len() >= 8,
    ensures
        b == (bytes@.subrange(0, 8) == level_magic()),
{
    let b = bytes[0] == 70 && bytes[1] == 80 && bytes[2] == 76 && bytes[3] == 73 && bytes[4] == 68
        && bytes[5] == 88 && bytes[6] == 49 && bytes[7] == 0;
    proof {
        let head = bytes@.subrange(0, 8);
        if b {
            assert(head =~= level_magic());
        } else {
            assert(head[0] == bytes@[0] && head[1] == bytes@[1] && head[2] == bytes@[2] && head[3]
                == bytes@[3] && head[4] == bytes@[4] && head[5] == bytes@[5] && head[6]
                == bytes@[6] && head[7] == bytes@[7]);
            assert(level_magic()[0] == 70 && level_magic()[1] == 80 && level_magic()[2] == 76
                && level_magic()[3] == 73 && level_magic()[4] == 68 && level_magic()[5] == 88
                && level_magic()[6] == 49 && level_magic()[7] == 0);
        }
    }
    b
}

impl LevelPack {
    #[verifier::type_invariant]
    spec fn inv(self) -> bool {
        self@.wf()
    }

    /// Reads the index of `level`, which belongs to a pack of `pack_len`
    /// bytes. An index is accepted exactly when it has no fault; a refused
    /// one is reported with the message of its first fault.
    pub fn parse(level: u32, idx_bytes: &[u8], pack_len: u64) -> (r: TileResult<LevelPack>)
        ensures
            match r {
                Ok(p) => {
                    &&& index_fault(idx_bytes@, pack_len) is None
                    &&& p@.wf()
                    &&& p@.level == level
                    &&& p@.cols == index_cols(idx_bytes@)
                    &&& p@.rows == index_rows(idx_bytes@)
                    &&& p@.entries == index_entries(idx_bytes@)
                    &&& p@.pack_len == pack_len
                },
                Err(e) => {
                    &&& index_fault(idx_bytes@, pack_len) matches Some(f)
                    &&& e matches TileError::Validation(m)
                    &&& m@ == fault_message(level, idx_bytes@, f)
                },
            },
    {
        let n = idx_bytes.len();
        if n < LEVEL_HEADER_SIZE {
            return Err(fault_error(level, ".idx is too small"));
        }
        if !has_magic(idx_bytes) {
            return Err(fault_error(level, ".idx magic mismatch"));
        }
        let version = read_u32_le(idx_bytes, 8);
        if version != LEVEL_VERSION {
            let mut s = level_name("Unsupported ", level);
            s.append(".idx version: ");
            push_decimal(&mut s, version as u64);
            return Err(TileError::Validation(s));
        }
        let cols = read_u16_le(idx_bytes, 12) as u32;
        let rows = read_u16_le(idx_bytes, 14) as u32;
        if cols == 0 || rows == 0 {
            return Err(fault_error(level, ".idx has zero cols/rows"));
        }
        assert(cols * rows <= 0xffff * 0xffff) by (nonlinear_arith)
            requires
                cols <= 0xffff,
                rows <= 0xffff,
        ;
        let entry_count: u64 = (cols as u64) * (rows as u64);
        assert(entry_count == cols * rows && entry_count <= 4294836225);
        let expected_len: u64 = 16 + entry_count * 12;
        if (n as u64) < expected_len {
            return Err(fault_error(level, ".idx missing entry table"));
        }
        let count = entry_count as usize;
        let mut entries: Vec<TileEntry> = Vec::new();
        let mut i: usize = 0;
        while i < count
            invariant
                i <= count,
                count == cols * rows,
                n == idx_bytes@.len(),
                16 + 12 * count <= n,
                idx_bytes@.subrange(0, 8) == level_magic(),
                index_version(idx_bytes@) == 1,
                cols == index_cols(idx_bytes@),
                rows == index_rows(idx_bytes@),
                cols != 0 && rows != 0,
                entries@ == Seq::new(i as nat, |k: int| index_entry(idx_bytes@, k)),
                forall|k: int| 0 <= k < i ==> entry_in_pack(#[trigger] entries@[k], pack_len),
            decreases count - i,
        {
            let at = LEVEL_HEADER_SIZE + LEVEL_ENTRY_SIZE * i;
            let offset = read_u64_le(idx_bytes, at);
            let length = read_u32_le(idx_bytes, at + 8);
            let entry = TileEntry { offset, length };
            proof {
                lemma_le_u64_bound(idx_bytes@.subrange(16 + 12 * i, 16 + 12 * i + 8));
                lemma_le_u32_bound(idx_bytes@.subrange(16 + 12 * i + 8, 16 + 12 * i + 12));
                assert(entry == index_entry(idx_bytes@, i as int));
            }
            if length as u64 > pack_len || offset > pack_len - length as u64 {
                assert(!entry_in_pack(index_entry(idx_bytes@, i as int), pack_len));
                return Err(fault_error(level, ".idx entry exceeds pack size"));
            }
            entries.push(entry);
            assert(entries@ =~= Seq::new((i + 1) as nat, |k: int| index_entry(idx_bytes@, k)));
            i += 1;
        }
        proof {
            lemma_le_u16_bound(idx_bytes@.subrange(12, 14));
            lemma_le_u16_bound(idx_bytes@.subrange(14, 16));
            assert(entries@ =~= index_entries(idx_bytes@));
            assert forall|k: int| 0 <= k < index_cols(idx_bytes@) * index_rows(idx_bytes@)
            implies entry_in_pack(#[trigger] index_entry(idx_bytes@, k), pack_len) by {
                assert(entries@[k] == index_entry(idx_bytes@, k));
            }
        }
        Ok(LevelPack { level, cols, rows, entries, pack_len })
    }

    /// The level this index describes.
    pub fn level(&self) -> (l: u32)
        ensures
            l == self@.level,
    {
        self.level
    }

    /// Columns of the level's grid.
    pub fn cols(&self) -> (c: u32)
        ensures
            c == self@.cols,
    {
        self.cols
    }

    /// Rows of the level's grid.
    pub fn rows(&self) -> (r: u32)
        ensures
            r == self@.rows,
    {
        self.rows
    }

    /// Size of the level's pack in bytes.
    pub fn pack_len(&self) -> (n: u64)
        ensures
            n == self@.pack_len,
    {
        self.pack_len
    }

    /// The entry of the cell at (`col`, `row`): `None` outside the grid and
    /// for a cell without a tile.
    pub fn entry(&self, col: u32, row: u32) -> (e: Option<TileEntry>)
        ensures
            self@.wf(),
            e == self@.lookup(col, row),
    {
        proof {
            use_type_invariant(self);
        }
        if col >= self.cols || row >= self.rows {
            return None;
        }
        assert(row * self.cols + col < self.cols * self.rows) by (nonlinear_arith)
            requires
                col < self.cols,
                row < self.rows,
        ;
        assert(self.cols * self.rows <= 0xffff * 0xffff) by (nonlinear_arith)
            requires
                self.cols <= 0xffff,
                self.rows <= 0xffff,
        ;
        let idx = (row as u64) * (self.cols as u64) + col as u64;
        let entry = self.entries[idx as usize];
        if entry.length == 0 {
            return None;
        }
        Some(entry)
    }
}

impl Keyed for LevelPack {
    open spec fn key(&self) -> u32 {
        self@.level
    }

    fn sort_key(&self) -> (k: u32) {
        self.level
    }
}

/// A reference to one tile's bytes in the pack of its level.
#[derive(Debug, Clone, Copy)]
pub struct PackTileRef {
    pub level: u32,
    pub offset: u64,
    pub length: u32,
}

/// What the host read for one level: the level's number, the bytes of its
/// index file, and the size of its pack file.
#[derive(Debug)]
pub struct LevelSource {
    pub level: u32,
    pub idx_bytes: Vec<u8>,
    pub pack_len: u64,
}

/// The index that an accepted source parses to.
pub open spec fn parsed_index(src: LevelSource) -> LevelIndex {
    LevelIndex {
        level: src.level,
        cols: index_cols(src.idx_bytes@) as u32,
        rows: index_rows(src.idx_bytes@) as u32,
        entries: index_entries(src.idx_bytes@),
        pack_len: src.pack_len,
    }
}

/// The source's index has a fault.
pub open spec fn faulty(src: LevelSource) -> bool {
    index_fault(src.idx_bytes@, src.pack_len) is Some
}

/// The key by which level indexes are ordered: the level number.
pub open spec fn level_key() -> spec_fn(LevelIndex) -> u32 {
    |l: LevelIndex| l.level
}

/// The indexes that the sources parse to, in the sources' order.
pub open spec fn source_indexes(sources: Seq<LevelSource>) -> Seq<LevelIndex> {
    Seq::new(sources.len(), |i: int| parsed_index(sources[i]))
}

/// The sources' indexes, sorted by level.
pub open spec fn sorted_indexes(sources: Seq<LevelSource>) -> Seq<LevelIndex> {
    stable_sort(source_indexes(sources), level_key())
}

/// The level numbers of `levels`, in their order.
pub open spec fn level_numbers(levels: Seq<LevelIndex>) -> Seq<u32> {
    levels.map_values(level_key())
}

/// The message with which a set of sources is refused, or `None` where it
/// is accepted. The first faulty index is reported first; then the lack of
/// any level; then the first level number that stands twice in the sorted
/// list.
pub open spec fn open_refusal(sources: Seq<LevelSource>) -> Option<Seq<char>> {
    let numbers = level_numbers(sorted_indexes(sources));
    if exists|i: int| 0 <= i < sources.len() && faulty(#[trigger] sources[i]) {
        let i = choose|i: int|
            0 <= i < sources.len() && faulty(#[trigger] sources[i]) && forall|j: int|
                0 <= j < i ==> !faulty(#[trigger] sources[j]);
        Some(
            fault_message(
                sources[i].level,
                sources[i].idx_bytes@,
                index_fault(sources[i].idx_bytes@, sources[i].pack_len).unwrap(),
            ),
        )
    } else if sources.len() == 0 {
        Some("No level index files found in tiles/"@)
    } else if first_repeat(numbers) < numbers.len() {
        Some("Duplicate level index: "@ + decimal(numbers[first_repeat(numbers)] as nat))
    } else {
        None
    }
}

/// The first index of `levels` that describes `level`.
pub open spec fn find_level(levels: Seq<LevelIndex>, level: u32) -> Option<LevelIndex>
    decreases levels.len(),
{
    if levels.len() == 0 {
        None
    } else if levels[0].level == level {
        Some(levels[0])
    } else {
        find_level(levels.drop_first(), level)
    }
}

/// The reference of the tile at (`level`, `col`, `row`): `None` for an
/// unknown level, a cell outside the grid, and a cell without a tile.
pub open spec fn tile_ref_of(levels: Seq<LevelIndex>, level: u32, col: u32, row: u32) -> Option<
    PackTileRef,
> {
    match find_level(levels, level) {
        Some(l) => match l.lookup(col, row) {
            Some(e) => Some(PackTileRef { level, offset: e.offset, length: e.length }),
            None => None,
        },
        None => None,
    }
}

/// The byte range `[start, end)` of a tile in its pack, or the message with
/// which the reference is refused.
pub open spec fn span_of(levels: Seq<LevelIndex>, r: PackTileRef) -> Result<(u64, u64), Seq<char>> {
    if r.length == 0 {
        Err("zero-length tile"@)
    } else {
        match find_level(levels, r.level) {
            None => Err("Unknown level "@ + decimal(r.level as nat)),
            Some(l) => if r.offset + r.length > u64::MAX {
                Err("tile offset overflow"@)
            } else if r.offset + r.length > l.pack_len {
                Err("tile byte range exceeds pack size"@)
            } else {
                Ok((r.offset, (r.offset + r.length) as u64))
            },
        }
    }
}

/// Among levels with strictly ascending numbers, each is found under its
/// number.
pub proof fn lemma_find_level(levels: Seq<LevelIndex>, i: int)
    requires
        0 <= i < levels.len(),
        strictly_ascending(level_numbers(levels)),
    ensures
        find_level(levels, levels[i].level) == Some(levels[i]),
    decreases levels.len(),
{
    if i == 0 {
    } else {
        let rest = levels.drop_first();
        assert(level_numbers(levels)[0] < level_numbers(levels)[i]);
        assert(rest[i - 1] == levels[i]);
        assert forall|a: int, b: int| 0 <= a < b < rest.len() implies level_numbers(rest)[a]
            < level_numbers(rest)[b] by {
            assert(level_numbers(levels)[a + 1] < level_numbers(levels)[b + 1]);
        }
        lemma_find_level(rest, i - 1);
    }
}

/// In the container that is built from accepted sources, the levels stand
/// in strictly ascending order of their numbers, and the index of every
/// source is found under the source's level number.
pub proof fn lemma_open_finds(sources: Seq<LevelSource>, i: int)
    requires
        open_refusal(sources) is None,
        0 <= i < sources.len(),
    ensures
        strictly_ascending(level_numbers(sorted_indexes(sources))),
        find_level(sorted_indexes(sources), sources[i].level) == Some(parsed_index(sources[i])),
{
    let parsed = source_indexes(sources);
    let sorted = sorted_indexes(sources);
    let numbers = level_numbers(sorted);
    lemma_stable_sort(parsed, level_key());
    lemma_first_repeat(numbers);
    lemma_no_repeat(numbers);
    lemma_stable_sort_keeps(parsed, level_key(), i);
    let p = choose|p: int| 0 <= p < sorted.len() && sorted[p] == parsed[i];
    lemma_find_level(sorted, p);
}

/// The level indexes of one slide, sorted by level number.
#[derive(Debug)]
pub struct TilePack {
    levels: Vec<LevelPack>,
}

/// The indexes held by `packs`, in their order.
pub closed spec fn indexes_of(packs: Seq<LevelPack>) -> Seq<LevelIndex> {
    Seq::new(packs.len(), |i: int| packs[i]@)
}

impl View for TilePack {
    type V = Seq<LevelIndex>;

    closed spec fn view(&self) -> Seq<LevelIndex> {
        indexes_of(self.levels@)
    }
}

proof fn lemma_insert_step(before: Seq<LevelPack>, item: LevelPack, after: Seq<LevelPack>)
    requires
        after == before.insert(rank(keys_of(before), item.key()) as int, item),
    ensures
        indexes_of(after) == stable_insert(indexes_of(before), item@, level_key()),
{
    let views = indexes_of(before);
    assert(keys_of(before) =~= views.map_values(level_key()));
    lemma_rank(keys_of(before), item.key());
    assert(indexes_of(after) =~= stable_insert(views, item@, level_key()));
}

proof fn lemma_first_faulty(sources: Seq<LevelSource>, k: int)
    requires
        0 <= k < sources.len(),
        faulty(sources[k]),
        forall|j: int| 0 <= j < k ==> !faulty(#[trigger] sources[j]),
    ensures
        open_refusal(sources) == Some(
            fault_message(
                sources[k].level,
                sources[k].idx_bytes@,
                index_fault(sources[k].idx_bytes@, sources[k].pack_len).unwrap(),
            ),
        ),
{
    let i = choose|i: int|
        0 <= i < sources.len() && faulty(#[trigger] sources[i]) && forall|j: int|
            0 <= j < i ==> !faulty(#[trigger] sources[j]);
    if i < k {
        assert(!faulty(sources[i]));
    }
    if k < i {
        assert(!faulty(sources[k]));
    }
}

impl TilePack {
    /// Builds the container of a slide from what the host read for each of
    /// its levels. The levels come out sorted by number. The set is refused
    /// where an index is faulty, where there is no level at all, and where
    /// two levels have the same number.
    pub fn open(sources: &Vec<LevelSource>) -> (r: TileResult<TilePack>)
        ensures
            match r {
                Ok(pack) => open_refusal(sources@) is None && pack@ == sorted_indexes(sources@),
                Err(e) => e matches TileError::Validation(m) && open_refusal(sources@) == Some(
                    m@,
                ),
            },
    {
        let ghost parsed = source_indexes(sources@);
        let mut levels: Vec<LevelPack> = Vec::new();
        let mut k: usize = 0;
        assert(indexes_of(levels@) =~= stable_sort(parsed.take(0), level_key()));
        while k < sources.len()
            invariant
                k <= sources.len(),
                parsed == source_indexes(sources@),
                forall|j: int| 0 <= j < k ==> !faulty(#[trigger] sources@[j]),
                indexes_of(levels@) == stable_sort(parsed.take(k as int), level_key()),
            decreases sources.len() - k,
        {
            let src = &sources[k];
            match LevelPack::parse(src.level, src.idx_bytes.as_slice(), src.pack_len) {
                Err(e) => {
                    proof {
                        lemma_first_faulty(sources@, k as int);
                    }
                    return Err(e);
                },
                Ok(p) => {
                    proof {
                        lemma_le_u16_bound(src.idx_bytes@.subrange(12, 14));
                        lemma_le_u16_bound(src.idx_bytes@.subrange(14, 16));
                        assert(p@ == parsed[k as int]);
                    }
                    let ghost before = levels@;
                    let ghost item = p;
                    insert_sorted(&mut levels, p);
                    proof {
                        lemma_insert_step(before, item, levels@);
                        let prefix = parsed.take(k + 1);
                        assert(prefix.drop_last() =~= parsed.take(k as int));
                        assert(prefix.last() == item@);
                    }
                },
            }
            k += 1;
        }
        proof {
            assert(parsed.take(k as int) =~= parsed);
        }
        if levels.len() == 0 {
            return Err(
                TileError::Validation(String::from_str("No level index files found in tiles/")),
            );
        }
        proof {
            lemma_stable_sort(parsed, level_key());
        }
        let ghost numbers = level_numbers(indexes_of(levels@));
        let mut i: usize = 1;
        assert(numbers.skip(0) =~= numbers);
        while i < levels.len()
            invariant
                1 <= i <= levels.len(),
                sources@.len() > 0,
                forall|j: int| 0 <= j < sources@.len() ==> !faulty(#[trigger] sources@[j]),
                indexes_of(levels@) == sorted_indexes(sources@),
                numbers == level_numbers(indexes_of(levels@)),
                numbers.len() == levels.len(),
                first_repeat(numbers) == (i - 1) + first_repeat(numbers.skip(i - 1)),
            decreases levels.len() - i,
        {
            proof {
                let tail = numbers.skip(i - 1);
                assert(tail[0] == numbers[i - 1] && tail[1] == numbers[i as int]);
                assert(tail.drop_first() =~= numbers.skip(i as int));
                assert(numbers[i as int] == levels@[i as int]@.level);
                assert(numbers[i - 1] == levels@[i - 1]@.level);
            }
            if levels[i].level == levels[i - 1].level {
                let mut s = String::from_str("Duplicate level index: ");
                push_decimal(&mut s, levels[i].level as u64);
                assert(first_repeat(numbers) == i);
                return Err(TileError::Validation(s));
            }
            i += 1;
        }
        assert(first_repeat(numbers) == numbers.len());
        Ok(TilePack { levels })
    }

    fn level_pack(&self, level: u32) -> (r: Option<&LevelPack>)
        ensures
            match r {
                Some(p) => find_level(self@, level) == Some(p@),
                None => find_level(self@, level) is None,
            },
    {
        let ghost all = self@;
        let mut i: usize = 0;
        assert(all.skip(0) =~= all);
        while i < self.levels.len()
            invariant
                i <= self.levels.len(),
                all == self@,
                all.len() == self.levels.len(),
                find_level(all, level) == find_level(all.skip(i as int), level),
            decreases self.levels.len() - i,
        {
            proof {
                let tail = all.skip(i as int);
                assert(tail[0] == all[i as int]);
                assert(tail.drop_first() =~= all.skip(i + 1));
            }
            if self.levels[i].level == level {
                return Some(&self.levels[i]);
            }
            i += 1;
        }
        None
    }

    /// How many levels the container holds.
    pub fn num_levels(&self) -> (n: usize)
        ensures
            n == self@.len(),
    {
        self.levels.len()
    }

    /// Where the bytes of the tile at (`level`, `col`, `row`) lie: `None`
    /// for an unknown level, a cell outside the grid, and a missing tile. A
    /// reference that is returned lies within the pack of its level.
    pub fn tile_ref(&self, level: u32, col: u32, row: u32) -> (r: Option<PackTileRef>)
        ensures
            r == tile_ref_of(self@, level, col, row),
            r matches Some(t) ==> span_of(self@, t) == Ok::<(u64, u64), Seq<char>>(
                (t.offset, (t.offset + t.length) as u64),
            ),
    {
        match self.level_pack(level) {
            Some(info) => match info.entry(col, row) {
                Some(e) => {
                    proof {
                        let cell = row * info@.cols + col;
                        assert(cell < info@.cols * info@.rows) by (nonlinear_arith)
                            requires
                                col < info@.cols,
                                row < info@.rows,
                                cell == row * info@.cols + col,
                        ;
                        assert(entry_in_pack(info@.entries[cell], info@.pack_len));
                    }
                    Some(PackTileRef { level, offset: e.offset, length: e.length })
                },
                None => None,
            },
            None => None,
        }
    }

    /// The byte range `[start, end)` to read from the level's pack for
    /// `tile_ref`, checked against the size of the pack.
    pub fn tile_span(&self, tile_ref: PackTileRef) -> (r: TileResult<(u64, u64)>)
        ensures
            match r {
                Ok(span) => span_of(self@, tile_ref) == Ok::<(u64, u64), Seq<char>>(span),
                Err(e) => e matches TileError::Validation(m) && span_of(self@, tile_ref) == Err::<
                    (u64, u64),
                    Seq<char>,
                >(m@),
            },
    {
        if tile_ref.length == 0 {
            return Err(TileError::Validation(String::from_str("zero-length tile")));
        }
        let level = match self.level_pack(tile_ref.level) {
            Some(l) => l,
            None => {
                let mut s = String::from_str("Unknown level ");
                push_decimal(&mut s, tile_ref.level as u64);
                return Err(TileError::Validation(s));
            },
        };
        if tile_ref.offset > u64::MAX - tile_ref.length as u64 {
            return Err(TileError::Validation(String::from_str("tile offset overflow")));
        }
        let end = tile_ref.offset + tile_ref.length as u64;
        if end > level.pack_len {
            return Err(
                TileError::Validation(String::from_str("tile byte range exceeds pack size")),
            );
        }
        Ok((tile_ref.offset, end))
    }

    /// Takes the bytes of `tile_ref` out of `pack`, the content of the
    /// level's pack. A pack that ends before the tile does is an I/O error.
    pub fn read_tile_bytes(&self, tile_ref: PackTileRef, pack: &[u8]) -> (r: TileResult<
        bytes::Bytes,
    >)
        ensures
            match r {
                Ok(b) => span_of(self@, tile_ref) matches Ok(span) && span.1 <= pack@.len()
                    && shared_bytes(b) == pack@.subrange(span.0 as int, span.1 as int),
                Err(TileError::Validation(m)) => span_of(self@, tile_ref) == Err::<
                    (u64, u64),
                    Seq<char>,
                >(m@),
                Err(TileError::Io(m)) => span_of(self@, tile_ref) matches Ok(span) && span.1
                    > pack@.len() && m@ == "pack ends before the tile does"@,
                Err(_) => false,
            },
    {
        let (start, end) = match self.tile_span(tile_ref) {
            Ok(span) => span,
            Err(e) => {
                return Err(e);
            },
        };
        let n = pack.len();
        if end > n as u64 {
            return Err(TileError::Io(String::from_str("pack ends before the tile does")));
        }
        let mut buf: Vec<u8> = Vec::new();
        let mut i: usize = start as usize;
        let stop: usize = end as usize;
        while i < stop
            invariant
                start <= i <= stop <= pack@.len(),
                buf@ == pack@.subrange(start as int, i as int),
            decreases stop - i,
        {
            buf.push(pack[i]);
            assert(buf@ =~= pack@.subrange(start as int, i + 1));
            i += 1;
        }
        Ok(share(buf))
    }
}

/// What the name of a file in the tiles directory says: `None` for a file
/// that is no index; for an index named `level_<N>.idx` the level `N`, or
/// the message that refuses what stands in its place.
pub open spec fn index_name(name: Seq<char>) -> Option<Result<u32, Seq<char>>> {
    if name.len() >= 10 && name.subrange(0, 6) == "level_"@ && name.subrange(
        name.len() - 4,
        name.len() as int,
    ) == ".idx"@ {
        let number = name.subrange(6, name.len() - 4);
        match parsed_u32(number) {
            Some(level) => Some(Ok(level)),
            None => Some(Err("Invalid level index: "@ + number)),
        }
    } else {
        None
    }
}

/// The name of the pack that belongs to the index of `level`.
pub open spec fn pack_name_text(level: u32) -> Seq<char> {
    "level_"@ + decimal(level as nat) + ".pack"@
}

/// Reads the level from the name of an index file. A file that is not named
/// like an index is passed over with `None`.
pub fn index_level_of(name: &str) -> (r: Option<TileResult<u32>>)
    ensures
        match r {
            None => index_name(name@) is None,
            Some(Ok(level)) => index_name(name@) == Some(Ok::<u32, Seq<char>>(level)),
            Some(Err(e)) => e matches TileError::Validation(m) && index_name(name@) == Some(
                Err::<u32, Seq<char>>(m@),
            ),
        },
{
    proof {
        reveal_strlit("level_");
        reveal_strlit(".idx");
    }
    let n = name.unicode_len();
    if n < 10 || !has_prefix(name, "level_") || !has_suffix(name, ".idx") {
        return None;
    }
    let number = name.substring_char(6, n - 4);
    match parse_u32(number) {
        Some(level) => Some(Ok(level)),
        None => {
            let mut s = String::from_str("Invalid level index: ");
            s.append(number);
            Some(Err(TileError::Validation(s)))
        },
    }
}

/// The name of the pack that belongs to the index of `level`.
pub fn pack_name(level: u32) -> (s: String)
    ensures
        s@ == pack_name_text(level),
{
    let mut s = level_name("", level);
    s.append(".pack");
    proof {
        reveal_strlit("");
        assert(s@ =~= pack_name_text(level));
    }
    s
}

/// The name of the index of `level`.
pub fn index_file_name(level: u32) -> (s: String)
    ensures
        s@ == "level_"@ + decimal(level as nat) + ".idx"@,
{
    let mut s = level_name("", level);
    s.append(".idx");
    proof {
        reveal_strlit("");
        assert(s@ =~= "level_"@ + decimal(level as nat) + ".idx"@);
    }
    s
}

} // verus!
