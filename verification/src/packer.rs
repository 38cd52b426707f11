//! Writing a level's index and pack.
//!
//! The packer walks the grid in row-major order. For every cell it writes
//! one index entry; the bytes of the tiles follow one another in the pack.

use vstd::prelude::*;
use vstd::string::*;

use crate::codec::{lemma_u16_round_trip, lemma_u32_round_trip, lemma_u64_round_trip};
use crate::codec::{push_u16_le, push_u32_le, push_u64_le, u16_le, u32_le, u64_le};
use crate::error::{TileError, TileResult};
use crate::pack::{entry_in_pack, index_cols, index_entries, index_entry, index_fault};
use crate::pack::{index_rows, index_version, level_magic, LevelIndex, TileEntry, LEVEL_VERSION};
use crate::text::{decimal, has_suffix, push_decimal};

verus! {

/// The header of an index for a grid of `cols` by `rows` cells.
pub open spec fn index_header(cols: u16, rows: u16) -> Seq<u8> {
    level_magic() + u32_le(LEVEL_VERSION) + u16_le(cols) + u16_le(rows)
}

/// The twelve bytes of an index entry.
pub open spec fn entry_bytes(e: TileEntry) -> Seq<u8> {
    u64_le(e.offset) + u32_le(e.length)
}

/// The pack of a level: the bytes of its tiles one after another, in
/// row-major order of their cells. A cell without a tile adds nothing.
pub open spec fn packed_data(tiles: Seq<Option<Seq<u8>>>) -> Seq<u8>
    decreases tiles.len(),
{
    if tiles.len() == 0 {
        Seq::empty()
    } else {
        packed_data(tiles.drop_last()) + match tiles.last() {
            Some(d) => d,
            None => Seq::empty(),
        }
    }
}

/// The entry written for cell `i`: where its tile starts in the pack and
/// how long it is, or two zeros for a cell without a tile.
pub open spec fn cell_entry(tiles: Seq<Option<Seq<u8>>>, i: int) -> TileEntry {
    match tiles[i] {
        Some(d) => TileEntry {
            offset: packed_data(tiles.take(i)).len() as u64,
            length: d.len() as u32,
        },
        None => TileEntry { offset: 0, length: 0 },
    }
}

/// The entry table written for `tiles`.
pub open spec fn packed_entries(tiles: Seq<Option<Seq<u8>>>) -> Seq<u8>
    decreases tiles.len(),
{
    if tiles.len() == 0 {
        Seq::empty()
    } else {
        packed_entries(tiles.drop_last()) + entry_bytes(cell_entry(tiles, tiles.len() - 1))
    }
}

/// The index written for a grid of `cols` by `rows` cells that hold `tiles`.
pub open spec fn packed_index(cols: u16, rows: u16, tiles: Seq<Option<Seq<u8>>>) -> Seq<u8> {
    index_header(cols, rows) + packed_entries(tiles)
}

/// The name under which the tile of a cell is looked for: column, an
/// underscore, row.
pub open spec fn tile_key_text(col: nat, row: nat) -> Seq<char> {
    decimal(col) + "_"@ + decimal(row)
}

/// The message for a tile that does not fit a 32-bit length.
pub open spec fn too_large_message(len: nat, path: Seq<char>) -> Seq<char> {
    "Tile too large to pack ("@ + decimal(len) + " bytes): "@ + path
}

/// Why the tile of cell `i` cannot be packed, or `None` where it can: its
/// length must fit thirty-two bits and its end in the pack sixty-four.
pub open spec fn cell_refusal(cols: nat, tiles: Seq<Option<Seq<u8>>>, i: int) -> Option<Seq<char>> {
    match tiles[i] {
        None => None,
        Some(d) => if d.len() > u32::MAX {
            Some(too_large_message(d.len(), tile_key_text((i % (cols as int)) as nat, (i / (cols as int)) as nat)))
        } else if packed_data(tiles.take(i)).len() + d.len() > u64::MAX {
            Some("pack offset overflow"@)
        } else {
            None
        },
    }
}

/// Every tile can be packed.
pub open spec fn packable(cols: nat, tiles: Seq<Option<Seq<u8>>>) -> bool {
    forall|i: int| 0 <= i < tiles.len() ==> #[trigger] cell_refusal(cols, tiles, i) is None
}

/// The state of a packer: the grid, how many cells were written, how many
/// bytes went to the pack, and the index written so far.
pub struct PackerState {
    pub level: u32,
    pub cols: u16,
    pub rows: u16,
    pub written: nat,
    pub pack_offset: u64,
    pub index: Seq<u8>,
}

/// Writes the index of one level while the host copies the tiles to the
/// pack. Cells are written in row-major order.
#[derive(Debug)]
pub struct LevelPacker {
    level: u32,
    cols: u16,
    rows: u16,
    written: u64,
    pack_offset: u64,
    index: Vec<u8>,
}

impl View for LevelPacker {
    type V = PackerState;

    closed spec fn view(&self) -> PackerState {
        PackerState {
            level: self.level,
            cols: self.cols,
            rows: self.rows,
            written: self.written as nat,
            pack_offset: self.pack_offset,
            index: self.index@,
        }
    }
}

/// The message for a grid dimension that does not fit sixteen bits.
pub open spec fn grid_message(level: u32, axis: Seq<char>, n: u32) -> Seq<char> {
    "level "@ + decimal(level as nat) + " "@ + axis + " exceeds u16: "@ + decimal(n as nat)
}

fn grid_error(level: u32, axis: &str, n: u32) -> (e: TileError)
    ensures
        e matches TileError::Validation(m) && m@ == grid_message(level, axis@, n),
{
    let mut s = String::from_str("level ");
    push_decimal(&mut s, level as u64);
    s.append(" ");
    s.append(axis);
    s.append(" exceeds u16: ");
    push_decimal(&mut s, n as u64);
    TileError::Validation(s)
}

impl LevelPacker {
    /// Starts the index of `level` for a grid of `cols` by `rows` cells.
    /// A dimension that does not fit sixteen bits is refused, columns first.
    pub fn new(level: u32, cols: u32, rows: u32) -> (r: TileResult<LevelPacker>)
        ensures
            match r {
                Ok(p) => cols <= 0xffff && rows <= 0xffff && p@ == (PackerState {
                    level,
                    cols: cols as u16,
                    rows: rows as u16,
                    written: 0,
                    pack_offset: 0,
                    index: index_header(cols as u16, rows as u16),
                }),
                Err(e) => e matches TileError::Validation(m) && if cols > 0xffff {
                    m@ == grid_message(level, "cols"@, cols)
                } else {
                    rows > 0xffff && m@ == grid_message(level, "rows"@, rows)
                },
            },
    {
        if cols > 0xffff {
            return Err(grid_error(level, "cols", cols));
        }
        if rows > 0xffff {
            return Err(grid_error(level, "rows", rows));
        }
        let mut index: Vec<u8> = Vec::new();
        index.push(70);
        index.push(80);
        index.push(76);
        index.push(73);
        index.push(68);
        index.push(88);
        index.push(49);
        index.push(0);
        assert(index@ =~= level_magic());
        push_u32_le(&mut index, LEVEL_VERSION);
        push_u16_le(&mut index, cols as u16);
        push_u16_le(&mut index, rows as u16);
        Ok(LevelPacker { level, cols: cols as u16, rows: rows as u16, written: 0, pack_offset: 0, index })
    }

    /// The cell that is written next, as (column, row), or `None` when
    /// every cell of the grid has been written.
    pub fn next_cell(&self) -> (c: Option<(u32, u32)>)
        ensures
            match c {
                Some((col, row)) => self@.written < self@.cols * self@.rows && col
                    == self@.written % (self@.cols as nat) && row == self@.written / (
                self@.cols as nat),
                None => self@.written >= self@.cols * self@.rows,
            },
    {
        assert(self.cols * self.rows <= 0xffff * 0xffff) by (nonlinear_arith)
            requires
                self.cols <= 0xffff,
                self.rows <= 0xffff,
        ;
        let cells: u64 = (self.cols as u64) * (self.rows as u64);
        if self.written >= cells {
            return None;
        }
        assert(self.cols > 0) by (nonlinear_arith)
            requires
                self.written < self.cols * self.rows,
        ;
        let col = self.written % (self.cols as u64);
        let row = self.written / (self.cols as u64);
        assert(row < self.rows) by (nonlinear_arith)
            requires
                self.written < self.cols * self.rows,
                row == self.written / (self.cols as u64),
                self.cols > 0,
        ;
        Some((col as u32, row as u32))
    }

    /// Bytes sent to the pack so far: where the next tile will start.
    pub fn pack_offset(&self) -> (n: u64)
        ensures
            n == self@.pack_offset,
    {
        self.pack_offset
    }

    /// Writes the entry of a cell that has no tile.
    pub fn push_missing(&mut self) -> (r: TileResult<()>)
        ensures
            match r {
                Ok(_) => old(self)@.written < old(self)@.cols * old(self)@.rows && final(self)@
                    == (PackerState {
                    written: old(self)@.written + 1,
                    index: old(self)@.index + entry_bytes(TileEntry { offset: 0, length: 0 }),
                    ..old(self)@
                }),
                Err(e) => {
                    &&& old(self)@.written >= old(self)@.cols * old(self)@.rows
                    &&& final(self)@ == old(self)@
                    &&& (e matches TileError::Validation(m) && m@ == "more tiles than grid cells"@)
                },
            },
    {
        assert(self.cols * self.rows <= 0xffff * 0xffff) by (nonlinear_arith)
            requires
                self.cols <= 0xffff,
                self.rows <= 0xffff,
        ;
        if self.written >= (self.cols as u64) * (self.rows as u64) {
            return Err(TileError::Validation(String::from_str("more tiles than grid cells")));
        }
        push_u64_le(&mut self.index, 0);
        push_u32_le(&mut self.index, 0);
        self.written = self.written + 1;
        assert(self.index@ =~= old(self).index@ + entry_bytes(TileEntry { offset: 0, length: 0 }));
        Ok(())
    }

    /// Writes the entry of a tile of `len` bytes, which the host appends to
    /// the pack; `path` names the tile in the error message. Nothing is
    /// written where the tile is refused.
    pub fn push_tile(&mut self, len: usize, path: &str) -> (r: TileResult<()>)
        ensures
            match r {
                Ok(_) => {
                    &&& old(self)@.written < old(self)@.cols * old(self)@.rows
                    &&& len <= u32::MAX
                    &&& old(self)@.pack_offset + len <= u64::MAX
                    &&& final(self)@ == (PackerState {
                        written: old(self)@.written + 1,
                        pack_offset: (old(self)@.pack_offset + len) as u64,
                        index: old(self)@.index + entry_bytes(
                            TileEntry { offset: old(self)@.pack_offset, length: len as u32 },
                        ),
                        ..old(self)@
                    })
                },
                Err(e) => {
                    &&& final(self)@ == old(self)@
                    &&& (e matches TileError::Validation(m) && if old(self)@.written >= old(self)@.cols * old(self)@.rows {
                        m@ == "more tiles than grid cells"@
                    } else if len > u32::MAX {
                        m@ == too_large_message(len as nat, path@)
                    } else {
                        old(self)@.pack_offset + len > u64::MAX && m@ == "pack offset overflow"@
                    })
                },
            },
    {
        assert(self.cols * self.rows <= 0xffff * 0xffff) by (nonlinear_arith)
            requires
                self.cols <= 0xffff,
                self.rows <= 0xffff,
        ;
        if self.written >= (self.cols as u64) * (self.rows as u64) {
            return Err(TileError::Validation(String::from_str("more tiles than grid cells")));
        }
        if len > 0xffff_ffff {
            let mut s = String::from_str("Tile too large to pack (");
            push_decimal(&mut s, len as u64);
            s.append(" bytes): ");
            s.append(path);
            return Err(TileError::Validation(s));
        }
        if self.pack_offset > u64::MAX - len as u64 {
            return Err(TileError::Validation(String::from_str("pack offset overflow")));
        }
        push_u64_le(&mut self.index, self.pack_offset);
        push_u32_le(&mut self.index, len as u32);
        assert(self.index@ =~= old(self).index@ + entry_bytes(
            TileEntry { offset: old(self).pack_offset, length: len as u32 },
        ));
        self.pack_offset = self.pack_offset + len as u64;
        self.written = self.written + 1;
        Ok(())
    }

    /// The index written so far.
    pub fn into_index(self) -> (index: Vec<u8>)
        ensures
            index@ == self@.index,
    {
        self.index
    }
}

/// The name under which the tile of a cell is looked for.
pub fn tile_key(col: u32, row: u32) -> (s: String)
    ensures
        s@ == tile_key_text(col as nat, row as nat),
{
    let mut s = String::new();
    push_decimal(&mut s, col as u64);
    s.append("_");
    push_decimal(&mut s, row as u64);
    assert(s@ =~= tile_key_text(col as nat, row as nat));
    s
}

/// What the packer is handed for each cell, as plain values.
pub open spec fn tiles_view(tiles: Seq<Option<Vec<u8>>>) -> Seq<Option<Seq<u8>>> {
    Seq::new(
        tiles.len(),
        |i: int|
            match tiles[i] {
                Some(v) => Some(v@),
                None => None,
            },
    )
}

/// The message for a tile list that does not match the grid.
pub open spec fn count_message(level: u32, cells: nat, tiles: nat) -> Seq<char> {
    "level "@ + decimal(level as nat) + " has "@ + decimal(cells) + " cells, got "@ + decimal(tiles)
        + " tiles"@
}

/// The message with which `pack_level` refuses its input, or `None` where
/// it packs it.
pub open spec fn pack_refusal(level: u32, cols: u32, rows: u32, tiles: Seq<Option<Seq<u8>>>) -> Option<
    Seq<char>,
> {
    if cols > 0xffff {
        Some(grid_message(level, "cols"@, cols))
    } else if rows > 0xffff {
        Some(grid_message(level, "rows"@, rows))
    } else if tiles.len() != cols * rows {
        Some(count_message(level, (cols * rows) as nat, tiles.len()))
    } else if !packable(cols as nat, tiles) {
        let i = choose|i: int|
            0 <= i < tiles.len() && #[trigger] cell_refusal(cols as nat, tiles, i) is Some
                && forall|j: int| 0 <= j < i ==> #[trigger] cell_refusal(cols as nat, tiles, j) is None;
        Some(cell_refusal(cols as nat, tiles, i).unwrap())
    } else {
        None
    }
}

/// The index and the pack of one level.
#[derive(Debug)]
pub struct PackedLevel {
    pub index: Vec<u8>,
    pub pack: Vec<u8>,
}

proof fn lemma_first_refusal(cols: nat, tiles: Seq<Option<Seq<u8>>>, k: int)
    requires
        0 <= k < tiles.len(),
        cell_refusal(cols, tiles, k) is Some,
        forall|j: int| 0 <= j < k ==> #[trigger] cell_refusal(cols, tiles, j) is None,
    ensures
        !packable(cols, tiles),
        (choose|i: int|
            0 <= i < tiles.len() && #[trigger] cell_refusal(cols, tiles, i) is Some && forall|j: int|
                0 <= j < i ==> #[trigger] cell_refusal(cols, tiles, j) is None) == k,
{
    let i = choose|i: int|
        0 <= i < tiles.len() && #[trigger] cell_refusal(cols, tiles, i) is Some && forall|j: int|
            0 <= j < i ==> #[trigger] cell_refusal(cols, tiles, j) is None;
    if i < k {
        assert(cell_refusal(cols, tiles, i) is None);
    }
    if k < i {
        assert(cell_refusal(cols, tiles, k) is None);
    }
}

proof fn lemma_pack_step(tiles: Seq<Option<Seq<u8>>>, k: int)
    requires
        0 <= k < tiles.len(),
    ensures
        packed_entries(tiles.take(k + 1)) == packed_entries(tiles.take(k)) + entry_bytes(
            cell_entry(tiles, k),
        ),
        packed_data(tiles.take(k + 1)) == packed_data(tiles.take(k)) + match tiles[k] {
            Some(d) => d,
            None => Seq::empty(),
        },
{
    let next = tiles.take(k + 1);
    assert(next.drop_last() =~= tiles.take(k));
    assert(next.take(k) =~= tiles.take(k));
    assert(next.last() == tiles[k]);
    assert(next[k] == tiles[k]);
    assert(cell_entry(next, k) == cell_entry(tiles, k));
}

/// Packs one level in memory: `tiles` holds, in row-major order, the bytes
/// of each cell's tile or `None` for a cell without one.
pub fn pack_level(level: u32, cols: u32, rows: u32, tiles: &Vec<Option<Vec<u8>>>) -> (r: TileResult<
    PackedLevel,
>)
    ensures
        match r {
            Ok(p) => {
                &&& pack_refusal(level, cols, rows, tiles_view(tiles@)) is None
                &&& p.index@ == packed_index(cols as u16, rows as u16, tiles_view(tiles@))
                &&& p.pack@ == packed_data(tiles_view(tiles@))
            },
            Err(e) => e matches TileError::Validation(m) && pack_refusal(
                level,
                cols,
                rows,
                tiles_view(tiles@),
            ) == Some(m@),
        },
{
    let ghost tv = tiles_view(tiles@);
    let mut packer = match LevelPacker::new(level, cols, rows) {
        Ok(p) => p,
        Err(e) => {
            return Err(e);
        },
    };
    assert(cols * rows <= 0xffff * 0xffff) by (nonlinear_arith)
        requires
            cols <= 0xffff,
            rows <= 0xffff,
    ;
    let cells: u64 = (cols as u64) * (rows as u64);
    if tiles.len() as u64 != cells {
        let mut s = String::from_str("level ");
        push_decimal(&mut s, level as u64);
        s.append(" has ");
        push_decimal(&mut s, cells);
        s.append(" cells, got ");
        push_decimal(&mut s, tiles.len() as u64);
        s.append(" tiles");
        return Err(TileError::Validation(s));
    }
    let mut pack: Vec<u8> = Vec::new();
    let mut k: usize = 0;
    assert(tv.take(0) =~= Seq::<Option<Seq<u8>>>::empty());
    assert(packer@.index =~= index_header(cols as u16, rows as u16) + packed_entries(tv.take(0)));
    while k < tiles.len()
        invariant
            k <= tiles.len(),
            tv == tiles_view(tiles@),
            cols <= 0xffff,
            rows <= 0xffff,
            tiles.len() == cols * rows,
            packer@ == (PackerState {
                level,
                cols: cols as u16,
                rows: rows as u16,
                written: k as nat,
                pack_offset: packed_data(tv.take(k as int)).len() as u64,
                index: index_header(cols as u16, rows as u16) + packed_entries(tv.take(k as int)),
            }),
            packed_data(tv.take(k as int)).len() <= u64::MAX,
            pack@ == packed_data(tv.take(k as int)),
            forall|j: int| 0 <= j < k ==> #[trigger] cell_refusal(cols as nat, tv, j) is None,
        decreases tiles.len() - k,
    {
        let ghost header = index_header(cols as u16, rows as u16);
        let ghost entries = packed_entries(tv.take(k as int));
        let ghost data = packed_data(tv.take(k as int));
        proof {
            lemma_pack_step(tv, k as int);
        }
        match &tiles[k] {
            None => {
                assert(tv[k as int] is None);
                match packer.push_missing() {
                    Ok(_) => {},
                    Err(e) => {
                        return Err(e);
                    },
                }
                assert(cell_entry(tv, k as int) == (TileEntry { offset: 0, length: 0 }));
                assert(data + Seq::<u8>::empty() =~= data);
            },
            Some(bytes) => {
                assert(tv[k as int] == Some(bytes@));
                let name = match packer.next_cell() {
                    Some((c, r)) => tile_key(c, r),
                    None => String::new(),
                };
                match packer.push_tile(bytes.len(), name.as_str()) {
                    Ok(_) => {},
                    Err(e) => {
                        proof {
                            lemma_first_refusal(cols as nat, tv, k as int);
                        }
                        return Err(e);
                    },
                }
                assert(cell_entry(tv, k as int) == (TileEntry {
                    offset: data.len() as u64,
                    length: bytes@.len() as u32,
                }));
                pack.extend_from_slice(bytes.as_slice());
            },
        }
        assert(packer@.index =~= header + (entries + entry_bytes(cell_entry(tv, k as int))));
        k += 1;
    }
    proof {
        assert(tv.take(k as int) =~= tv);
    }
    Ok(PackedLevel { index: packer.into_index(), pack })
}

/// The level that reading back a packed grid gives.
pub open spec fn packed_level(level: u32, cols: u16, rows: u16, tiles: Seq<Option<Seq<u8>>>) -> LevelIndex {
    LevelIndex {
        level,
        cols: cols as u32,
        rows: rows as u32,
        entries: index_entries(packed_index(cols, rows, tiles)),
        pack_len: packed_data(tiles).len() as u64,
    }
}

proof fn lemma_header(cols: u16, rows: u16, rest: Seq<u8>)
    ensures
        index_header(cols, rows).len() == 16,
        (index_header(cols, rows) + rest).subrange(0, 8) == level_magic(),
        index_version(index_header(cols, rows) + rest) == 1,
        index_cols(index_header(cols, rows) + rest) == cols,
        index_rows(index_header(cols, rows) + rest) == rows,
{
    let h = index_header(cols, rows);
    let all = h + rest;
    lemma_u32_round_trip(LEVEL_VERSION);
    lemma_u16_round_trip(cols);
    lemma_u16_round_trip(rows);
    assert(all.subrange(0, 8) =~= level_magic());
    assert(all.subrange(8, 12) =~= u32_le(LEVEL_VERSION));
    assert(all.subrange(12, 14) =~= u16_le(cols));
    assert(all.subrange(14, 16) =~= u16_le(rows));
}

proof fn lemma_entries_len(tiles: Seq<Option<Seq<u8>>>)
    ensures
        packed_entries(tiles).len() == 12 * tiles.len(),
    decreases tiles.len(),
{
    if tiles.len() > 0 {
        lemma_entries_len(tiles.drop_last());
        let e = cell_entry(tiles, tiles.len() - 1);
        lemma_u64_round_trip(e.offset);
        lemma_u32_round_trip(e.length);
    }
}

proof fn lemma_data_prefix(tiles: Seq<Option<Seq<u8>>>, k: int)
    requires
        0 <= k <= tiles.len(),
    ensures
        packed_data(tiles.take(k)).len() <= packed_data(tiles).len(),
        packed_data(tiles).subrange(0, packed_data(tiles.take(k)).len() as int) == packed_data(
            tiles.take(k),
        ),
    decreases tiles.len(),
{
    if k == tiles.len() {
        assert(tiles.take(k) =~= tiles);
        assert(packed_data(tiles).subrange(0, packed_data(tiles).len() as int) =~= packed_data(
            tiles,
        ));
    } else {
        let init = tiles.drop_last();
        lemma_data_prefix(init, k);
        assert(init.take(k) =~= tiles.take(k));
        let n = packed_data(tiles.take(k)).len() as int;
        assert(packed_data(tiles).subrange(0, n) =~= packed_data(init).subrange(0, n));
    }
}

proof fn lemma_entry_at(tiles: Seq<Option<Seq<u8>>>, i: int)
    requires
        0 <= i < tiles.len(),
    ensures
        packed_entries(tiles).len() == 12 * tiles.len(),
        packed_entries(tiles).subrange(12 * i, 12 * i + 12) == entry_bytes(cell_entry(tiles, i)),
    decreases tiles.len(),
{
    let init = tiles.drop_last();
    lemma_entries_len(tiles);
    lemma_entries_len(init);
    let last = entry_bytes(cell_entry(tiles, tiles.len() - 1));
    if i == tiles.len() - 1 {
        assert(packed_entries(tiles).subrange(12 * i, 12 * i + 12) =~= last);
    } else {
        lemma_entry_at(init, i);
        assert(init.take(i) =~= tiles.take(i));
        assert(cell_entry(init, i) == cell_entry(tiles, i));
        assert(packed_entries(tiles).subrange(12 * i, 12 * i + 12) =~= packed_entries(
            init,
        ).subrange(12 * i, 12 * i + 12));
    }
}

proof fn lemma_entry_read(cols: u16, rows: u16, tiles: Seq<Option<Seq<u8>>>, i: int)
    requires
        0 <= i < tiles.len(),
    ensures
        index_entry(packed_index(cols, rows, tiles), i) == cell_entry(tiles, i),
{
    let idx = packed_index(cols, rows, tiles);
    let e = cell_entry(tiles, i);
    lemma_header(cols, rows, packed_entries(tiles));
    lemma_entry_at(tiles, i);
    lemma_u64_round_trip(e.offset);
    lemma_u32_round_trip(e.length);
    let eb = packed_entries(tiles).subrange(12 * i, 12 * i + 12);
    assert(idx.subrange(16 + 12 * i, 16 + 12 * i + 8) =~= eb.subrange(0, 8));
    assert(idx.subrange(16 + 12 * i + 8, 16 + 12 * i + 12) =~= eb.subrange(8, 12));
    assert(eb.subrange(0, 8) =~= u64_le(e.offset));
    assert(eb.subrange(8, 12) =~= u32_le(e.length));
}

proof fn lemma_cell_in_pack(cols: nat, tiles: Seq<Option<Seq<u8>>>, i: int)
    requires
        0 <= i < tiles.len(),
        packable(cols, tiles),
        packed_data(tiles).len() <= u64::MAX,
    ensures
        entry_in_pack(cell_entry(tiles, i), packed_data(tiles).len() as u64),
        tiles[i] matches Some(d) ==> packed_data(tiles).subrange(
            cell_entry(tiles, i).offset as int,
            cell_entry(tiles, i).offset + cell_entry(tiles, i).length,
        ) == d,
{
    assert(cell_refusal(cols, tiles, i) is None);
    lemma_data_prefix(tiles, i);
    lemma_data_prefix(tiles, i + 1);
    let next = tiles.take(i + 1);
    assert(next.drop_last() =~= tiles.take(i));
    assert(next.last() == tiles[i]);
    match tiles[i] {
        Some(d) => {
            let start = packed_data(tiles.take(i)).len() as int;
            assert(packed_data(next) =~= packed_data(tiles.take(i)) + d);
            assert(packed_data(tiles).subrange(start, start + d.len()) =~= packed_data(
                next,
            ).subrange(start, start + d.len()));
            assert(packed_data(next).subrange(start, start + d.len()) =~= d);
        },
        None => {},
    }
}

/// Packing and reading back: the index written for a grid is accepted
/// together with the pack written beside it; a cell with a non-empty tile
/// is found again, and its entry spans exactly the tile's bytes in the pack;
/// a cell without a tile is reported as missing.
pub proof fn lemma_pack_round_trip(
    level: u32,
    cols: u16,
    rows: u16,
    tiles: Seq<Option<Seq<u8>>>,
    col: u32,
    row: u32,
)
    requires
        cols >= 1,
        rows >= 1,
        tiles.len() == cols * rows,
        packable(cols as nat, tiles),
        packed_data(tiles).len() <= u64::MAX,
        col < cols,
        row < rows,
    ensures
        index_fault(packed_index(cols, rows, tiles), packed_data(tiles).len() as u64) is None,
        index_cols(packed_index(cols, rows, tiles)) == cols,
        index_rows(packed_index(cols, rows, tiles)) == rows,
        packed_level(level, cols, rows, tiles).wf(),
        match tiles[row * cols + col] {
            Some(d) => if d.len() == 0 {
                packed_level(level, cols, rows, tiles).lookup(col, row) is None
            } else {
                packed_level(level, cols, rows, tiles).lookup(col, row) matches Some(e)
                    && e.length == d.len() && e.offset + e.length <= packed_data(tiles).len()
                    && packed_data(tiles).subrange(e.offset as int, e.offset + e.length) == d
            },
            None => packed_level(level, cols, rows, tiles).lookup(col, row) is None,
        },
{
    let idx = packed_index(cols, rows, tiles);
    let data = packed_data(tiles);
    let pack_len = data.len() as u64;
    lemma_header(cols, rows, packed_entries(tiles));
    lemma_entries_len(tiles);
    assert forall|i: int| 0 <= i < cols * rows implies entry_in_pack(
        #[trigger] index_entry(idx, i),
        pack_len,
    ) by {
        lemma_entry_read(cols, rows, tiles, i);
        lemma_cell_in_pack(cols as nat, tiles, i);
    }
    let i = row * cols + col;
    assert(0 <= i < cols * rows) by (nonlinear_arith)
        requires
            col < cols,
            row < rows,
            i == row * cols + col,
    ;
    lemma_entry_read(cols, rows, tiles, i);
    lemma_cell_in_pack(cols as nat, tiles, i);
    assert(cell_refusal(cols as nat, tiles, i) is None);
    assert(index_entries(idx)[i] == index_entry(idx, i));
}

/// The name of a tile file without its ending: `None` for a file that ends
/// neither in `.jpg` nor in `.jpeg`.
pub open spec fn tile_stem_text(name: Seq<char>) -> Option<Seq<char>> {
    if name.len() >= 4 && name.subrange(name.len() - 4, name.len() as int) == ".jpg"@ {
        Some(name.subrange(0, name.len() - 4))
    } else if name.len() >= 5 && name.subrange(name.len() - 5, name.len() as int) == ".jpeg"@ {
        Some(name.subrange(0, name.len() - 5))
    } else {
        None
    }
}

/// The key under which a tile file is found: its name without the ending
/// `.jpg` or `.jpeg`. Other files are passed over with `None`.
pub fn tile_stem(name: &str) -> (r: Option<String>)
    ensures
        match r {
            Some(stem) => tile_stem_text(name@) == Some(stem@),
            None => tile_stem_text(name@) is None,
        },
{
    proof {
        reveal_strlit(".jpg");
        reveal_strlit(".jpeg");
    }
    let n = name.unicode_len();
    if has_suffix(name, ".jpg") {
        Some(String::from_str(name.substring_char(0, n - 4)))
    } else if has_suffix(name, ".jpeg") {
        Some(String::from_str(name.substring_char(0, n - 5)))
    } else {
        None
    }
}

} // verus!
