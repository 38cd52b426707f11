//! Viewport-based tile prefetching.
//!
//! The planner works in whole slide pixels. The host rounds the viewer's
//! coordinates and hands the zoom as the largest downsample it allows, the
//! reciprocal of the scale rounded down.

use vstd::prelude::*;

use crate::cache::TileCoord;
use crate::format::{find_info, LevelInfo, SlideMetadata};

verus! {

/// Viewport state for prefetch calculations.
#[derive(Debug, Clone, Copy)]
pub struct Viewport {
    /// Left edge in slide coordinates.
    pub x: i64,
    /// Top edge in slide coordinates.
    pub y: i64,
    /// Width in slide coordinates.
    pub width: i64,
    /// Height in slide coordinates.
    pub height: i64,
    /// The largest downsample that the zoom allows: the reciprocal of the
    /// scale, rounded down.
    pub max_downsample: u32,
    /// Horizontal velocity (pixels per second).
    pub velocity_x: i64,
    /// Vertical velocity (pixels per second).
    pub velocity_y: i64,
}

impl Viewport {
    pub fn new(
        x: i64,
        y: i64,
        width: i64,
        height: i64,
        max_downsample: u32,
        velocity_x: i64,
        velocity_y: i64,
    ) -> (v: Viewport)
        ensures
            v == (Viewport { x, y, width, height, max_downsample, velocity_x, velocity_y }),
    {
        Viewport { x, y, width, height, max_downsample, velocity_x, velocity_y }
    }
}

/// Configuration for prefetching behavior.
#[derive(Debug, Clone, Copy)]
pub struct PrefetchConfig {
    /// Number of tiles to prefetch ahead in movement direction.
    pub tiles_ahead: u32,
    /// Number of tiles to prefetch in perpendicular directions.
    pub tiles_around: u32,
    /// Whether to prefetch adjacent pyramid levels.
    pub prefetch_levels: bool,
    /// Minimum velocity to trigger directional prefetch.
    pub min_velocity: i64,
}

impl Default for PrefetchConfig {
    fn default() -> (c: PrefetchConfig)
        ensures
            c == (PrefetchConfig {
                tiles_ahead: 2,
                tiles_around: 1,
                prefetch_levels: true,
                min_velocity: 50,
            }),
    {
        PrefetchConfig { tiles_ahead: 2, tiles_around: 1, prefetch_levels: true, min_velocity: 50 }
    }
}

/// A rectangle in slide coordinates, its bounds given in units of
/// `1/den` pixel. The right and bottom bounds lie outside.
pub struct Rect {
    pub left: int,
    pub top: int,
    pub right: int,
    pub bottom: int,
    pub den: int,
}

/// The greatest level number among the levels whose downsample is at most
/// `max_downsample`, or `None` where no level qualifies.
pub open spec fn best_level(levels: Seq<LevelInfo>, max_downsample: u32) -> Option<u32>
    decreases levels.len(),
{
    if levels.len() == 0 {
        None
    } else {
        let rest = best_level(levels.drop_last(), max_downsample);
        let l = levels.last();
        if l.downsample <= max_downsample && (rest is None || rest.unwrap() <= l.level) {
            Some(l.level)
        } else {
            rest
        }
    }
}

/// The level to show at a zoom: the best level, or level 0 where none
/// qualifies.
pub open spec fn level_for(levels: Seq<LevelInfo>, max_downsample: u32) -> u32 {
    match best_level(levels, max_downsample) {
        Some(l) => l,
        None => 0,
    }
}

/// The first tile index on an axis whose tile reaches beyond `lo`, never
/// negative: `lo / unit` rounded down.
pub open spec fn span_start(lo: int, unit: int) -> int {
    if lo <= 0 {
        0
    } else {
        lo / unit
    }
}

/// The tile index on an axis behind the last tile that begins before `hi`,
/// at most `count`: `hi / unit` rounded up.
pub open spec fn span_end(hi: int, unit: int, count: int) -> int {
    let e = if hi <= 0 {
        0
    } else {
        (hi + unit - 1) / unit
    };
    if e < count {
        e
    } else {
        count
    }
}

/// The tiles of one row from column `c0` up to, not including, `c1`.
pub open spec fn grid_row(level: u32, row: int, c0: int, c1: int) -> Seq<TileCoord>
    decreases c1 - c0,
{
    if c0 >= c1 {
        Seq::empty()
    } else {
        grid_row(level, row, c0, c1 - 1).push(
            TileCoord { level, col: (c1 - 1) as u32, row: row as u32 },
        )
    }
}

/// The tiles of the rows from `r0` up to, not including, `r1`, each from
/// column `c0` up to `c1`: row by row, each row from left to right.
pub open spec fn grid(level: u32, c0: int, c1: int, r0: int, r1: int) -> Seq<TileCoord>
    decreases r1 - r0,
{
    if r0 >= r1 || c0 >= c1 {
        Seq::empty()
    } else {
        grid(level, c0, c1, r0, r1 - 1) + grid_row(level, r1 - 1, c0, c1)
    }
}

/// The tiles of a level that intersect a rectangle. A tile of the level
/// spans `tile_size * downsample` slide pixels.
pub open spec fn tiles_in(tile_size: u32, info: LevelInfo, r: Rect) -> Seq<TileCoord> {
    let unit = r.den * (tile_size * info.downsample);
    if unit <= 0 {
        Seq::empty()
    } else {
        grid(
            info.level,
            span_start(r.left, unit),
            span_end(r.right, unit, info.cols as int),
            span_start(r.top, unit),
            span_end(r.bottom, unit, info.rows as int),
        )
    }
}

/// The rectangle of the viewport.
pub open spec fn visible_rect(v: Viewport) -> Rect {
    Rect { left: v.x as int, top: v.y as int, right: v.x + v.width, bottom: v.y + v.height, den: 1 }
}

/// The box in the middle of the viewport, a quarter of its width and
/// height, in eighths of a pixel.
pub open spec fn center_rect(v: Viewport) -> Rect {
    Rect {
        left: 8 * v.x + 3 * v.width,
        top: 8 * v.y + 3 * v.height,
        right: 8 * v.x + 5 * v.width,
        bottom: 8 * v.y + 5 * v.height,
        den: 8,
    }
}

/// The direction of a movement that is at least `min_velocity` fast: 1, -1,
/// or 0 for an axis that does not move.
pub open spec fn direction(velocity: i64, min_velocity: i64) -> int {
    if velocity > 0 && velocity >= min_velocity {
        1
    } else if velocity < 0 && -velocity >= min_velocity {
        -1
    } else {
        0
    }
}

/// The lesser of two integers.
pub open spec fn least(a: int, b: int) -> int {
    if a < b {
        a
    } else {
        b
    }
}

/// The greater of two integers.
pub open spec fn greatest(a: int, b: int) -> int {
    if a < b {
        b
    } else {
        a
    }
}

/// The viewport with a ring of `tiles_around` tile widths around it and,
/// on a moving axis, `tiles_ahead` tile widths more in the direction of the
/// movement.
pub open spec fn extended_rect(c: PrefetchConfig, v: Viewport, tile_size: u32) -> Rect {
    let base = tile_size * c.tiles_around;
    let ahead = tile_size * c.tiles_ahead;
    let ex = direction(v.velocity_x, c.min_velocity) * ahead;
    let ey = direction(v.velocity_y, c.min_velocity) * ahead;
    Rect {
        left: v.x - base + least(ex, 0),
        top: v.y - base + least(ey, 0),
        right: v.x + v.width + base + greatest(ex, 0),
        bottom: v.y + v.height + base + greatest(ey, 0),
        den: 1,
    }
}

/// `acc` followed by those elements of `s` that occur neither in `acc` nor
/// earlier in `s`.
pub open spec fn append_new(acc: Seq<TileCoord>, s: Seq<TileCoord>) -> Seq<TileCoord>
    decreases s.len(),
{
    if s.len() == 0 {
        acc
    } else {
        let a = append_new(acc, s.drop_last());
        if a.contains(s.last()) {
            a
        } else {
            a.push(s.last())
        }
    }
}

/// The tiles visible in the viewport, at the level for its zoom.
pub open spec fn visible_of(m: SlideMetadata, v: Viewport) -> Seq<TileCoord> {
    match find_info(m.levels@, level_for(m.levels@, v.max_downsample)) {
        Some(info) => tiles_in(m.tile_size, info, visible_rect(v)),
        None => Seq::empty(),
    }
}

/// The tiles of the level above, with lower resolution, under the whole
/// viewport; none where adjacent levels are switched off or there is no
/// such level.
pub open spec fn upper_of(c: PrefetchConfig, m: SlideMetadata, v: Viewport) -> Seq<TileCoord> {
    let level = level_for(m.levels@, v.max_downsample);
    if c.prefetch_levels && level < u32::MAX {
        match find_info(m.levels@, (level + 1) as u32) {
            Some(up) => tiles_in(m.tile_size, up, visible_rect(v)),
            None => Seq::empty(),
        }
    } else {
        Seq::empty()
    }
}

/// The tiles of the level below, with higher resolution, under the middle
/// of the viewport.
pub open spec fn lower_of(c: PrefetchConfig, m: SlideMetadata, v: Viewport) -> Seq<TileCoord> {
    let level = level_for(m.levels@, v.max_downsample);
    if c.prefetch_levels && level > 0 {
        match find_info(m.levels@, (level - 1) as u32) {
            Some(down) => tiles_in(m.tile_size, down, center_rect(v)),
            None => Seq::empty(),
        }
    } else {
        Seq::empty()
    }
}

/// The tiles worth having for a viewport, most urgent first: the visible
/// tiles, those of the extended viewport, then those of the adjacent
/// levels; each tile once.
pub open spec fn candidates_of(c: PrefetchConfig, m: SlideMetadata, v: Viewport) -> Seq<TileCoord> {
    match find_info(m.levels@, level_for(m.levels@, v.max_downsample)) {
        Some(info) => append_new(
            append_new(
                append_new(
                    append_new(Seq::empty(), visible_of(m, v)),
                    tiles_in(m.tile_size, info, extended_rect(c, v, m.tile_size)),
                ),
                upper_of(c, m, v),
            ),
            lower_of(c, m, v),
        ),
        None => Seq::empty(),
    }
}

/// Those of `tiles` for which the answer is `false`, in their order.
pub open spec fn kept(tiles: Seq<TileCoord>, answers: Seq<bool>) -> Seq<TileCoord>
    decreases tiles.len(),
{
    if tiles.len() == 0 {
        Seq::empty()
    } else if answers[tiles.len() - 1] {
        kept(tiles.drop_last(), answers.take(tiles.len() - 1))
    } else {
        kept(tiles.drop_last(), answers.take(tiles.len() - 1)).push(tiles.last())
    }
}

/// Appending new tiles keeps a list free of duplicates, and the result
/// holds exactly the tiles of both lists.
pub proof fn lemma_append_new(acc: Seq<TileCoord>, s: Seq<TileCoord>)
    requires
        acc.no_duplicates(),
    ensures
        append_new(acc, s).no_duplicates(),
        forall|c: TileCoord|
            #[trigger] append_new(acc, s).contains(c) <==> acc.contains(c) || s.contains(c),
    decreases s.len(),
{
    if s.len() > 0 {
        let init = s.drop_last();
        let a = append_new(acc, init);
        let x = s.last();
        lemma_append_new(acc, init);
        let out = append_new(acc, s);
        assert forall|c: TileCoord| #[trigger] out.contains(c) <==> acc.contains(c) || s.contains(
            c,
        ) by {
            if out.contains(c) {
                let k = choose|k: int| 0 <= k < out.len() && out[k] == c;
                if k < a.len() {
                    assert(a[k] == c);
                    assert(a.contains(c));
                    if init.contains(c) {
                        let j = choose|j: int| 0 <= j < init.len() && init[j] == c;
                        assert(s[j] == c);
                    }
                } else {
                    assert(s[s.len() - 1] == c);
                }
            }
            if acc.contains(c) {
                assert(a.contains(c));
                let k = choose|k: int| 0 <= k < a.len() && a[k] == c;
                assert(out[k] == c);
            }
            if s.contains(c) {
                let j = choose|j: int| 0 <= j < s.len() && s[j] == c;
                if j < init.len() {
                    assert(init[j] == c);
                    assert(init.contains(c));
                    assert(a.contains(c));
                    let k = choose|k: int| 0 <= k < a.len() && a[k] == c;
                    assert(out[k] == c);
                } else if a.contains(c) {
                } else {
                    assert(out[out.len() - 1] == c);
                }
            }
        }
        if !a.contains(x) {
            assert forall|i: int, j: int| 0 <= i < out.len() && 0 <= j < out.len() && i
                != j implies out[i] != out[j] by {
                if i < a.len() && j < a.len() {
                    assert(a[i] != a[j]);
                } else if i < a.len() {
                    assert(a[i] == out[i]);
                    assert(a.contains(out[i]));
                } else {
                    assert(a[j] == out[j]);
                    assert(a.contains(out[j]));
                }
            }
        }
    }
}

/// The candidates for a viewport hold each tile once.
pub proof fn lemma_candidates_distinct(c: PrefetchConfig, m: SlideMetadata, v: Viewport)
    ensures
        candidates_of(c, m, v).no_duplicates(),
{
    match find_info(m.levels@, level_for(m.levels@, v.max_downsample)) {
        Some(info) => {
            let a = append_new(Seq::empty(), visible_of(m, v));
            let b = append_new(a, tiles_in(m.tile_size, info, extended_rect(c, v, m.tile_size)));
            let d = append_new(b, upper_of(c, m, v));
            lemma_append_new(Seq::empty(), visible_of(m, v));
            lemma_append_new(a, tiles_in(m.tile_size, info, extended_rect(c, v, m.tile_size)));
            lemma_append_new(b, upper_of(c, m, v));
            lemma_append_new(d, lower_of(c, m, v));
        },
        None => {},
    }
}

/// `answers` are answers that `cached` gave for `tiles`, one for each.
pub open spec fn answered<F: Fn(&TileCoord) -> bool>(
    cached: F,
    tiles: Seq<TileCoord>,
    answers: Seq<bool>,
) -> bool {
    &&& answers.len() == tiles.len()
    &&& forall|k: int|
        0 <= k < tiles.len() ==> call_ensures(cached, (&tiles[k],), #[trigger] answers[k])
}

/// The level chosen for a zoom is the greatest qualifying level number, and
/// level 0 where no level qualifies.
pub proof fn lemma_level_for(levels: Seq<LevelInfo>, max_downsample: u32)
    ensures
        forall|i: int|
            0 <= i < levels.len() && (#[trigger] levels[i]).downsample <= max_downsample
                ==> levels[i].level <= level_for(levels, max_downsample) && best_level(
                levels,
                max_downsample,
            ) is Some,
        best_level(levels, max_downsample) is Some ==> exists|i: int|
            0 <= i < levels.len() && (#[trigger] levels[i]).downsample <= max_downsample
                && levels[i].level == level_for(levels, max_downsample),
        best_level(levels, max_downsample) is None ==> level_for(levels, max_downsample) == 0,
    decreases levels.len(),
{
    if levels.len() > 0 {
        let init = levels.drop_last();
        lemma_level_for(init, max_downsample);
        let l = levels.last();
        assert forall|i: int|
            0 <= i < levels.len() && (#[trigger] levels[i]).downsample
                <= max_downsample implies levels[i].level <= level_for(levels, max_downsample)
            && best_level(levels, max_downsample) is Some by {
            if i < levels.len() - 1 {
                assert(init[i] == levels[i]);
            }
        }
        if best_level(levels, max_downsample) is Some {
            if l.downsample <= max_downsample && (best_level(init, max_downsample) is None
                || best_level(init, max_downsample).unwrap() <= l.level) {
                assert(levels[levels.len() - 1] == l);
            } else {
                let i = choose|i: int|
                    0 <= i < init.len() && (#[trigger] init[i]).downsample <= max_downsample
                        && init[i].level == level_for(init, max_downsample);
                assert(levels[i] == init[i]);
            }
        }
    }
}

fn axis_span(lo: i128, hi: i128, unit: u128, count: u32) -> (r: (u32, u32))
    requires
        unit >= 1,
        unit <= 0x10_0000_0000_0000_0000,
        -0x100_0000_0000_0000_0000 <= lo <= 0x100_0000_0000_0000_0000,
        -0x100_0000_0000_0000_0000 <= hi <= 0x100_0000_0000_0000_0000,
    ensures
        r.0 == least(span_start(lo as int, unit as int), u32::MAX as int),
        r.1 == span_end(hi as int, unit as int, count as int),
{
    let start: u32 = if lo <= 0 {
        0
    } else {
        let q = (lo as u128) / unit;
        if q > u32::MAX as u128 {
            u32::MAX
        } else {
            q as u32
        }
    };
    let end: u32 = if hi <= 0 {
        0
    } else {
        let q = ((hi as u128) + unit - 1) / unit;
        if q < count as u128 {
            q as u32
        } else {
            count
        }
    };
    (start, end)
}

/// The tiles of the rows from `r0` up to, not including, `r1`, each from
/// column `c0` up to `c1`: row by row, each row from left to right.
pub fn grid_tiles(level: u32, c0: u32, c1: u32, r0: u32, r1: u32) -> (tiles: Vec<TileCoord>)
    ensures
        tiles@ == grid(level, c0 as int, c1 as int, r0 as int, r1 as int),
{
    let mut tiles: Vec<TileCoord> = Vec::new();
    if c0 >= c1 || r0 >= r1 {
        return tiles;
    }
    let mut row: u32 = r0;
    while row < r1
        invariant
            r0 <= row <= r1,
            c0 < c1,
            tiles@ == grid(level, c0 as int, c1 as int, r0 as int, row as int),
        decreases r1 - row,
    {
        let ghost done = tiles@;
        let mut col: u32 = c0;
        while col < c1
            invariant
                c0 <= col <= c1,
                row < r1,
                tiles@ == done + grid_row(level, row as int, c0 as int, col as int),
            decreases c1 - col,
        {
            tiles.push(TileCoord::new(level, col, row));
            assert(tiles@ =~= done + grid_row(level, row as int, c0 as int, col + 1));
            col += 1;
        }
        row += 1;
    }
    tiles
}

/// Prefetch calculator.
#[derive(Debug)]
pub struct PrefetchCalculator {
    config: PrefetchConfig,
}

struct Bounds {
    left: i128,
    top: i128,
    right: i128,
    bottom: i128,
    den: u8,
}

impl Bounds {
    spec fn rect(self) -> Rect {
        Rect {
            left: self.left as int,
            top: self.top as int,
            right: self.right as int,
            bottom: self.bottom as int,
            den: self.den as int,
        }
    }

    spec fn bounded(self) -> bool {
        &&& 1 <= self.den <= 8
        &&& -0x100_0000_0000_0000_0000 <= self.left <= 0x100_0000_0000_0000_0000
        &&& -0x100_0000_0000_0000_0000 <= self.top <= 0x100_0000_0000_0000_0000
        &&& -0x100_0000_0000_0000_0000 <= self.right <= 0x100_0000_0000_0000_0000
        &&& -0x100_0000_0000_0000_0000 <= self.bottom <= 0x100_0000_0000_0000_0000
    }
}

fn visible_bounds(v: &Viewport) -> (b: Bounds)
    ensures
        b.bounded(),
        b.rect() == visible_rect(*v),
{
    Bounds {
        left: v.x as i128,
        top: v.y as i128,
        right: v.x as i128 + v.width as i128,
        bottom: v.y as i128 + v.height as i128,
        den: 1,
    }
}

fn center_bounds(v: &Viewport) -> (b: Bounds)
    ensures
        b.bounded(),
        b.rect() == center_rect(*v),
{
    Bounds {
        left: 8 * (v.x as i128) + 3 * (v.width as i128),
        top: 8 * (v.y as i128) + 3 * (v.height as i128),
        right: 8 * (v.x as i128) + 5 * (v.width as i128),
        bottom: 8 * (v.y as i128) + 5 * (v.height as i128),
        den: 8,
    }
}

fn axis_direction(velocity: i64, min_velocity: i64) -> (d: i128)
    ensures
        d == direction(velocity, min_velocity),
{
    if velocity > 0 && velocity >= min_velocity {
        1
    } else if velocity < 0 && -(velocity as i128) >= min_velocity as i128 {
        -1
    } else {
        0
    }
}

fn append_new_tiles(out: &mut Vec<TileCoord>, more: &Vec<TileCoord>)
    ensures
        final(out)@ == append_new(old(out)@, more@),
{
    let mut k: usize = 0;
    assert(more@.take(0) =~= Seq::<TileCoord>::empty());
    while k < more.len()
        invariant
            k <= more.len(),
            out@ == append_new(old(out)@, more@.take(k as int)),
        decreases more.len() - k,
    {
        let coord = more[k];
        proof {
            let prefix = more@.take(k + 1);
            assert(prefix.drop_last() =~= more@.take(k as int));
            assert(prefix.last() == coord);
        }
        let mut found = false;
        let mut j: usize = 0;
        while j < out.len() && !found
            invariant
                j <= out.len(),
                found ==> out@.contains(coord),
                !found ==> forall|i: int| 0 <= i < j ==> out@[i] != coord,
            decreases out.len() - j + (if found { 0int } else { 1int }),
        {
            if out[j] == coord {
                found = true;
                assert(out@[j as int] == coord);
            } else {
                j += 1;
            }
        }
        if !found {
            out.push(coord);
        }
        k += 1;
    }
    assert(more@.take(k as int) =~= more@);
}

impl PrefetchCalculator {
    pub fn new(config: PrefetchConfig) -> (c: PrefetchCalculator)
        ensures
            c.config() == config,
    {
        PrefetchCalculator { config }
    }

    /// The configuration that the calculator was made with.
    pub closed spec fn config(&self) -> PrefetchConfig {
        self.config
    }

    /// Get the best pyramid level for a zoom given as the largest downsample
    /// it allows: the level with the highest number among those whose
    /// downsample is not greater, level 0 where there is none.
    pub fn level_for_scale(&self, metadata: &SlideMetadata, max_downsample: u32) -> (level: u32)
        ensures
            level == level_for(metadata.levels@, max_downsample),
    {
        let mut best: Option<u32> = None;
        let mut i: usize = 0;
        let ghost levels = metadata.levels@;
        assert(levels.take(0) =~= Seq::<LevelInfo>::empty());
        while i < metadata.levels.len()
            invariant
                i <= metadata.levels.len(),
                levels == metadata.levels@,
                best == best_level(levels.take(i as int), max_downsample),
            decreases metadata.levels.len() - i,
        {
            let l = metadata.levels[i];
            proof {
                let prefix = levels.take(i + 1);
                assert(prefix.drop_last() =~= levels.take(i as int));
                assert(prefix.last() == l);
            }
            if l.downsample <= max_downsample {
                match best {
                    Some(b) => {
                        if b <= l.level {
                            best = Some(l.level);
                        }
                    },
                    None => {
                        best = Some(l.level);
                    },
                }
            }
            i += 1;
        }
        assert(levels.take(i as int) =~= levels);
        match best {
            Some(b) => b,
            None => 0,
        }
    }

    fn extended_viewport(&self, viewport: &Viewport, tile_size: u32) -> (b: Bounds)
        ensures
            b.bounded(),
            b.rect() == extended_rect(self.config, *viewport, tile_size),
    {
        assert(tile_size * self.config.tiles_around <= 0xffff_ffff * 0xffff_ffff)
            by (nonlinear_arith)
            requires
                tile_size <= 0xffff_ffff,
                self.config.tiles_around <= 0xffff_ffff,
        ;
        assert(tile_size * self.config.tiles_ahead <= 0xffff_ffff * 0xffff_ffff)
            by (nonlinear_arith)
            requires
                tile_size <= 0xffff_ffff,
                self.config.tiles_ahead <= 0xffff_ffff,
        ;
        let base: i128 = (tile_size as i128) * (self.config.tiles_around as i128);
        let ahead: i128 = (tile_size as i128) * (self.config.tiles_ahead as i128);
        let dx = axis_direction(viewport.velocity_x, self.config.min_velocity);
        let dy = axis_direction(viewport.velocity_y, self.config.min_velocity);
        let ex: i128 = if dx == 1 {
            ahead
        } else if dx == -1 {
            -ahead
        } else {
            0
        };
        let ey: i128 = if dy == 1 {
            ahead
        } else if dy == -1 {
            -ahead
        } else {
            0
        };
        proof {
            assert(ex == dx * ahead) by (nonlinear_arith)
                requires
                    (dx == 1 && ex == ahead) || (dx == -1 && ex == -ahead) || (dx == 0 && ex == 0),
            ;
            assert(ey == dy * ahead) by (nonlinear_arith)
                requires
                    (dy == 1 && ey == ahead) || (dy == -1 && ey == -ahead) || (dy == 0 && ey == 0),
            ;
        }
        let ex_lo: i128 = if ex < 0 {
            ex
        } else {
            0
        };
        let ex_hi: i128 = if ex < 0 {
            0
        } else {
            ex
        };
        let ey_lo: i128 = if ey < 0 {
            ey
        } else {
            0
        };
        let ey_hi: i128 = if ey < 0 {
            0
        } else {
            ey
        };
        Bounds {
            left: viewport.x as i128 - base + ex_lo,
            top: viewport.y as i128 - base + ey_lo,
            right: viewport.x as i128 + viewport.width as i128 + base + ex_hi,
            bottom: viewport.y as i128 + viewport.height as i128 + base + ey_hi,
            den: 1,
        }
    }

    fn tiles_in_rect(&self, tile_size: u32, level_info: &LevelInfo, r: &Bounds) -> (tiles: Vec<
        TileCoord,
    >)
        requires
            r.bounded(),
        ensures
            tiles@ == tiles_in(tile_size, *level_info, r.rect()),
    {
        assert(tile_size * level_info.downsample <= 0xffff_ffff * 0xffff_ffff) by (nonlinear_arith)
            requires
                tile_size <= 0xffff_ffff,
                level_info.downsample <= 0xffff_ffff,
        ;
        let level_tile_size: u128 = (tile_size as u128) * (level_info.downsample as u128);
        assert(r.den * (tile_size * level_info.downsample) <= 8 * (0xffff_ffff * 0xffff_ffff))
            by (nonlinear_arith)
            requires
                1 <= r.den <= 8,
                0 <= tile_size * level_info.downsample <= 0xffff_ffff * 0xffff_ffff,
        ;
        let unit: u128 = (r.den as u128) * level_tile_size;
        if unit == 0 {
            return Vec::new();
        }
        let (col_start, col_end) = axis_span(r.left, r.right, unit, level_info.cols);
        let (row_start, row_end) = axis_span(r.top, r.bottom, unit, level_info.rows);
        if col_start >= col_end || row_start >= row_end {
            return Vec::new();
        }
        grid_tiles(level_info.level, col_start, col_end, row_start, row_end)
    }

    /// Calculate tiles visible in the current viewport, row by row.
    pub fn visible_tiles(&self, metadata: &SlideMetadata, viewport: &Viewport) -> (tiles: Vec<
        TileCoord,
    >)
        ensures
            tiles@ == visible_of(*metadata, *viewport),
    {
        let level = self.level_for_scale(metadata, viewport.max_downsample);
        match metadata.get_level(level) {
            Some(level_info) => self.tiles_in_rect(
                metadata.tile_size,
                level_info,
                &visible_bounds(viewport),
            ),
            None => Vec::new(),
        }
    }

    /// The tiles worth having for a viewport, most urgent first and each
    /// once, whether cached or not.
    pub fn prefetch_candidates(&self, metadata: &SlideMetadata, viewport: &Viewport) -> (tiles: Vec<
        TileCoord,
    >)
        ensures
            tiles@ == candidates_of(self.config(), *metadata, *viewport),
    {
        let mut tiles: Vec<TileCoord> = Vec::new();
        let level = self.level_for_scale(metadata, viewport.max_downsample);
        let level_info = match metadata.get_level(level) {
            Some(l) => l,
            None => {
                return tiles;
            },
        };
        let visible = self.visible_tiles(metadata, viewport);
        let ext = self.extended_viewport(viewport, metadata.tile_size);
        let extended_tiles = self.tiles_in_rect(metadata.tile_size, level_info, &ext);
        append_new_tiles(&mut tiles, &visible);
        append_new_tiles(&mut tiles, &extended_tiles);
        let mut up_tiles: Vec<TileCoord> = Vec::new();
        let mut down_tiles: Vec<TileCoord> = Vec::new();
        if self.config.prefetch_levels {
            if level < u32::MAX {
                match metadata.get_level(level + 1) {
                    Some(up_level) => {
                        up_tiles =
                        self.tiles_in_rect(
                            metadata.tile_size,
                            up_level,
                            &visible_bounds(viewport),
                        );
                    },
                    None => {},
                }
            }
            if level > 0 {
                match metadata.get_level(level - 1) {
                    Some(down_level) => {
                        down_tiles =
                        self.tiles_in_rect(
                            metadata.tile_size,
                            down_level,
                            &center_bounds(viewport),
                        );
                    },
                    None => {},
                }
            }
        }
        append_new_tiles(&mut tiles, &up_tiles);
        append_new_tiles(&mut tiles, &down_tiles);
        tiles
    }

    /// Calculate tiles to prefetch based on viewport and velocity: the
    /// candidates for which `cached` answers `false`, most urgent first.
    /// `cached` is asked once for each candidate, in their order.
    pub fn prefetch_tiles<F: Fn(&TileCoord) -> bool>(
        &self,
        metadata: &SlideMetadata,
        viewport: &Viewport,
        cached: &F,
    ) -> (tiles: Vec<TileCoord>)
        requires
            forall|c: TileCoord| call_requires(*cached, (&c,)),
        ensures
            exists|answers: Seq<bool>|
                #[trigger] answered(
                    *cached,
                    candidates_of(self.config(), *metadata, *viewport),
                    answers,
                ) && tiles@ == kept(candidates_of(self.config(), *metadata, *viewport), answers),
    {
        let all = self.prefetch_candidates(metadata, viewport);
        let mut tiles: Vec<TileCoord> = Vec::new();
        let ghost mut answers: Seq<bool> = Seq::empty();
        let mut k: usize = 0;
        assert(all@.take(0) =~= Seq::<TileCoord>::empty());
        while k < all.len()
            invariant
                k <= all.len(),
                forall|c: TileCoord| call_requires(*cached, (&c,)),
                answers.len() == k,
                forall|i: int|
                    0 <= i < k ==> call_ensures(*cached, (&all@[i],), #[trigger] answers[i]),
                tiles@ == kept(all@.take(k as int), answers),
            decreases all.len() - k,
        {
            let coord = all[k];
            let is_cached = cached(&coord);
            proof {
                let prefix = all@.take(k + 1);
                let grown = answers.push(is_cached);
                assert(prefix.drop_last() =~= all@.take(k as int));
                assert(grown.take(k as int) =~= answers);
                assert(prefix.last() == coord);
                answers = grown;
            }
            if !is_cached {
                tiles.push(coord);
            }
            k += 1;
        }
        assert(all@.take(k as int) =~= all@);
        assert(answered(*cached, all@, answers));
        tiles
    }
}

} // verus!
