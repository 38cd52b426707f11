//! Single tiles and assembled regions for clients that bypass the caches.
//!
//! A region is a rectangle in the pixel coordinates of one level. It starts
//! out white; every tile that the host could read and decode is copied onto
//! it where the two intersect.

use vstd::prelude::*;
use vstd::string::*;

use crate::decoder::{decode_jpeg_bytes, tile_of, Decoded, Pixels, TileData};
use crate::error::{TileError, TileResult};

verus! {

/// The byte index of channel `ch` of the pixel at (`px`, `py`) in an RGB
/// image that is `w` pixels wide.
pub open spec fn pixel_index(w: int, px: int, py: int, ch: int) -> int {
    (py * w + px) * 3 + ch
}

/// A pixel of the image has its bytes inside the image.
pub proof fn lemma_pixel_index_bound(w: int, h: int, px: int, py: int, ch: int)
    requires
        0 <= px < w,
        0 <= py < h,
        0 <= ch < 3,
    ensures
        0 <= pixel_index(w, px, py, ch) < w * h * 3,
{
    assert((py * w + px) * 3 + ch < w * h * 3 && 0 <= (py * w + px) * 3 + ch)
        by (nonlinear_arith)
        requires
            0 <= px < w,
            0 <= py < h,
            0 <= ch < 3,
    ;
}

/// Different channels of different pixels lie at different bytes.
pub proof fn lemma_pixel_index_injective(
    w: int,
    px: int,
    py: int,
    ch: int,
    qx: int,
    qy: int,
    dh: int,
)
    requires
        0 <= px < w,
        0 <= qx < w,
        0 <= py,
        0 <= qy,
        0 <= ch < 3,
        0 <= dh < 3,
        pixel_index(w, px, py, ch) == pixel_index(w, qx, qy, dh),
    ensures
        px == qx && py == qy && ch == dh,
{
    assert(py * w + px == qy * w + qx && ch == dh);
    assert(py == qy && px == qx) by (nonlinear_arith)
        requires
            py * w + px == qy * w + qx,
            0 <= px < w,
            0 <= qx < w,
            0 <= py,
            0 <= qy,
    ;
}

/// `a / b` rounded towards negative infinity.
pub fn div_floor(a: i64, b: i64) -> (q: i64)
    requires
        b > 0,
    ensures
        q == a as int / b as int,
{
    if a >= 0 {
        a / b
    } else {
        let n: i128 = -(a as i128);
        let q: i128 = (n + (b as i128) - 1) / (b as i128);
        assert(-q == (a as int) / (b as int)) by (nonlinear_arith)
            requires
                n == -a,
                n > 0,
                b > 0,
                q == (n + b - 1) / (b as int),
        ;
        assert(q <= n) by (nonlinear_arith)
            requires
                n > 0,
                b > 0,
                q == (n + b - 1) / (b as int),
        ;
        (-q) as i64
    }
}

/// Makes one tile of a region of what the host got for it: `None` stands
/// for a tile that the pack lacks, and gives no tile; else the tile is made
/// of what the codec gave for the tile's bytes.
pub fn decode_tile_bytes(got: Option<Decoded>) -> (r: TileResult<Option<TileData>>)
    ensures
        match got {
            None => r matches Ok(None),
            Some(d) => match tile_of(d@) {
                Ok(px) => r matches Ok(Some(t)) && t@ == px && t@.wf(),
                Err(m) => r matches Err(TileError::Decode(s)) && s@ == m,
            },
        },
{
    match got {
        None => Ok(None),
        Some(d) => match decode_jpeg_bytes(d) {
            Ok(tile) => Ok(Some(tile)),
            Err(e) => Err(e),
        },
    }
}

/// What a region holds.
pub struct RegionView {
    /// The level whose pixels are assembled.
    pub level: u32,
    /// Edge of a tile in pixels.
    pub tile_size: int,
    /// Left edge of the region; may be negative.
    pub x: int,
    /// Top edge of the region; may be negative.
    pub y: int,
    /// Width in pixels.
    pub w: int,
    /// Height in pixels.
    pub h: int,
    /// The tiles to fetch lie in columns `c0..c1` and rows `r0..r1`.
    pub c0: int,
    pub c1: int,
    pub r0: int,
    pub r1: int,
    /// The tile that is handed out next.
    pub col: int,
    pub row: int,
    /// The pixels, row by row, three bytes each.
    pub out: Seq<u8>,
}

impl RegionView {
    /// The region has pixels, its buffer matches its size, and its tile
    /// ranges and cursor are within the limits of tile indices.
    pub open spec fn wf(self) -> bool {
        &&& self.tile_size > 0
        &&& 0 < self.w <= u32::MAX
        &&& 0 < self.h <= u32::MAX
        &&& self.x + self.w <= i64::MAX
        &&& self.y + self.h <= i64::MAX
        &&& self.out.len() == self.w * self.h * 3
        &&& 0 <= self.c0 && self.c1 <= 0x1_0000_0000
        &&& 0 <= self.r0 && self.r1 <= 0x1_0000_0000
        &&& self.w * self.h * 3 <= usize::MAX
        &&& 0 <= self.col
        &&& 0 <= self.row
    }
}

/// A region that is being assembled.
#[derive(Debug)]
pub struct Region {
    level: u32,
    tile_size: i64,
    x: i64,
    y: i64,
    w: u32,
    h: u32,
    c0: u64,
    c1: u64,
    r0: u64,
    r1: u64,
    col: u64,
    row: u64,
    out: Vec<u8>,
}

impl View for Region {
    type V = RegionView;

    closed spec fn view(&self) -> RegionView {
        RegionView {
            level: self.level,
            tile_size: self.tile_size as int,
            x: self.x as int,
            y: self.y as int,
            w: self.w as int,
            h: self.h as int,
            c0: self.c0 as int,
            c1: self.c1 as int,
            r0: self.r0 as int,
            r1: self.r1 as int,
            col: self.col as int,
            row: self.row as int,
            out: self.out@,
        }
    }
}

/// The message with which a request for a region is refused, or `None`.
pub open spec fn region_refusal(tile_size: i64, x: i64, y: i64, w: u32, h: u32) -> Option<Seq<char>> {
    if w == 0 || h == 0 {
        Some("Region width and height must be positive"@)
    } else if tile_size <= 0 {
        Some("tile_size must be positive"@)
    } else if w * h * 3 > usize::MAX {
        Some("Requested region is too large"@)
    } else if x + w > i64::MAX {
        Some("x+w overflow"@)
    } else if y + h > i64::MAX {
        Some("y+h overflow"@)
    } else {
        None
    }
}

/// The first tile index on an axis for a region that begins at `lo`; tiles
/// with a negative index do not exist.
pub open spec fn first_index(lo: int, tile_size: int) -> int {
    if lo <= 0 {
        0
    } else {
        lo / tile_size
    }
}

/// The tile index behind the last one on an axis for a region that ends
/// before `hi`; no tile has an index beyond 32 bits.
pub open spec fn end_index(hi: int, tile_size: int) -> int {
    if hi <= 0 {
        0
    } else if (hi - 1) / tile_size + 1 > 0x1_0000_0000 {
        0x1_0000_0000
    } else {
        (hi - 1) / tile_size + 1
    }
}

/// The pixel at (`px`, `py`) of the region lies on the tile at (`col`,
/// `row`).
pub open spec fn covered(v: RegionView, col: u32, row: u32, tile: Pixels, px: int, py: int) -> bool {
    &&& 0 <= v.x + px - col * v.tile_size < tile.width
    &&& 0 <= v.y + py - row * v.tile_size < tile.height
}

/// The byte of the tile that is shown at channel `ch` of the region's pixel
/// (`px`, `py`).
pub open spec fn tile_byte(v: RegionView, col: u32, row: u32, tile: Pixels, px: int, py: int, ch: int) -> u8 {
    tile.rgb[pixel_index(
        tile.width as int,
        v.x + px - col * v.tile_size,
        v.y + py - row * v.tile_size,
        ch,
    )]
}

/// The message with which a tile is refused, or `None` where it is copied.
/// A tile without pixels is accepted and changes nothing.
pub open spec fn blit_refusal(v: RegionView, col: u32, row: u32, tile: Pixels) -> Option<Seq<char>> {
    if tile.width == 0 || tile.height == 0 {
        None
    } else if !tile.wf() {
        Some("Tile pixels do not match the tile dimensions"@)
    } else if col * v.tile_size > i64::MAX {
        Some("tile_x overflow"@)
    } else if row * v.tile_size > i64::MAX {
        Some("tile_y overflow"@)
    } else {
        None
    }
}

fn axis_range(lo: i64, hi: i64, tile_size: i64) -> (r: (u64, u64))
    requires
        tile_size > 0,
        hi > i64::MIN,
    ensures
        r.0 == first_index(lo as int, tile_size as int),
        r.1 == end_index(hi as int, tile_size as int),
        r.1 <= 0x1_0000_0000,
{
    let first = div_floor(lo, tile_size);
    let last = div_floor(hi - 1, tile_size);
    proof {
        assert(lo <= 0 ==> lo as int / tile_size as int <= 0) by (nonlinear_arith)
            requires
                tile_size > 0,
        ;
        assert(lo > 0 ==> lo as int / tile_size as int >= 0) by (nonlinear_arith)
            requires
                tile_size > 0,
        ;
        assert(hi <= 0 ==> (hi - 1) / tile_size as int + 1 <= 0) by (nonlinear_arith)
            requires
                tile_size > 0,
        ;
        assert(hi > 0 ==> (hi - 1) / tile_size as int + 1 > 0) by (nonlinear_arith)
            requires
                tile_size > 0,
        ;
    }
    let start: u64 = if first < 0 {
        0
    } else {
        first as u64
    };
    let end: u64 = if last < 0 {
        0
    } else if last as u64 + 1 > 0x1_0000_0000 {
        0x1_0000_0000
    } else {
        last as u64 + 1
    };
    (start, end)
}

impl Region {
    /// A white region of `w` by `h` pixels whose top-left corner lies at
    /// (`x`, `y`) in the pixels of `level`.
    pub fn new(tile_size: i64, level: u32, x: i64, y: i64, w: u32, h: u32) -> (r: TileResult<Region>)
        ensures
            match r {
                Ok(region) => {
                    &&& region_refusal(tile_size, x, y, w, h) is None
                    &&& region@.wf()
                    &&& region@.level == level
                    &&& region@.tile_size == tile_size
                    &&& region@.x == x
                    &&& region@.y == y
                    &&& region@.w == w
                    &&& region@.h == h
                    &&& region@.c0 == first_index(x as int, tile_size as int)
                    &&& region@.c1 == end_index(x + w, tile_size as int)
                    &&& region@.r0 == first_index(y as int, tile_size as int)
                    &&& region@.r1 == end_index(y + h, tile_size as int)
                    &&& region@.col == region@.c0
                    &&& region@.row == region@.r0
                    &&& region@.out.len() == w * h * 3
                    &&& forall|i: int| 0 <= i < region@.out.len() ==> region@.out[i] == 255
                },
                Err(e) => e matches TileError::Validation(m) && region_refusal(tile_size, x, y, w, h)
                    == Some(m@),
            },
    {
        if w == 0 || h == 0 {
            return Err(
                TileError::Validation(String::from_str("Region width and height must be positive")),
            );
        }
        if tile_size <= 0 {
            return Err(TileError::Validation(String::from_str("tile_size must be positive")));
        }
        assert(w * h <= 0xffff_ffff * 0xffff_ffff) by (nonlinear_arith)
            requires
                w <= 0xffff_ffff,
                h <= 0xffff_ffff,
        ;
        let out_len: u128 = (w as u128) * (h as u128) * 3;
        if out_len > usize::MAX as u128 {
            return Err(TileError::Validation(String::from_str("Requested region is too large")));
        }
        if x > i64::MAX - w as i64 {
            return Err(TileError::Validation(String::from_str("x+w overflow")));
        }
        if y > i64::MAX - h as i64 {
            return Err(TileError::Validation(String::from_str("y+h overflow")));
        }
        let x2 = x + w as i64;
        let y2 = y + h as i64;
        let (c0, c1) = axis_range(x, x2, tile_size);
        let (r0, r1) = axis_range(y, y2, tile_size);
        let n = out_len as usize;
        let mut out: Vec<u8> = Vec::new();
        let mut i: usize = 0;
        while i < n
            invariant
                i <= n,
                out@.len() == i,
                forall|k: int| 0 <= k < i ==> out@[k] == 255,
            decreases n - i,
        {
            out.push(255);
            i += 1;
        }
        Ok(Region { level, tile_size, x, y, w, h, c0, c1, r0, r1, col: c0, row: r0, out })
    }

    /// The tile to fetch next, as (column, row), going through the rows from
    /// top to bottom and through each row from left to right; `None` when
    /// every tile that can touch the region has been handed out.
    pub fn next_tile(&mut self) -> (t: Option<(u32, u32)>)
        requires
            old(self)@.wf(),
        ensures
            final(self)@.wf(),
            match t {
                Some((col, row)) => {
                    &&& old(self)@.c0 <= old(self)@.col < old(self)@.c1
                    &&& old(self)@.row < old(self)@.r1
                    &&& col == old(self)@.col
                    &&& row == old(self)@.row
                    &&& final(self)@ == if col + 1 < old(self)@.c1 {
                        RegionView { col: col + 1, ..old(self)@ }
                    } else {
                        RegionView { col: old(self)@.c0, row: row + 1, ..old(self)@ }
                    }
                },
                None => {
                    &&& !(old(self)@.c0 <= old(self)@.col < old(self)@.c1 && old(self)@.row < old(self)@.r1)
                    &&& final(self)@ == old(self)@
                },
            },
    {
        if self.col < self.c0 || self.col >= self.c1 || self.row >= self.r1 {
            return None;
        }
        let col = self.col as u32;
        let row = self.row as u32;
        if self.col + 1 < self.c1 {
            self.col = self.col + 1;
        } else {
            self.col = self.c0;
            self.row = self.row + 1;
        }
        Some((col, row))
    }

    /// Copies the tile at (`col`, `row`) onto the region where the two
    /// intersect. Every pixel of the region that lies on the tile takes the
    /// tile's pixel; every other pixel stays as it is.
    pub fn blit(&mut self, col: u32, row: u32, tile: &TileData) -> (r: TileResult<()>)
        requires
            old(self)@.wf(),
        ensures
            final(self)@.wf(),
            final(self)@ == (RegionView { out: final(self)@.out, ..old(self)@ }),
            match r {
                Ok(_) => {
                    &&& blit_refusal(old(self)@, col, row, tile@) is None
                    &&& forall|px: int, py: int, ch: int|
                        0 <= px < old(self)@.w && 0 <= py < old(self)@.h && 0 <= ch < 3 ==> #[trigger] final(self)@.out[pixel_index(old(self)@.w, px, py, ch)] == if covered(
                            old(self)@,
                            col,
                            row,
                            tile@,
                            px,
                            py,
                        ) {
                            tile_byte(old(self)@, col, row, tile@, px, py, ch)
                        } else {
                            old(self)@.out[pixel_index(old(self)@.w, px, py, ch)]
                        }
                },
                Err(e) => {
                    &&& final(self)@ == old(self)@
                    &&& (e matches TileError::Validation(m) && blit_refusal(
                        old(self)@,
                        col,
                        row,
                        tile@,
                    ) == Some(m@))
                },
            },
    {
        let ghost v = self@;
        let ghost orig = self.out@;
        let ghost t = tile@;
        if tile.width == 0 || tile.height == 0 {
            return Ok(());
        }
        let tile_w: i128 = tile.width as i128;
        let tile_h: i128 = tile.height as i128;
        assert(tile.width * tile.height <= 0xffff_ffff * 0xffff_ffff) by (nonlinear_arith)
            requires
                tile.width <= 0xffff_ffff,
                tile.height <= 0xffff_ffff,
        ;
        let data = tile.as_slice();
        if data.len() as u128 != (tile.width as u128) * (tile.height as u128) * 3 {
            return Err(
                TileError::Validation(
                    String::from_str("Tile pixels do not match the tile dimensions"),
                ),
            );
        }
        assert(col * self.tile_size <= 0xffff_ffff * 0x7fff_ffff_ffff_ffff && col * self.tile_size
            >= 0 && row * self.tile_size <= 0xffff_ffff * 0x7fff_ffff_ffff_ffff && row
            * self.tile_size >= 0) by (nonlinear_arith)
            requires
                0 <= col <= 0xffff_ffff,
                0 <= row <= 0xffff_ffff,
                0 < self.tile_size <= 0x7fff_ffff_ffff_ffff,
        ;
        let tile_x: i128 = (col as i128) * (self.tile_size as i128);
        if tile_x > i64::MAX as i128 {
            return Err(TileError::Validation(String::from_str("tile_x overflow")));
        }
        let tile_y: i128 = (row as i128) * (self.tile_size as i128);
        if tile_y > i64::MAX as i128 {
            return Err(TileError::Validation(String::from_str("tile_y overflow")));
        }
        let x: i128 = self.x as i128;
        let y: i128 = self.y as i128;
        let x2: i128 = x + self.w as i128;
        let y2: i128 = y + self.h as i128;
        let left: i128 = if x > tile_x {
            x
        } else {
            tile_x
        };
        let top: i128 = if y > tile_y {
            y
        } else {
            tile_y
        };
        let right: i128 = if x2 < tile_x + tile_w {
            x2
        } else {
            tile_x + tile_w
        };
        let bottom: i128 = if y2 < tile_y + tile_h {
            y2
        } else {
            tile_y + tile_h
        };
        if left >= right || top >= bottom {
            return Ok(());
        }
        let copy_w: usize = (right - left) as usize;
        let copy_h: usize = (bottom - top) as usize;
        let src_x: usize = (left - tile_x) as usize;
        let src_y: usize = (top - tile_y) as usize;
        let dst_x: usize = (left - x) as usize;
        let dst_y: usize = (top - y) as usize;
        let out_w: usize = self.w as usize;
        let tw: usize = tile.width as usize;
        let data_len: usize = data.len();
        let mut ry: usize = 0;
        while ry < copy_h
            invariant
                ry <= copy_h,
                v.wf(),
                self@ == (RegionView { out: self@.out, ..v }),
                self.out@.len() == orig.len(),
                orig == v.out,
                t == tile@,
                data@ == t.rgb,
                data_len == t.width * t.height * 3,
                t.wf(),
                out_w == v.w,
                tw == t.width,
                dst_x + copy_w <= v.w,
                dst_y + copy_h <= v.h,
                src_x + copy_w <= t.width,
                src_y + copy_h <= t.height,
                forall|px: int, py: int, ch: int|
                    0 <= px < v.w && 0 <= py < v.h && 0 <= ch < 3 ==> #[trigger] self.out@[pixel_index(
                        v.w,
                        px,
                        py,
                        ch,
                    )] == if dst_x <= px < dst_x + copy_w && dst_y <= py < dst_y + ry {
                        t.rgb[pixel_index(
                            t.width as int,
                            src_x + px - dst_x,
                            src_y + py - dst_y,
                            ch,
                        )]
                    } else {
                        orig[pixel_index(v.w, px, py, ch)]
                    },
            decreases copy_h - ry,
        {
            let mut cx: usize = 0;
            while cx < copy_w
                invariant
                    cx <= copy_w,
                    ry < copy_h,
                    v.wf(),
                    self@ == (RegionView { out: self@.out, ..v }),
                    self.out@.len() == orig.len(),
                    orig == v.out,
                    t == tile@,
                    data@ == t.rgb,
                    data_len == t.width * t.height * 3,
                    t.wf(),
                    out_w == v.w,
                    tw == t.width,
                    dst_x + copy_w <= v.w,
                    dst_y + copy_h <= v.h,
                    src_x + copy_w <= t.width,
                    src_y + copy_h <= t.height,
                    forall|px: int, py: int, ch: int|
                        0 <= px < v.w && 0 <= py < v.h && 0 <= ch < 3 ==> #[trigger] self.out@[pixel_index(
                            v.w,
                            px,
                            py,
                            ch,
                        )] == if (dst_x <= px < dst_x + copy_w && dst_y <= py < dst_y + ry) || (py
                            == dst_y + ry && dst_x <= px < dst_x + cx) {
                            t.rgb[pixel_index(
                                t.width as int,
                                src_x + px - dst_x,
                                src_y + py - dst_y,
                                ch,
                            )]
                        } else {
                            orig[pixel_index(v.w, px, py, ch)]
                        },
                decreases copy_w - cx,
            {
                let ghost qx: int = dst_x + cx;
                let ghost qy: int = dst_y + ry;
                let ghost sx: int = src_x + cx;
                let ghost sy: int = src_y + ry;
                proof {
                    assert(pixel_index(v.w, qx, qy, 0) == ((dst_y + ry) * out_w + (dst_x + cx)) * 3);
                    assert(pixel_index(t.width as int, sx, sy, 0) == ((src_y + ry) * tw + (src_x
                        + cx)) * 3);
                    lemma_pixel_index_bound(v.w, v.h, qx, qy, 0);
                    lemma_pixel_index_bound(v.w, v.h, qx, qy, 2);
                    lemma_pixel_index_bound(t.width as int, t.height as int, sx, sy, 0);
                    lemma_pixel_index_bound(t.width as int, t.height as int, sx, sy, 2);
                    assert(0 <= (dst_y + ry) * out_w && 0 <= (src_y + ry) * tw) by (nonlinear_arith)
                        requires
                            0 <= dst_y + ry,
                            0 <= out_w,
                            0 <= src_y + ry,
                            0 <= tw,
                    ;
                }
                let dst: usize = ((dst_y + ry) * out_w + (dst_x + cx)) * 3;
                let src: usize = ((src_y + ry) * tw + (src_x + cx)) * 3;
                let ghost before = self.out@;
                let a = data[src];
                let b = data[src + 1];
                let c = data[src + 2];
                self.out.set(dst, a);
                self.out.set(dst + 1, b);
                self.out.set(dst + 2, c);
                proof {
                    assert(dst == pixel_index(v.w, qx, qy, 0));
                    assert(src == pixel_index(t.width as int, sx, sy, 0));
                    assert forall|px: int, py: int, ch: int|
                        0 <= px < v.w && 0 <= py < v.h && 0 <= ch < 3 implies #[trigger] self.out@[pixel_index(
                        v.w,
                        px,
                        py,
                        ch,
                    )] == if (dst_x <= px < dst_x + copy_w && dst_y <= py < dst_y + ry) || (py
                        == dst_y + ry && dst_x <= px < dst_x + cx + 1) {
                        t.rgb[pixel_index(
                            t.width as int,
                            src_x + px - dst_x,
                            src_y + py - dst_y,
                            ch,
                        )]
                    } else {
                        orig[pixel_index(v.w, px, py, ch)]
                    } by {
                        let i = pixel_index(v.w, px, py, ch);
                        lemma_pixel_index_bound(v.w, v.h, px, py, ch);
                        if i == dst || i == dst + 1 || i == dst + 2 {
                            lemma_pixel_index_injective(v.w, px, py, ch, qx, qy, i - dst);
                        } else {
                            assert(self.out@[i] == before[i]);
                            if px == qx && py == qy {
                                assert(i == dst + ch);
                            }
                        }
                    }
                }
                cx += 1;
            }
            ry += 1;
        }
        proof {
            assert forall|px: int, py: int, ch: int|
                0 <= px < v.w && 0 <= py < v.h && 0 <= ch < 3 implies #[trigger] self.out@[pixel_index(
                v.w,
                px,
                py,
                ch,
            )] == if covered(v, col, row, t, px, py) {
                tile_byte(v, col, row, t, px, py, ch)
            } else {
                orig[pixel_index(v.w, px, py, ch)]
            } by {
                assert(covered(v, col, row, t, px, py) <==> (dst_x <= px < dst_x + copy_w && dst_y
                    <= py < dst_y + copy_h));
            }
        }
        Ok(())
    }

    /// The pixels assembled so far.
    pub fn into_bytes(self) -> (out: Vec<u8>)
        ensures
            out@ == self@.out,
    {
        self.out
    }
}

} // verus!
