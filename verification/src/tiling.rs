use crate::error::NsArchiveError;
use vstd::arithmetic::div_mod::lemma_fundamental_div_mod;
use vstd::prelude::*;

verus! {

/// Unsigned canvas or layer dimensions, in pixels.
#[derive(Debug, Clone, Copy, PartialEq, Eq, Structural)]
pub struct Size {
    pub width: u32,
    pub height: u32,
}

/// Per-document tiling grid, derived once from the canvas size and the tile
/// edge length: the number of tile columns and rows, and how far the grid
/// overhangs the canvas on the last column and row.
#[derive(Debug, Clone, Copy, PartialEq, Eq, Structural)]
pub struct TilingMeta {
    pub columns: u32,
    pub rows: u32,
    pub diff: Size,
    pub tile_size: u32,
}

/// Number of tiles needed to cover `extent` pixels with tiles of `tile`
/// pixels: the quotient, plus one more tile when it does not divide evenly.
pub open spec fn spec_tile_count(extent: int, tile: int) -> int {
    extent / tile + if extent % tile == 0 {
        0int
    } else {
        1int
    }
}

/// What `TilingMeta::compute` derives from a canvas size and tile edge
/// length, together with the bounds that make the edge-tile arithmetic safe.
pub open spec fn is_meta_for(m: TilingMeta, size: Size, tile_size: u32) -> bool {
    &&& tile_size >= 1
    &&& m.tile_size == tile_size
    &&& m.columns == spec_tile_count(size.width as int, tile_size as int)
    &&& m.rows == spec_tile_count(size.height as int, tile_size as int)
    &&& m.diff.width == m.columns * tile_size - size.width
    &&& m.diff.height == m.rows * tile_size - size.height
    &&& m.diff.width < tile_size
    &&& m.diff.height < tile_size
    &&& (size.width > 0 ==> m.columns >= 1)
    &&& (size.height > 0 ==> m.rows >= 1)
    &&& (size.width == 0 ==> m.columns == 0)
    &&& (size.height == 0 ==> m.rows == 0)
}

/// The grid `compute` derives, as a value.
pub open spec fn spec_meta(size: Size, tile_size: u32) -> TilingMeta {
    let cols = spec_tile_count(size.width as int, tile_size as int);
    let rows = spec_tile_count(size.height as int, tile_size as int);
    TilingMeta {
        columns: cols as u32,
        rows: rows as u32,
        diff: Size {
            width: (cols * tile_size - size.width) as u32,
            height: (rows * tile_size - size.height) as u32,
        },
        tile_size,
    }
}

/// Tile count and grid overhang along one axis.
fn axis_tiles(extent: u32, tile: u32) -> (r: (u32, u32))
    requires
        tile >= 1,
    ensures
        r.0 == spec_tile_count(extent as int, tile as int),
        r.1 == r.0 * tile - extent,
        r.1 < tile,
        extent > 0 ==> r.0 >= 1,
        extent == 0 ==> r.0 == 0,
{
    let e: u64 = extent as u64;
    let t: u64 = tile as u64;
    let q: u64 = e / t;
    let rem: u64 = e % t;
    proof {
        lemma_fundamental_div_mod(e as int, t as int);
        assert(e == t * q + rem);
        assert(q <= t * q) by (nonlinear_arith)
            requires
                t >= 1,
                q >= 0,
        ;
        assert(q * t == t * q) by (nonlinear_arith);
    }
    if rem == 0 {
        proof {
            assert(q * t == e);
            if q == 0 {
                assert(t * q == 0) by (nonlinear_arith)
                    requires
                        q == 0,
                ;
            }
        }
        (q as u32, 0u32)
    } else {
        let count: u64 = q + 1;
        let diff: u64 = t - rem;
        proof {
            assert(count * t == t * q + t) by (nonlinear_arith)
                requires
                    count == q + 1,
            ;
            assert(count * t - e == diff);
            assert(count <= e);
        }
        (count as u32, diff as u32)
    }
}

impl TilingMeta {
    /// Derives the tiling grid for a canvas: `columns`/`rows` are the tile
    /// counts that cover the canvas, and `diff` is the overhang of that grid
    /// beyond the canvas on the last column and row. A zero tile edge length
    /// cannot describe a grid and is rejected as a type mismatch.
    pub fn compute(size: Size, tile_size: u32) -> (r: Result<TilingMeta, NsArchiveError>)
        ensures
            tile_size == 0 ==> (r matches Err(e) && e == NsArchiveError::TypeMismatch),
            tile_size >= 1 ==> (r matches Ok(m) && is_meta_for(m, size, tile_size) && m
                == spec_meta(size, tile_size)),
    {
        if tile_size == 0 {
            return Err(NsArchiveError::TypeMismatch);
        }
        let (columns, dw) = axis_tiles(size.width, tile_size);
        let (rows, dh) = axis_tiles(size.height, tile_size);
        Ok(TilingMeta { columns, rows, diff: Size { width: dw, height: dh }, tile_size })
    }

    /// Width in pixels of the tile in column `col`: the full tile edge except
    /// in the last column, which is narrowed by the grid overhang.
    pub fn tile_width(&self, col: u32) -> (r: u32)
        requires
            col < self.columns,
            self.diff.width <= self.tile_size,
        ensures
            r == spec_tile_extent(col as int, self.columns as int, self.tile_size as int,
                self.diff.width as int),
    {
        if col == self.columns - 1 {
            self.tile_size - self.diff.width
        } else {
            self.tile_size
        }
    }

    /// Height in pixels of the tile in row `row`; symmetric to `tile_width`.
    pub fn tile_height(&self, row: u32) -> (r: u32)
        requires
            row < self.rows,
            self.diff.height <= self.tile_size,
        ensures
            r == spec_tile_extent(row as int, self.rows as int, self.tile_size as int,
                self.diff.height as int),
    {
        if row == self.rows - 1 {
            self.tile_size - self.diff.height
        } else {
            self.tile_size
        }
    }
}

/// Extent in pixels of tile `i` along an axis of `count` tiles: the full tile
/// edge, except for the last tile, which the grid overhang narrows.
pub open spec fn spec_tile_extent(i: int, count: int, tile: int, diff: int) -> int {
    if i == count - 1 {
        tile - diff
    } else {
        tile
    }
}

/// Sum of the extents of tiles `0 .. k` along an axis of `count` tiles.
pub open spec fn spec_extent_sum(k: int, count: int, tile: int, diff: int) -> int
    decreases k,
{
    if k <= 0 {
        0int
    } else {
        spec_extent_sum(k - 1, count, tile, diff) + spec_tile_extent(k - 1, count, tile, diff)
    }
}

proof fn lemma_extent_sum_full(k: int, count: int, tile: int, diff: int)
    requires
        0 <= k < count,
    ensures
        spec_extent_sum(k, count, tile, diff) == k * tile,
    decreases k,
{
    if k > 0 {
        lemma_extent_sum_full(k - 1, count, tile, diff);
        assert((k - 1) * tile + tile == k * tile) by (nonlinear_arith);
    } else {
        assert(k * tile == 0) by (nonlinear_arith)
            requires
                k == 0,
        ;
    }
}

/// The per-tile extents across one axis cover that axis exactly: summed over
/// a whole row (or column) of the grid they equal the canvas extent the grid
/// was derived from. Applied to a layer whose declared size matches the
/// canvas, the per-tile widths across one row sum to the layer's declared
/// width, and the per-tile heights down one column to its declared height.
pub proof fn lemma_tile_extents_cover(count: int, tile: int, diff: int, extent: int)
    requires
        count >= 0,
        tile >= 1,
        0 <= diff < tile,
        extent >= 0,
        count * tile - diff == extent,
    ensures
        spec_extent_sum(count, count, tile, diff) == extent,
{
    if count == 0 {
        assert(count * tile == 0) by (nonlinear_arith)
            requires
                count == 0,
        ;
    } else {
        lemma_extent_sum_full(count - 1, count, tile, diff);
        assert(spec_tile_extent(count - 1, count, tile, diff) == tile - diff);
        assert(spec_extent_sum(count, count, tile, diff) == spec_extent_sum(count - 1, count,
            tile, diff) + (tile - diff));
        assert((count - 1) * tile + (tile - diff) == count * tile - diff) by (nonlinear_arith);
    }
}

/// Specialization of `lemma_tile_extents_cover` to a computed grid: the tile
/// widths across one row sum to the canvas width, and the tile heights down
/// one column sum to the canvas height.
pub proof fn lemma_grid_covers_canvas(m: TilingMeta, size: Size, tile_size: u32)
    requires
        is_meta_for(m, size, tile_size),
    ensures
        spec_extent_sum(m.columns as int, m.columns as int, m.tile_size as int,
            m.diff.width as int) == size.width,
        spec_extent_sum(m.rows as int, m.rows as int, m.tile_size as int, m.diff.height as int)
            == size.height,
{
    lemma_tile_extents_cover(m.columns as int, m.tile_size as int, m.diff.width as int,
        size.width as int);
    lemma_tile_extents_cover(m.rows as int, m.tile_size as int, m.diff.height as int,
        size.height as int);
}

} // verus!
