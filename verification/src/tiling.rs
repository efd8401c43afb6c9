//! The global tiling: a tiling specification shared by every raster operator
//! of one execution context, and the canonical, row-major enumeration of the
//! tiles that cover a query partition.

use vstd::prelude::*;
use vstd::arithmetic::div_mod::{
    lemma_fundamental_div_mod, lemma_fundamental_div_mod_converse_div,
    lemma_fundamental_div_mod_converse_mod,
};
use crate::grid::{floor_div, GeoTransform, GridShape2D};
use crate::primitives::{Coordinate2D, SpatialPartition2D, SpatialResolution};

verus! {

/// The global origin and tile size that align all tiles of one context.
#[derive(Clone, Copy, Debug, PartialEq, Eq, Structural)]
pub struct TilingSpecification {
    pub origin_coordinate: Coordinate2D,
    pub tile_size_in_pixels: GridShape2D,
}

impl TilingSpecification {
    pub open spec fn wf(self) -> bool {
        &&& -0x100_0000_0000 <= self.origin_coordinate.x <= 0x100_0000_0000
        &&& -0x100_0000_0000 <= self.origin_coordinate.y <= 0x100_0000_0000
        &&& self.tile_size_in_pixels.wf()
    }

    pub fn new(origin_coordinate: Coordinate2D, tile_size_in_pixels: GridShape2D) -> (r:
        TilingSpecification)
        ensures
            r.origin_coordinate == origin_coordinate,
            r.tile_size_in_pixels == tile_size_in_pixels,
    {
        TilingSpecification { origin_coordinate, tile_size_in_pixels }
    }

    /// The pixel grid of this tiling at a query's resolution, as a
    /// specification value.
    pub open spec fn geo_transform_spec(self, resolution: SpatialResolution) -> GeoTransform {
        GeoTransform {
            origin_coordinate: self.origin_coordinate,
            x_pixel_size: resolution.spec_x() as i64,
            y_pixel_size: (-resolution.spec_y()) as i64,
        }
    }

    /// The pixel grid of this tiling at a query's resolution: the global
    /// origin with one step per pixel in each axis.
    pub fn geo_transform_at(&self, resolution: SpatialResolution) -> (r: GeoTransform)
        requires
            self.wf(),
            resolution.wf(),
            resolution.spec_x() <= 0x10_0000,
            resolution.spec_y() <= 0x10_0000,
        ensures
            r == self.geo_transform_spec(resolution),
            r.wf(),
    {
        GeoTransform::new(self.origin_coordinate, resolution.x(), -resolution.y())
    }
}

/// The rectangle of tile positions that covers one query partition, and the
/// canonical order in which those tiles are enumerated: row-major, rows from
/// top to bottom, columns from left to right.
#[derive(Clone, Copy, Debug, PartialEq, Eq, Structural)]
pub struct TileGrid {
    /// Tile row of the topmost covered tile.
    pub y_min: i64,
    /// Tile column of the leftmost covered tile.
    pub x_min: i64,
    /// Number of covered tile rows.
    pub rows: usize,
    /// Number of covered tile columns.
    pub cols: usize,
}

impl TileGrid {
    pub open spec fn wf(self) -> bool {
        &&& 0 < self.rows <= 0x8000
        &&& 0 < self.cols <= 0x8000
        &&& -0x80_0000 <= self.y_min && self.y_min + self.rows <= 0x80_0000
        &&& -0x80_0000 <= self.x_min && self.x_min + self.cols <= 0x80_0000
    }

    /// The number of tiles in the grid.
    pub open spec fn spec_count(self) -> int {
        self.rows * self.cols
    }

    pub fn count(&self) -> (r: u64)
        requires
            self.wf(),
        ensures
            r == self.spec_count(),
            0 < r <= 0x4000_0000,
    {
        proof {
            assert(0 < self.rows * self.cols <= 0x4000_0000) by (nonlinear_arith)
                requires
                    0 < self.rows <= 0x8000,
                    0 < self.cols <= 0x8000,
            ;
        }
        (self.rows as u64) * (self.cols as u64)
    }

    /// The tile row of the `k`-th tile in canonical order.
    pub open spec fn spec_tile_y(self, k: int) -> int {
        self.y_min + k / self.cols as int
    }

    /// The tile column of the `k`-th tile in canonical order.
    pub open spec fn spec_tile_x(self, k: int) -> int {
        self.x_min + k % self.cols as int
    }

    /// Whether a tile position lies in the grid.
    pub open spec fn spec_contains_pos(self, ty: int, tx: int) -> bool {
        self.y_min <= ty < self.y_min + self.rows && self.x_min <= tx < self.x_min + self.cols
    }

    /// The canonical index of a tile position in the grid.
    pub open spec fn spec_index_of_pos(self, ty: int, tx: int) -> int {
        (ty - self.y_min) * self.cols + (tx - self.x_min)
    }

    /// The tile position of the `k`-th tile in canonical order.
    pub fn tile_position_of_index(&self, k: u64) -> (r: (i64, i64))
        requires
            self.wf(),
            0 <= k < self.spec_count(),
        ensures
            r.0 == self.spec_tile_y(k as int),
            r.1 == self.spec_tile_x(k as int),
            self.spec_contains_pos(r.0 as int, r.1 as int),
    {
        let q = k / (self.cols as u64);
        let m = k % (self.cols as u64);
        proof {
            lemma_fundamental_div_mod(k as int, self.cols as int);
            assert(k < self.rows * self.cols ==> (k as int) / (self.cols as int) < self.rows)
                by (nonlinear_arith)
                requires
                    0 < self.cols,
                    0 < self.rows,
                    (self.cols as int) * ((k as int) / (self.cols as int)) + (k as int) % (
                    self.cols as int) == k as int,
                    0 <= ((k as int) % (self.cols as int)) < (self.cols as int),
            ;
        }
        (self.y_min + (q as i64), self.x_min + (m as i64))
    }
}

/// A well-formed grid holds at least one and at most `0x4000_0000` tiles.
pub proof fn lemma_count_positive(g: TileGrid)
    requires
        g.wf(),
    ensures
        0 < g.spec_count() <= 0x4000_0000,
{
    assert(0 < g.rows * g.cols <= 0x4000_0000) by (nonlinear_arith)
        requires
            0 < g.rows <= 0x8000,
            0 < g.cols <= 0x8000,
    ;
}

/// The position of every canonical index lies in the grid.
pub proof fn lemma_tile_pos_contained(g: TileGrid, k: int)
    requires
        g.wf(),
        0 <= k < g.spec_count(),
    ensures
        g.spec_contains_pos(g.spec_tile_y(k), g.spec_tile_x(k)),
{
    let c = g.cols as int;
    lemma_fundamental_div_mod(k, c);
    assert(0 <= k / c < g.rows) by (nonlinear_arith)
        requires
            0 < c,
            0 < g.rows,
            c * (k / c) + k % c == k,
            0 <= k % c < c,
            0 <= k < g.rows * c,
    ;
}

/// Canonical enumeration is a bijection between indices `0 <= k < count` and
/// the tile positions of the grid: every position is hit, and no two indices
/// give the same position.
pub proof fn lemma_tile_enumeration_bijective(g: TileGrid, k1: int, k2: int, ty: int, tx: int)
    requires
        g.wf(),
        0 <= k1 < g.spec_count(),
        0 <= k2 < g.spec_count(),
        g.spec_contains_pos(ty, tx),
    ensures
        g.spec_tile_y(k1) == g.spec_tile_y(k2) && g.spec_tile_x(k1) == g.spec_tile_x(k2)
            ==> k1 == k2,
        0 <= g.spec_index_of_pos(ty, tx) < g.spec_count(),
        g.spec_tile_y(g.spec_index_of_pos(ty, tx)) == ty,
        g.spec_tile_x(g.spec_index_of_pos(ty, tx)) == tx,
        g.spec_contains_pos(g.spec_tile_y(k1), g.spec_tile_x(k1)),
{
    let c = g.cols as int;
    lemma_fundamental_div_mod(k1, c);
    lemma_fundamental_div_mod(k2, c);
    assert(0 <= k1 / c && 0 <= k2 / c && k1 / c < g.rows && k2 / c < g.rows) by (nonlinear_arith)
        requires
            0 < c,
            0 < g.rows,
            c * (k1 / c) + k1 % c == k1,
            c * (k2 / c) + k2 % c == k2,
            0 <= k1 % c < c,
            0 <= k2 % c < c,
            0 <= k1 < g.rows * c,
            0 <= k2 < g.rows * c,
    ;
    if g.spec_tile_y(k1) == g.spec_tile_y(k2) && g.spec_tile_x(k1) == g.spec_tile_x(k2) {
        assert(k1 == k2) by (nonlinear_arith)
            requires
                c * (k1 / c) + k1 % c == k1,
                c * (k2 / c) + k2 % c == k2,
                k1 / c == k2 / c,
                k1 % c == k2 % c,
        ;
    }
    let ki = g.spec_index_of_pos(ty, tx);
    assert(ki == (ty - g.y_min) * c + (tx - g.x_min));
    assert(0 <= ki < g.rows * c) by (nonlinear_arith)
        requires
            ki == (ty - g.y_min) * c + (tx - g.x_min),
            0 <= ty - g.y_min < g.rows,
            0 <= tx - g.x_min < c,
            0 < c,
    ;
    lemma_fundamental_div_mod_converse_div(ki, c, ty - g.y_min, tx - g.x_min);
    lemma_fundamental_div_mod_converse_mod(ki, c, ty - g.y_min, tx - g.x_min);
    assert(ki == (ty - g.y_min) * c + (tx - g.x_min) ==> ki / c == ty - g.y_min && ki % c == tx
        - g.x_min);
}

/// The first tile row of the grid covering a partition: the tile of the
/// partition's topmost contained pixel row.
pub open spec fn spec_grid_ty_min(
    spec: TilingSpecification,
    partition: SpatialPartition2D,
    resolution: SpatialResolution,
) -> int {
    spec.geo_transform_spec(resolution).spec_coord_to_grid_y(partition.spec_upper_left().y as int)
        / spec.tile_size_in_pixels.y as int
}

/// The last tile row of the grid covering a partition: the tile of the
/// partition's bottom-most contained pixel row (the lower border excluded).
pub open spec fn spec_grid_ty_max(
    spec: TilingSpecification,
    partition: SpatialPartition2D,
    resolution: SpatialResolution,
) -> int {
    spec.geo_transform_spec(resolution).spec_coord_to_grid_y(partition.spec_lower_right().y + 1)
        / spec.tile_size_in_pixels.y as int
}

/// The first tile column of the grid covering a partition.
pub open spec fn spec_grid_tx_min(
    spec: TilingSpecification,
    partition: SpatialPartition2D,
    resolution: SpatialResolution,
) -> int {
    spec.geo_transform_spec(resolution).spec_coord_to_grid_x(partition.spec_upper_left().x as int)
        / spec.tile_size_in_pixels.x as int
}

/// The last tile column of the grid covering a partition (the right border
/// excluded).
pub open spec fn spec_grid_tx_max(
    spec: TilingSpecification,
    partition: SpatialPartition2D,
    resolution: SpatialResolution,
) -> int {
    spec.geo_transform_spec(resolution).spec_coord_to_grid_x(partition.spec_lower_right().x - 1)
        / spec.tile_size_in_pixels.x as int
}

/// Computes the tile grid that covers a query partition: the tiles whose
/// half-open cells meet the partition at the given resolution, in the tiling
/// given by `spec`.
///
/// Succeeds exactly when the covered tile positions lie in the supported
/// range and the grid spans at most `0x8000` tile rows and columns.
pub fn tile_grid_for_partition(
    spec: &TilingSpecification,
    partition: SpatialPartition2D,
    resolution: SpatialResolution,
) -> (r: Result<TileGrid, TilingError>)
    requires
        spec.wf(),
        partition.wf(),
        resolution.wf(),
        resolution.spec_x() <= 0x10_0000,
        resolution.spec_y() <= 0x10_0000,
        -0x200_0000_0000 <= partition.spec_upper_left().x <= 0x200_0000_0000,
        -0x200_0000_0000 <= partition.spec_upper_left().y <= 0x200_0000_0000,
        -0x200_0000_0000 <= partition.spec_lower_right().x <= 0x200_0000_0000,
        -0x200_0000_0000 <= partition.spec_lower_right().y <= 0x200_0000_0000,
    ensures
        r is Ok <==> {
            let ty_min = spec_grid_ty_min(*spec, partition, resolution);
            let ty_max = spec_grid_ty_max(*spec, partition, resolution);
            let tx_min = spec_grid_tx_min(*spec, partition, resolution);
            let tx_max = spec_grid_tx_max(*spec, partition, resolution);
            &&& -0x80_0000 <= ty_min && ty_max < 0x80_0000
            &&& -0x80_0000 <= tx_min && tx_max < 0x80_0000
            &&& ty_max - ty_min < 0x8000
            &&& tx_max - tx_min < 0x8000
        },
        r matches Ok(g) ==> {
            &&& g.wf()
            &&& g.y_min == spec_grid_ty_min(*spec, partition, resolution)
            &&& g.x_min == spec_grid_tx_min(*spec, partition, resolution)
            &&& g.y_min + g.rows == 1 + spec_grid_ty_max(*spec, partition, resolution)
            &&& g.x_min + g.cols == 1 + spec_grid_tx_max(*spec, partition, resolution)
        },
{
    let transform = spec.geo_transform_at(resolution);
    let sy = spec.tile_size_in_pixels.y as i64;
    let sx = spec.tile_size_in_pixels.x as i64;
    let ul = partition.upper_left();
    let lr = partition.lower_right();

    // Pixel rows and columns of the first and last coordinate inside the
    // partition; the lower-right border itself is excluded.
    let px_first = transform.coordinate_to_grid_idx_2d(ul);
    let px_last = transform.coordinate_to_grid_idx_2d(Coordinate2D::new(lr.x - 1, lr.y + 1));

    let ty_min = floor_div(px_first.y, sy);
    let ty_max = floor_div(px_last.y, sy);
    let tx_min = floor_div(px_first.x, sx);
    let tx_max = floor_div(px_last.x, sx);

    proof {
        let t = transform;
        let uly = partition.spec_upper_left().y as int;
        let lry = partition.spec_lower_right().y as int;
        let ulx = partition.spec_upper_left().x as int;
        let lrx = partition.spec_lower_right().x as int;
        crate::grid::lemma_coord_to_grid_monotone_y(t, lry + 1, uly);
        crate::grid::lemma_coord_to_grid_monotone_x(t, ulx, lrx - 1);
        vstd::arithmetic::div_mod::lemma_div_is_ordered(
            t.spec_coord_to_grid_y(uly),
            t.spec_coord_to_grid_y(lry + 1),
            sy as int,
        );
        vstd::arithmetic::div_mod::lemma_div_is_ordered(
            t.spec_coord_to_grid_x(ulx),
            t.spec_coord_to_grid_x(lrx - 1),
            sx as int,
        );
    }
    if !(-0x80_0000 <= ty_min && ty_max < 0x80_0000 && -0x80_0000 <= tx_min && tx_max < 0x80_0000)
    {
        return Err(TilingError::QueryOutOfRange);
    }
    let rows64: i64 = ty_max - ty_min + 1;
    let cols64: i64 = tx_max - tx_min + 1;
    if rows64 > 0x8000 || cols64 > 0x8000 {
        return Err(TilingError::TooManyTiles);
    }
    Ok(TileGrid { y_min: ty_min, x_min: tx_min, rows: rows64 as usize, cols: cols64 as usize })
}

/// Errors of the tiling computation.
#[derive(Clone, Copy, Debug, PartialEq, Eq, Structural)]
pub enum TilingError {
    /// The query partition leaves the supported coordinate range.
    QueryOutOfRange,
    /// The query would cover more tiles per axis than supported.
    TooManyTiles,
}

} // verus!
