//! Raster tiles: the placement of one tile in the conceptually infinite,
//! tile-indexed grid, and the tile itself with its time interval and pixels.

use vstd::prelude::*;
use crate::grid::{GeoTransform, Grid2D, GridIdx2D, GridShape2D};
use crate::primitives::{Coordinate2D, SpatialPartition2D};
use crate::time::TimeInterval;

verus! {

/// The placement of one tile in the global tile grid.
///
/// Invariant (`wf`): the global pixel position is the tile position times
/// the tile size, so all tiles of one grid align.
#[derive(Clone, Copy, Debug, PartialEq, Eq, Structural)]
pub struct TileInformation {
    pub global_size_in_tiles: GridShape2D,
    pub global_tile_position: GridIdx2D,
    pub global_pixel_position: GridIdx2D,
    pub tile_size_in_pixels: GridShape2D,
    pub global_geo_transform: GeoTransform,
}

impl TileInformation {
    pub open spec fn wf(self) -> bool {
        &&& self.tile_size_in_pixels.wf()
        &&& -0x100_0000 <= self.global_tile_position.y <= 0x100_0000
        &&& -0x100_0000 <= self.global_tile_position.x <= 0x100_0000
        &&& self.global_pixel_position.y
            == self.global_tile_position.y * self.tile_size_in_pixels.y
        &&& self.global_pixel_position.x
            == self.global_tile_position.x * self.tile_size_in_pixels.x
        &&& self.global_geo_transform.wf()
    }

    /// Builds a tile placement from its fields.
    ///
    /// The caller owes the grid-alignment invariant: the pixel position must
    /// equal tile position times tile size.
    pub fn new(
        global_size_in_tiles: GridShape2D,
        global_tile_position: GridIdx2D,
        global_pixel_position: GridIdx2D,
        tile_size_in_pixels: GridShape2D,
        global_geo_transform: GeoTransform,
    ) -> (r: TileInformation)
        requires
            tile_size_in_pixels.wf(),
            -0x100_0000 <= global_tile_position.y <= 0x100_0000,
            -0x100_0000 <= global_tile_position.x <= 0x100_0000,
            global_pixel_position.y == global_tile_position.y * tile_size_in_pixels.y,
            global_pixel_position.x == global_tile_position.x * tile_size_in_pixels.x,
            global_geo_transform.wf(),
        ensures
            r.global_size_in_tiles == global_size_in_tiles,
            r.global_tile_position == global_tile_position,
            r.global_pixel_position == global_pixel_position,
            r.tile_size_in_pixels == tile_size_in_pixels,
            r.global_geo_transform == global_geo_transform,
            r.wf(),
    {
        TileInformation {
            global_size_in_tiles,
            global_tile_position,
            global_pixel_position,
            tile_size_in_pixels,
            global_geo_transform,
        }
    }

    /// Builds an aligned tile placement, computing the pixel position from
    /// the tile position and the tile size.
    pub fn new_aligned(
        global_size_in_tiles: GridShape2D,
        global_tile_position: GridIdx2D,
        tile_size_in_pixels: GridShape2D,
        global_geo_transform: GeoTransform,
    ) -> (r: TileInformation)
        requires
            tile_size_in_pixels.wf(),
            -0x100_0000 <= global_tile_position.y <= 0x100_0000,
            -0x100_0000 <= global_tile_position.x <= 0x100_0000,
            global_geo_transform.wf(),
        ensures
            r.global_size_in_tiles == global_size_in_tiles,
            r.global_tile_position == global_tile_position,
            r.tile_size_in_pixels == tile_size_in_pixels,
            r.global_geo_transform == global_geo_transform,
            r.wf(),
    {
        proof {
            lemma_pixel_position_in_range(global_tile_position, tile_size_in_pixels);
        }
        let py: i64 = global_tile_position.y * (tile_size_in_pixels.y as i64);
        let px: i64 = global_tile_position.x * (tile_size_in_pixels.x as i64);
        TileInformation {
            global_size_in_tiles,
            global_tile_position,
            global_pixel_position: GridIdx2D { y: py, x: px },
            tile_size_in_pixels,
            global_geo_transform,
        }
    }

    pub fn global_size_in_tiles(&self) -> (r: GridShape2D)
        ensures
            r == self.global_size_in_tiles,
    {
        self.global_size_in_tiles
    }

    pub fn global_tile_position(&self) -> (r: GridIdx2D)
        ensures
            r == self.global_tile_position,
    {
        self.global_tile_position
    }

    pub fn global_pixel_position_upper_left(&self) -> (r: GridIdx2D)
        ensures
            r == self.global_pixel_position,
    {
        self.global_pixel_position
    }

    /// The first pixel position below and right of this tile.
    pub fn global_pixel_position_lower_right(&self) -> (r: GridIdx2D)
        requires
            self.wf(),
        ensures
            r.y == self.global_pixel_position.y + self.tile_size_in_pixels.y,
            r.x == self.global_pixel_position.x + self.tile_size_in_pixels.x,
    {
        proof {
            lemma_pixel_position_in_range(self.global_tile_position, self.tile_size_in_pixels);
        }
        GridIdx2D {
            y: self.global_pixel_position.y + (self.tile_size_in_pixels.y as i64),
            x: self.global_pixel_position.x + (self.tile_size_in_pixels.x as i64),
        }
    }

    pub fn tile_size_in_pixels(&self) -> (r: GridShape2D)
        ensures
            r == self.tile_size_in_pixels,
    {
        self.tile_size_in_pixels
    }

    /// Translates a pixel position local to this tile into the global grid.
    pub fn tile_pixel_position_to_global(&self, local_pixel_position: GridIdx2D) -> (r: GridIdx2D)
        requires
            self.wf(),
            0 <= local_pixel_position.y <= self.tile_size_in_pixels.y,
            0 <= local_pixel_position.x <= self.tile_size_in_pixels.x,
        ensures
            r.y == self.global_pixel_position.y + local_pixel_position.y,
            r.x == self.global_pixel_position.x + local_pixel_position.x,
    {
        proof {
            lemma_pixel_position_in_range(self.global_tile_position, self.tile_size_in_pixels);
        }
        GridIdx2D {
            y: self.global_pixel_position.y + local_pixel_position.y,
            x: self.global_pixel_position.x + local_pixel_position.x,
        }
    }

    /// The geo-transform local to this tile: the global transform shifted so
    /// that its origin is the tile's upper-left corner.
    pub fn tile_geo_transform(&self) -> (r: GeoTransform)
        requires
            self.wf(),
        ensures
            r.origin_coordinate.x
                == self.global_geo_transform.spec_grid_to_coord_x(self.global_pixel_position.x as int),
            r.origin_coordinate.y
                == self.global_geo_transform.spec_grid_to_coord_y(self.global_pixel_position.y as int),
            r.x_pixel_size == self.global_geo_transform.x_pixel_size,
            r.y_pixel_size == self.global_geo_transform.y_pixel_size,
    {
        proof {
            lemma_pixel_position_in_range(self.global_tile_position, self.tile_size_in_pixels);
        }
        let tile_upper_left_coord = self.global_geo_transform.grid_2d_to_coordinate_2d(
            self.global_pixel_position,
        );
        GeoTransform::new(
            tile_upper_left_coord,
            self.global_geo_transform.x_pixel_size,
            self.global_geo_transform.y_pixel_size,
        )
    }

    /// The spatial region this tile covers, upper-left inclusive and
    /// lower-right exclusive.
    pub fn spatial_bounds(&self) -> (r: SpatialPartition2D)
        requires
            self.wf(),
        ensures
            r.spec_upper_left().x
                == self.global_geo_transform.spec_grid_to_coord_x(self.global_pixel_position.x as int),
            r.spec_upper_left().y
                == self.global_geo_transform.spec_grid_to_coord_y(self.global_pixel_position.y as int),
            r.spec_lower_right().x == self.global_geo_transform.spec_grid_to_coord_x(
                self.global_pixel_position.x + self.tile_size_in_pixels.x,
            ),
            r.spec_lower_right().y == self.global_geo_transform.spec_grid_to_coord_y(
                self.global_pixel_position.y + self.tile_size_in_pixels.y,
            ),
            r.wf(),
    {
        proof {
            lemma_pixel_position_in_range(self.global_tile_position, self.tile_size_in_pixels);
        }
        let top_left_coord = self.global_geo_transform.grid_2d_to_coordinate_2d(
            self.global_pixel_position_upper_left(),
        );
        let lower_right_coord = self.global_geo_transform.grid_2d_to_coordinate_2d(
            self.global_pixel_position_lower_right(),
        );
        proof {
            let t = self.global_geo_transform;
            let px = self.global_pixel_position.x as int;
            let py = self.global_pixel_position.y as int;
            let sx = self.tile_size_in_pixels.x as int;
            let sy = self.tile_size_in_pixels.y as int;
            assert(px * t.x_pixel_size < (px + sx) * t.x_pixel_size) by (nonlinear_arith)
                requires
                    t.x_pixel_size > 0,
                    sx > 0,
            ;
            assert((py + sy) * t.y_pixel_size < py * t.y_pixel_size) by (nonlinear_arith)
                requires
                    t.y_pixel_size < 0,
                    sy > 0,
            ;
        }
        SpatialPartition2D::new_unchecked(top_left_coord, lower_right_coord)
    }
}

/// For tile positions and sizes in their well-formed ranges, the global pixel
/// positions of a tile stay within the index range of the affine arithmetic.
pub proof fn lemma_pixel_position_in_range(pos: GridIdx2D, size: GridShape2D)
    requires
        size.wf(),
        -0x100_0000 <= pos.y <= 0x100_0000,
        -0x100_0000 <= pos.x <= 0x100_0000,
    ensures
        -0x200_0000_0000 <= pos.y * size.y <= 0x200_0000_0000,
        -0x200_0000_0000 <= pos.x * size.x <= 0x200_0000_0000,
        -0x200_0000_0000 <= pos.y * size.y + size.y <= 0x200_0000_0000,
        -0x200_0000_0000 <= pos.x * size.x + size.x <= 0x200_0000_0000,
{
    assert(-0x200_0000_0000 <= pos.y * size.y && pos.y * size.y + size.y <= 0x200_0000_0000)
        by (nonlinear_arith)
        requires
            -0x100_0000 <= pos.y <= 0x100_0000,
            0 < size.y <= 0x8000,
    ;
    assert(-0x200_0000_0000 <= pos.x * size.x && pos.x * size.x + size.x <= 0x200_0000_0000)
        by (nonlinear_arith)
        requires
            -0x100_0000 <= pos.x <= 0x100_0000,
            0 < size.x <= 0x8000,
    ;
}

/// One tile of raster data: its time interval, its placement, and its pixels.
///
/// Tiles are produced fresh by each pipeline stage and owned by the stage
/// that holds them; nothing is shared across tiles.
#[derive(Clone, Debug, PartialEq, Eq)]
pub struct RasterTile {
    pub time: TimeInterval,
    pub tile: TileInformation,
    pub data: Grid2D,
}

impl RasterTile {
    pub open spec fn wf(self) -> bool {
        &&& self.time.wf()
        &&& self.tile.wf()
        &&& self.data.wf()
        &&& self.data.shape == self.tile.tile_size_in_pixels
    }

    /// Builds a tile from its time interval, placement, and pixel data.
    ///
    /// The caller owes that the data's shape is the tile size.
    pub fn new(time: TimeInterval, tile: TileInformation, data: Grid2D) -> (r: RasterTile)
        ensures
            r.time == time,
            r.tile == tile,
            r.data == data,
    {
        RasterTile { time, tile, data }
    }

    pub fn temporal_bounds(&self) -> (r: TimeInterval)
        ensures
            r == self.time,
    {
        self.time
    }

    pub fn tile_information(&self) -> (r: TileInformation)
        ensures
            r == self.tile,
    {
        self.tile
    }

    pub fn spatial_bounds(&self) -> (r: SpatialPartition2D)
        requires
            self.wf(),
        ensures
            r.spec_upper_left().x == self.tile.global_geo_transform.spec_grid_to_coord_x(
                self.tile.global_pixel_position.x as int,
            ),
            r.spec_upper_left().y == self.tile.global_geo_transform.spec_grid_to_coord_y(
                self.tile.global_pixel_position.y as int,
            ),
            r.spec_lower_right().x == self.tile.global_geo_transform.spec_grid_to_coord_x(
                self.tile.global_pixel_position.x + self.tile.tile_size_in_pixels.x,
            ),
            r.spec_lower_right().y == self.tile.global_geo_transform.spec_grid_to_coord_y(
                self.tile.global_pixel_position.y + self.tile.tile_size_in_pixels.y,
            ),
            r.wf(),
    {
        self.tile.spatial_bounds()
    }

    pub fn dimension(&self) -> (r: GridShape2D)
        ensures
            r == self.data.shape,
    {
        self.data.dimension()
    }

    pub fn no_data_value(&self) -> (r: Option<i64>)
        ensures
            r == self.data.no_data_value,
    {
        self.data.no_data_value()
    }

    pub fn data_container(&self) -> (r: &Vec<i64>)
        ensures
            r@ == self.data.data@,
    {
        self.data.data_container()
    }

    pub fn geo_transform(&self) -> (r: GeoTransform)
        ensures
            r == self.tile.global_geo_transform,
    {
        self.tile.global_geo_transform
    }

    /// Whether a global pixel position falls inside this tile.
    pub open spec fn spec_has_global_pixel(self, idx: GridIdx2D) -> bool {
        &&& self.tile.global_pixel_position.y <= idx.y
            < self.tile.global_pixel_position.y + self.tile.tile_size_in_pixels.y
        &&& self.tile.global_pixel_position.x <= idx.x
            < self.tile.global_pixel_position.x + self.tile.tile_size_in_pixels.x
    }

    /// The pixel value at a global pixel position inside this tile.
    pub open spec fn spec_value_at_global(self, idx: GridIdx2D) -> i64 {
        self.data.spec_value_at(
            idx.y - self.tile.global_pixel_position.y,
            idx.x - self.tile.global_pixel_position.x,
        )
    }

    /// Looks a pixel up by its global grid position: the value if the
    /// position falls inside this tile, and nothing otherwise.
    pub fn get_at_grid_index(&self, idx: GridIdx2D) -> (r: Option<i64>)
        requires
            self.wf(),
        ensures
            r is Some <==> self.spec_has_global_pixel(idx),
            r matches Some(v) ==> v == self.spec_value_at_global(idx),
    {
        proof {
            lemma_pixel_position_in_range(self.tile.global_tile_position, self.tile.tile_size_in_pixels);
        }
        let ul = self.tile.global_pixel_position;
        let size = self.tile.tile_size_in_pixels;
        if ul.y <= idx.y && idx.y < ul.y + (size.y as i64) && ul.x <= idx.x && idx.x < ul.x
            + (size.x as i64) {
            let ly: usize = (idx.y - ul.y) as usize;
            let lx: usize = (idx.x - ul.x) as usize;
            Some(self.data.value_at(ly, lx))
        } else {
            None
        }
    }
}

} // verus!
