//! Pixel grids: shapes, grid indices, the affine geo-transform between grid
//! indices and coordinates, and two-dimensional rasters of pixel values.
//!
//! Pixel values are carried as `i64`; an optional no-data value marks pixels
//! without a valid observation.

use vstd::prelude::*;
use vstd::arithmetic::div_mod::{lemma_fundamental_div_mod, lemma_fundamental_div_mod_converse_div};
use crate::primitives::Coordinate2D;

verus! {

/// The extent of a two-dimensional grid, in pixels, as (rows, columns).
///
/// Well-formed shapes are non-empty and small enough that the element count
/// and every linear index fit comfortably in `usize`.
#[derive(Clone, Copy, Debug, PartialEq, Eq, Structural)]
pub struct GridShape2D {
    pub y: usize,
    pub x: usize,
}

impl GridShape2D {
    pub open spec fn wf(self) -> bool {
        0 < self.y <= 0x8000 && 0 < self.x <= 0x8000
    }

    pub open spec fn spec_number_of_elements(self) -> int {
        self.y * self.x
    }

    pub fn new(y: usize, x: usize) -> (r: GridShape2D)
        ensures
            r.y == y && r.x == x,
    {
        GridShape2D { y, x }
    }

    pub fn number_of_elements(&self) -> (r: usize)
        requires
            self.wf(),
        ensures
            r == self.spec_number_of_elements(),
    {
        proof {
            assert(self.y * self.x <= 0x8000 * 0x8000) by (nonlinear_arith)
                requires
                    0 < self.y <= 0x8000,
                    0 < self.x <= 0x8000,
            ;
        }
        self.y * self.x
    }
}

/// A signed grid index, as (row, column); rows grow downward, columns grow to
/// the right, and indices may be negative in the conceptually infinite grid.
#[derive(Clone, Copy, Debug, PartialEq, Eq, Structural, Hash)]
pub struct GridIdx2D {
    pub y: i64,
    pub x: i64,
}

impl GridIdx2D {
    pub fn new(y: i64, x: i64) -> (r: GridIdx2D)
        ensures
            r.y == y && r.x == x,
    {
        GridIdx2D { y, x }
    }

    /// Indices small enough for all affine arithmetic of this module.
    pub open spec fn in_range(self) -> bool {
        -0x200_0000_0000 <= self.y <= 0x200_0000_0000
            && -0x200_0000_0000 <= self.x <= 0x200_0000_0000
    }
}

/// Floor division of `a` by a positive `b`: the unique `r` with
/// `b * r <= a < b * (r + 1)`.
pub fn floor_div(a: i64, b: i64) -> (r: i64)
    requires
        0 < b <= 0x1000_0000_0000_0000,
        -0x1000_0000_0000_0000 <= a <= 0x1000_0000_0000_0000,
    ensures
        r == a as int / b as int,
        b * r <= a < b * (r + 1),
        a >= 0 ==> 0 <= r <= a,
        a < 0 ==> a <= r < 0,
{
    proof {
        lemma_fundamental_div_mod(a as int, b as int);
    }
    let ghost qe: int = a as int / b as int;
    let ghost re: int = a as int % b as int;
    let r: i64 = if a >= 0 {
        a / b
    } else {
        let m: i64 = -a;
        let q: i64 = (m + b - 1) / b;
        proof {
            assert(m + b - 1 == (-qe) * b + (b - 1 - re)) by (nonlinear_arith)
                requires
                    a == b * qe + re,
                    m == -a,
            ;
            if re == 0 {
                lemma_fundamental_div_mod_converse_div((m + b - 1) as int, b as int, -qe, b - 1);
            } else {
                lemma_fundamental_div_mod_converse_div(
                    (m + b - 1) as int,
                    b as int,
                    -qe,
                    b - 1 - re,
                );
            }
        }
        -q
    };
    proof {
        assert(b * qe <= a < b * (qe + 1)) by (nonlinear_arith)
            requires
                a == b * qe + re,
                0 <= re < b,
        ;
        assert((a >= 0 ==> 0 <= qe <= a) && (a < 0 ==> a <= qe < 0)) by (nonlinear_arith)
            requires
                b * qe <= a < b * (qe + 1),
                b >= 1,
        ;
    }
    r
}

/// The affine mapping between grid indices and coordinates: a coordinate
/// origin plus a signed step per pixel in each axis.
///
/// By convention the x step is positive and the y step negative, so that row
/// indices grow while the y coordinate falls.
#[derive(Clone, Copy, Debug, PartialEq, Eq, Structural)]
pub struct GeoTransform {
    pub origin_coordinate: Coordinate2D,
    pub x_pixel_size: i64,
    pub y_pixel_size: i64,
}

impl GeoTransform {
    pub open spec fn wf(self) -> bool {
        &&& -0x100_0000_0000 <= self.origin_coordinate.x <= 0x100_0000_0000
        &&& -0x100_0000_0000 <= self.origin_coordinate.y <= 0x100_0000_0000
        &&& 0 < self.x_pixel_size <= 0x10_0000
        &&& -0x10_0000 <= self.y_pixel_size < 0
    }

    pub fn new(origin_coordinate: Coordinate2D, x_pixel_size: i64, y_pixel_size: i64) -> (r:
        GeoTransform)
        ensures
            r.origin_coordinate == origin_coordinate,
            r.x_pixel_size == x_pixel_size,
            r.y_pixel_size == y_pixel_size,
    {
        GeoTransform { origin_coordinate, x_pixel_size, y_pixel_size }
    }

    /// The x coordinate of the upper-left corner of pixel column `ix`.
    pub open spec fn spec_grid_to_coord_x(self, ix: int) -> int {
        self.origin_coordinate.x + ix * self.x_pixel_size
    }

    /// The y coordinate of the upper-left corner of pixel row `iy`.
    pub open spec fn spec_grid_to_coord_y(self, iy: int) -> int {
        self.origin_coordinate.y + iy * self.y_pixel_size
    }

    /// The pixel column of an x coordinate: floor of the offset over the step.
    pub open spec fn spec_coord_to_grid_x(self, cx: int) -> int {
        (cx - self.origin_coordinate.x) / self.x_pixel_size as int
    }

    /// The pixel row of a y coordinate: floor of the offset over the step,
    /// with both negated because the y step is negative.
    pub open spec fn spec_coord_to_grid_y(self, cy: int) -> int {
        (self.origin_coordinate.y - cy) / (-self.y_pixel_size) as int
    }

    /// The coordinate of the upper-left corner of the pixel at `idx`.
    pub fn grid_2d_to_coordinate_2d(&self, idx: GridIdx2D) -> (r: Coordinate2D)
        requires
            self.wf(),
            idx.in_range(),
        ensures
            r.x == self.spec_grid_to_coord_x(idx.x as int),
            r.y == self.spec_grid_to_coord_y(idx.y as int),
    {
        proof {
            assert(-0x2000_0000_0000_0000 <= idx.x * self.x_pixel_size <= 0x2000_0000_0000_0000)
                by (nonlinear_arith)
                requires
                    -0x200_0000_0000 <= idx.x <= 0x200_0000_0000,
                    0 < self.x_pixel_size <= 0x10_0000,
            ;
            assert(-0x2000_0000_0000_0000 <= idx.y * self.y_pixel_size <= 0x2000_0000_0000_0000)
                by (nonlinear_arith)
                requires
                    -0x200_0000_0000 <= idx.y <= 0x200_0000_0000,
                    -0x10_0000 <= self.y_pixel_size < 0,
            ;
        }
        Coordinate2D {
            x: self.origin_coordinate.x + idx.x * self.x_pixel_size,
            y: self.origin_coordinate.y + idx.y * self.y_pixel_size,
        }
    }

    /// The grid index of the pixel whose half-open cell holds coordinate `c`:
    /// a pixel owns its upper-left corner and not its lower-right one.
    pub fn coordinate_to_grid_idx_2d(&self, c: Coordinate2D) -> (r: GridIdx2D)
        requires
            self.wf(),
            -0x200_0000_0000 <= c.x <= 0x200_0000_0000,
            -0x200_0000_0000 <= c.y <= 0x200_0000_0000,
        ensures
            r.x == self.spec_coord_to_grid_x(c.x as int),
            r.y == self.spec_coord_to_grid_y(c.y as int),
            -0x400_0000_0000 <= r.x <= 0x400_0000_0000,
            -0x400_0000_0000 <= r.y <= 0x400_0000_0000,
    {
        let x = floor_div(c.x - self.origin_coordinate.x, self.x_pixel_size);
        let y = floor_div(self.origin_coordinate.y - c.y, -self.y_pixel_size);
        GridIdx2D { y, x }
    }
}

/// The half-open cell convention: the upper-left corner of a pixel maps back
/// to that pixel, and so does every coordinate strictly inside the cell.
pub proof fn lemma_grid_cell_half_open(t: GeoTransform, ix: int, cx: int)
    requires
        t.wf(),
        t.spec_grid_to_coord_x(ix) <= cx < t.spec_grid_to_coord_x(ix + 1),
    ensures
        t.spec_coord_to_grid_x(cx) == ix,
{
    let s = t.x_pixel_size as int;
    let off = cx - t.origin_coordinate.x;
    assert((ix + 1) * s == ix * s + s) by (nonlinear_arith);
    assert(off == ix * s + (off - ix * s));
    lemma_fundamental_div_mod_converse_div(off, s, ix, off - ix * s);
}

/// As `lemma_grid_cell_half_open`, for the y axis: rows own their top border.
pub proof fn lemma_grid_cell_half_open_y(t: GeoTransform, iy: int, cy: int)
    requires
        t.wf(),
        t.spec_grid_to_coord_y(iy + 1) < cy <= t.spec_grid_to_coord_y(iy),
    ensures
        t.spec_coord_to_grid_y(cy) == iy,
{
    let s = (-t.y_pixel_size) as int;
    let off = t.origin_coordinate.y - cy;
    assert((iy + 1) * (-s) == iy * (-s) + (-s)) by (nonlinear_arith);
    assert(iy * (-s) == -(iy * s)) by (nonlinear_arith);
    assert(off == iy * s + (off - iy * s));
    lemma_fundamental_div_mod_converse_div(off, s, iy, off - iy * s);
}

/// Pixel columns grow with the x coordinate.
pub proof fn lemma_coord_to_grid_monotone_x(t: GeoTransform, cx1: int, cx2: int)
    requires
        t.wf(),
        cx1 <= cx2,
    ensures
        t.spec_coord_to_grid_x(cx1) <= t.spec_coord_to_grid_x(cx2),
{
    vstd::arithmetic::div_mod::lemma_div_is_ordered(
        cx1 - t.origin_coordinate.x,
        cx2 - t.origin_coordinate.x,
        t.x_pixel_size as int,
    );
}

/// Pixel rows grow as the y coordinate falls.
pub proof fn lemma_coord_to_grid_monotone_y(t: GeoTransform, cy1: int, cy2: int)
    requires
        t.wf(),
        cy1 <= cy2,
    ensures
        t.spec_coord_to_grid_y(cy2) <= t.spec_coord_to_grid_y(cy1),
{
    vstd::arithmetic::div_mod::lemma_div_is_ordered(
        t.origin_coordinate.y - cy2,
        t.origin_coordinate.y - cy1,
        (-t.y_pixel_size) as int,
    );
}

/// A two-dimensional raster: a shape, one pixel value per cell in row-major
/// order, and an optional no-data value.
///
/// Well-formedness ties the data length to the shape.
#[derive(Clone, Debug, PartialEq, Eq)]
pub struct Grid2D {
    pub shape: GridShape2D,
    pub data: Vec<i64>,
    pub no_data_value: Option<i64>,
}

impl Grid2D {
    pub open spec fn wf(self) -> bool {
        self.shape.wf() && self.data@.len() == self.shape.spec_number_of_elements()
    }

    /// The row-major linear index of cell (y, x).
    pub open spec fn spec_lin(self, y: int, x: int) -> int {
        y * self.shape.x + x
    }

    pub open spec fn spec_value_at(self, y: int, x: int) -> i64 {
        self.data@[self.spec_lin(y, x)]
    }

    /// Whether a pixel value stands for "no valid observation".
    pub open spec fn spec_is_no_data(self, v: i64) -> bool {
        self.no_data_value matches Some(nd) && nd == v
    }

    /// Builds a grid; rejects data whose length does not match the shape.
    pub fn new(shape: GridShape2D, data: Vec<i64>, no_data_value: Option<i64>) -> (r: Result<
        Grid2D,
        GridError,
    >)
        requires
            shape.wf(),
        ensures
            r is Ok <==> data@.len() == shape.spec_number_of_elements(),
            r matches Ok(g) ==> g.shape == shape && g.data@ == data@
                && g.no_data_value == no_data_value && g.wf(),
    {
        let n = shape.number_of_elements();
        if data.len() == n {
            Ok(Grid2D { shape, data, no_data_value })
        } else {
            Err(GridError::DimensionCapacityMismatch)
        }
    }

    /// Builds a grid with every pixel set to `value`.
    pub fn new_filled(shape: GridShape2D, value: i64, no_data_value: Option<i64>) -> (r: Grid2D)
        requires
            shape.wf(),
        ensures
            r.shape == shape,
            r.no_data_value == no_data_value,
            r.wf(),
            forall|i: int| 0 <= i < r.data@.len() ==> r.data@[i] == value,
    {
        let n = shape.number_of_elements();
        let mut data: Vec<i64> = Vec::new();
        let mut i: usize = 0;
        while i < n
            invariant
                i <= n,
                data@.len() == i,
                forall|j: int| 0 <= j < i ==> data@[j] == value,
            decreases n - i,
        {
            data.push(value);
            i = i + 1;
        }
        Grid2D { shape, data, no_data_value }
    }

    pub fn dimension(&self) -> (r: GridShape2D)
        ensures
            r == self.shape,
    {
        self.shape
    }

    pub fn no_data_value(&self) -> (r: Option<i64>)
        ensures
            r == self.no_data_value,
    {
        self.no_data_value
    }

    pub fn data_container(&self) -> (r: &Vec<i64>)
        ensures
            r@ == self.data@,
    {
        &self.data
    }

    /// The pixel value at cell (y, x) of this grid.
    pub fn value_at(&self, y: usize, x: usize) -> (r: i64)
        requires
            self.wf(),
            y < self.shape.y,
            x < self.shape.x,
        ensures
            r == self.spec_value_at(y as int, x as int),
    {
        proof {
            lemma_lin_index_in_bounds(self.shape, y as int, x as int);
        }
        self.data[y * self.shape.x + x]
    }
}

/// Row-major linear indices of in-bounds cells lie within the element count.
pub proof fn lemma_lin_index_in_bounds(shape: GridShape2D, y: int, x: int)
    requires
        shape.wf(),
        0 <= y < shape.y,
        0 <= x < shape.x,
    ensures
        0 <= y * shape.x + x < shape.spec_number_of_elements(),
        y * shape.x + x < 0x4000_0000,
{
    assert(0 <= y * shape.x + x < shape.y * shape.x <= 0x4000_0000) by (nonlinear_arith)
        requires
            0 <= y < shape.y,
            0 <= x < shape.x,
            0 < shape.x <= 0x8000,
            0 < shape.y <= 0x8000,
    ;
}

/// Errors of grid construction and access.
#[derive(Clone, Copy, Debug, PartialEq, Eq, Structural)]
pub enum GridError {
    /// The data length does not match the shape's element count.
    DimensionCapacityMismatch,
}

} // verus!
