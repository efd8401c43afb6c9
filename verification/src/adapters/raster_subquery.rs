//! The raster sub-query adapter: for every output tile of a query's tiling
//! grid, a sub-query against the child is folded into one tile, and the
//! output tiles are emitted in the canonical enumeration order — row-major
//! over tile positions, time slices ascending.
//!
//! The fold is the coordinate-lookup of the reprojection engine; with the
//! identity projection the adapter is a plain pass-through regridder.

use vstd::prelude::*;
use crate::grid::{GeoTransform, GridIdx2D, GridShape2D};
use crate::processing::reprojection::{
    fold_by_coordinate_lookup, spec_lookup_pixel, spec_target_pixel_coord,
    spec_tile_coords_in_range, CoordinateProjection,
};
use crate::raster::{RasterTile, TileInformation};
use crate::tiling::TileGrid;
use crate::time::TimeInterval;

verus! {

/// The placement of the output tile at grid position (ty, tx).
pub open spec fn spec_slot_tile_info(
    grid: TileGrid,
    tile_shape: GridShape2D,
    transform: GeoTransform,
    ty: int,
    tx: int,
) -> TileInformation {
    TileInformation {
        global_size_in_tiles: GridShape2D { y: grid.rows, x: grid.cols },
        global_tile_position: GridIdx2D { y: ty as i64, x: tx as i64 },
        global_pixel_position: GridIdx2D {
            y: (ty * tile_shape.y) as i64,
            x: (tx * tile_shape.x) as i64,
        },
        tile_size_in_pixels: tile_shape,
        global_geo_transform: transform,
    }
}

/// Runs one sub-query fold per output slot: the `k`-th emitted tile covers
/// the `k`-th canonical slot of the grid and time list, and every one of
/// its pixels is the coordinate lookup over that time slice's sub-query
/// result.
///
/// One output tile is fully resolved before the next one is computed; the
/// caller supplies each time slice's sub-query result.
#[verifier::rlimit(100)]
#[verifier::spinoff_prover]
pub fn raster_subquery_adapter<P: CoordinateProjection>(
    grid: TileGrid,
    times: &Vec<TimeInterval>,
    tile_shape: GridShape2D,
    transform: GeoTransform,
    fill_value: i64,
    projection: &P,
    sources_per_time: &Vec<Vec<RasterTile>>,
) -> (r: Vec<RasterTile>)
    requires
        grid.wf(),
        tile_shape.wf(),
        transform.wf(),
        0 < times@.len() <= 0x10000,
        forall|t: int| 0 <= t < times@.len() ==> (#[trigger] times@[t]).wf(),
        sources_per_time@.len() == times@.len(),
        forall|t: int, k: int|
            0 <= t < sources_per_time@.len() && 0 <= k < (#[trigger] sources_per_time@[t])@.len()
                ==> (#[trigger] sources_per_time@[t]@[k]).wf(),
        forall|ty: int, tx: int|
            grid.spec_contains_pos(ty, tx) ==> spec_tile_coords_in_range(
                #[trigger] spec_slot_tile_info(grid, tile_shape, transform, ty, tx),
            ),
    ensures
        r@.len() == times@.len() * grid.spec_count(),
        forall|k: int|
            0 <= k < r@.len() ==> {
                let c = grid.spec_count();
                let info = spec_slot_tile_info(
                    grid,
                    tile_shape,
                    transform,
                    grid.spec_tile_y(k % c),
                    grid.spec_tile_x(k % c),
                );
                &&& (#[trigger] r@[k]).wf()
                &&& r@[k].time == times@[k / c]
                &&& r@[k].tile == info
                &&& r@[k].data.shape == tile_shape
                &&& r@[k].data.no_data_value == Some(fill_value)
                &&& forall|y: int, x: int|
                    #![trigger spec_target_pixel_coord(info, y, x)]
                    0 <= y < tile_shape.y && 0 <= x < tile_shape.x
                        ==> r@[k].data.spec_value_at(y, x) == spec_lookup_pixel(
                        *projection,
                        sources_per_time@[k / c]@,
                        spec_target_pixel_coord(info, y, x),
                        fill_value,
                    )
            },
{
    let c = grid.count();
    proof {
        assert(times@.len() * c <= 0x10000 * 0x4000_0000) by (nonlinear_arith)
            requires
                0 < times@.len() <= 0x10000,
                0 < c <= 0x4000_0000,
        ;
    }
    let total: u64 = (times.len() as u64) * c;
    let mut out: Vec<RasterTile> = Vec::new();
    let mut k: u64 = 0;
    while k < total
        invariant
            k <= total,
            total == times@.len() * grid.spec_count(),
            c == grid.spec_count(),
            out@.len() == k,
            forall|q: int|
                0 <= q < k ==> {
                    let info = spec_slot_tile_info(
                        grid,
                        tile_shape,
                        transform,
                        grid.spec_tile_y(q % (c as int)),
                        grid.spec_tile_x(q % (c as int)),
                    );
                    &&& (#[trigger] out@[q]).wf()
                    &&& out@[q].time == times@[q / (c as int)]
                    &&& out@[q].tile == info
                    &&& out@[q].data.shape == tile_shape
                    &&& out@[q].data.no_data_value == Some(fill_value)
                    &&& forall|y: int, x: int|
                        #![trigger spec_target_pixel_coord(info, y, x)]
                        0 <= y < tile_shape.y && 0 <= x < tile_shape.x
                            ==> out@[q].data.spec_value_at(y, x) == spec_lookup_pixel(
                            *projection,
                            sources_per_time@[q / (c as int)]@,
                            spec_target_pixel_coord(info, y, x),
                            fill_value,
                        )
                },
        decreases total - k,
    {
        let ti64 = k / c;
        let off = k % c;
        proof {
            vstd::arithmetic::div_mod::lemma_fundamental_div_mod(k as int, c as int);
            assert((k as int) / (c as int) < times@.len()) by (nonlinear_arith)
                requires
                    0 < c,
                    (c as int) * ((k as int) / (c as int)) + ((k as int) % (c as int)) == k as int,
                    0 <= ((k as int) % (c as int)) < c as int,
                    k < times@.len() * (c as int),
            ;
        }
        let ti: usize = ti64 as usize;
        let (ty, tx) = grid.tile_position_of_index(off);
        let info = TileInformation::new_aligned(
            GridShape2D::new(grid.rows, grid.cols),
            GridIdx2D::new(ty, tx),
            tile_shape,
            transform,
        );
        proof {
            crate::raster::lemma_pixel_position_in_range(
                GridIdx2D { y: ty, x: tx },
                tile_shape,
            );
            assert(info == spec_slot_tile_info(
                grid,
                tile_shape,
                transform,
                grid.spec_tile_y(k as int % (c as int)),
                grid.spec_tile_x(k as int % (c as int)),
            ));
            assert(spec_tile_coords_in_range(info));
        }
        let tile = fold_by_coordinate_lookup(
            info,
            times[ti],
            fill_value,
            projection,
            &sources_per_time[ti],
        );
        out.push(tile);
        k = k + 1;
    }
    out
}

} // verus!
