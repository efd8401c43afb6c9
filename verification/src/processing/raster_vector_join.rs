//! The raster-vector join: samples raster pixel values at the locations of
//! point features, aggregates the samples per feature and per time slice,
//! and appends the aggregate as a new attribute column.
//!
//! A pixel equal to the raster's no-data value contributes a null, never a
//! value. A feature samples exactly the time slices whose interval
//! intersects its own.

use vstd::prelude::*;
use crate::adapters::raster_time_substream::{spec_grouping_ok, time_groups};
use crate::engine::result_descriptor::RasterDataType;
use crate::collections::{
    ColumnData, FeatureCell, MultiPoint, MultiPointCollection, CollectionError, Ratio,
};
use crate::primitives::Coordinate2D;
use crate::raster::RasterTile;
use crate::time::TimeInterval;

verus! {

/// How the samples of one multi-point feature are aggregated within one
/// time slice.
#[derive(Clone, Copy, Debug, PartialEq, Eq, Structural)]
pub enum FeatureAggregationMethod {
    First,
    Mean,
}

/// How the per-slice aggregates are combined across the query's time slices.
#[derive(Clone, Copy, Debug, PartialEq, Eq, Structural)]
pub enum TemporalAggregationMethod {
    First,
    Mean,
}

/// The single aggregation choice of the join operator's parameters; it is
/// applied at both the feature and the temporal level.
#[derive(Clone, Copy, Debug, PartialEq, Eq, Structural)]
pub enum AggregationMethod {
    First,
    Mean,
}

/// The parameters of the raster-vector join: one output column name per
/// raster input, and the aggregation method.
#[derive(Clone, Debug)]
pub struct RasterVectorJoinParams {
    /// Each name becomes one output column of the join result. For each
    /// raster input, one name must be given.
    pub names: Vec<String>,
    /// The method used for aggregating sampled values.
    pub aggregation: AggregationMethod,
}

/// The largest pixel magnitude the join aggregates without overflow.
pub open spec fn spec_value_cap() -> int {
    0x4000_0000
}

/// All pixel values of a tile lie within the aggregation cap.
pub open spec fn spec_tile_values_bounded(tile: RasterTile) -> bool {
    forall|p: int|
        0 <= p < tile.data.data@.len() ==> -spec_value_cap() <= (#[trigger] tile.data.data@[p])
            <= spec_value_cap()
}

/// The pixel of `tile` sampled at coordinate `c`, if `c` falls inside the
/// tile: nearest-neighbor lookup with the half-open cell convention.
pub open spec fn spec_pixel_value(tile: RasterTile, c: Coordinate2D) -> Option<i64> {
    let t = tile.tile.global_geo_transform;
    let iy = t.spec_coord_to_grid_y(c.y as int);
    let ix = t.spec_coord_to_grid_x(c.x as int);
    let py = tile.tile.global_pixel_position.y as int;
    let px = tile.tile.global_pixel_position.x as int;
    if py <= iy < py + tile.tile.tile_size_in_pixels.y && px <= ix < px
        + tile.tile.tile_size_in_pixels.x {
        Some(tile.data.spec_value_at(iy - py, ix - px))
    } else {
        None
    }
}

/// Whether sampling `tile` at `c` yields a valid observation: the coordinate
/// falls in the tile and the pixel is not the no-data value.
pub open spec fn spec_sample_valued(tile: RasterTile, c: Coordinate2D) -> bool {
    spec_pixel_value(tile, c) matches Some(v) && !tile.data.spec_is_no_data(v)
}

/// Sum of the valid samples of one tile over a feature's coordinates.
pub open spec fn spec_tile_sum(tile: RasterTile, coords: Seq<Coordinate2D>) -> int
    decreases coords.len(),
{
    if coords.len() == 0 {
        0
    } else {
        let head: int = if spec_sample_valued(tile, coords[0]) {
            spec_pixel_value(tile, coords[0])->Some_0 as int
        } else {
            0
        };
        head + spec_tile_sum(tile, coords.subrange(1, coords.len() as int))
    }
}

/// Number of valid samples of one tile over a feature's coordinates.
pub open spec fn spec_tile_count(tile: RasterTile, coords: Seq<Coordinate2D>) -> int
    decreases coords.len(),
{
    if coords.len() == 0 {
        0
    } else {
        let head: int = if spec_sample_valued(tile, coords[0]) {
            1
        } else {
            0
        };
        head + spec_tile_count(tile, coords.subrange(1, coords.len() as int))
    }
}

/// First valid sample of one tile over a feature's coordinates, in order.
pub open spec fn spec_tile_first(tile: RasterTile, coords: Seq<Coordinate2D>) -> Option<i64>
    decreases coords.len(),
{
    if coords.len() == 0 {
        Option::None
    } else if spec_sample_valued(tile, coords[0]) {
        spec_pixel_value(tile, coords[0])
    } else {
        spec_tile_first(tile, coords.subrange(1, coords.len() as int))
    }
}

/// Sum of the valid samples over a run of tiles.
pub open spec fn spec_tiles_sum(tiles: Seq<RasterTile>, coords: Seq<Coordinate2D>) -> int
    decreases tiles.len(),
{
    if tiles.len() == 0 {
        0
    } else {
        spec_tile_sum(tiles[0], coords) + spec_tiles_sum(
            tiles.subrange(1, tiles.len() as int),
            coords,
        )
    }
}

/// Number of valid samples over a run of tiles.
pub open spec fn spec_tiles_count(tiles: Seq<RasterTile>, coords: Seq<Coordinate2D>) -> int
    decreases tiles.len(),
{
    if tiles.len() == 0 {
        0
    } else {
        spec_tile_count(tiles[0], coords) + spec_tiles_count(
            tiles.subrange(1, tiles.len() as int),
            coords,
        )
    }
}

/// First valid sample over a run of tiles, tiles first, coordinates second.
pub open spec fn spec_tiles_first(tiles: Seq<RasterTile>, coords: Seq<Coordinate2D>) -> Option<
    i64,
>
    decreases tiles.len(),
{
    if tiles.len() == 0 {
        Option::None
    } else if spec_tile_first(tiles[0], coords) is Some {
        spec_tile_first(tiles[0], coords)
    } else {
        spec_tiles_first(tiles.subrange(1, tiles.len() as int), coords)
    }
}

/// The no-data propagation rule for the join: a sampled pixel that equals
/// the tile's no-data value contributes a null, never a value — the
/// slice's sum, count, and first valid sample are as if the sampling
/// location were absent.
pub proof fn lemma_join_no_data_propagation(tile: RasterTile, coords: Seq<Coordinate2D>, i: int)
    requires
        0 <= i < coords.len(),
        spec_pixel_value(tile, coords[i]) matches Some(v) && tile.data.spec_is_no_data(v),
    ensures
        spec_tile_sum(tile, coords) == spec_tile_sum(
            tile,
            coords.subrange(0, i) + coords.subrange(i + 1, coords.len() as int),
        ),
        spec_tile_count(tile, coords) == spec_tile_count(
            tile,
            coords.subrange(0, i) + coords.subrange(i + 1, coords.len() as int),
        ),
        spec_tile_first(tile, coords) == spec_tile_first(
            tile,
            coords.subrange(0, i) + coords.subrange(i + 1, coords.len() as int),
        ),
    decreases coords.len(),
{
    let removed = coords.subrange(0, i) + coords.subrange(i + 1, coords.len() as int);
    assert(!spec_sample_valued(tile, coords[i]));
    if i == 0 {
        assert(removed =~= coords.subrange(1, coords.len() as int));
    } else {
        let rest = coords.subrange(1, coords.len() as int);
        assert(rest[i - 1] == coords[i]);
        lemma_join_no_data_propagation(tile, rest, i - 1);
        assert(removed[0] == coords[0]);
        assert(removed.subrange(1, removed.len() as int) =~= rest.subrange(0, i - 1)
            + rest.subrange(i, rest.len() as int));
    }
}

/// The (sum, count) contribution of one time slice for one feature: the
/// first valid sample, or the sum and count of all valid samples.
pub open spec fn spec_group_contrib(
    group: Seq<RasterTile>,
    coords: Seq<Coordinate2D>,
    fagg: FeatureAggregationMethod,
) -> (int, int) {
    match fagg {
        FeatureAggregationMethod::Mean => (
            spec_tiles_sum(group, coords),
            spec_tiles_count(group, coords),
        ),
        FeatureAggregationMethod::First => match spec_tiles_first(group, coords) {
            Option::Some(v) => (v as int, 1),
            Option::None => (0, 0),
        },
    }
}

/// The temporal fold for one feature over the time slices of a tile stream:
/// slices that do not intersect the feature's time interval are skipped;
/// `First` keeps the first slice with a valid contribution, `Mean` sums the
/// contributions of every slice.
pub open spec fn spec_join_fold(
    tiles: Seq<RasterTile>,
    groups: Seq<(usize, usize)>,
    ftime: TimeInterval,
    coords: Seq<Coordinate2D>,
    fagg: FeatureAggregationMethod,
    tagg: TemporalAggregationMethod,
) -> (int, int)
    decreases groups.len(),
{
    if groups.len() == 0 {
        (0, 0)
    } else {
        let g = groups[0];
        let rest = spec_join_fold(
            tiles,
            groups.subrange(1, groups.len() as int),
            ftime,
            coords,
            fagg,
            tagg,
        );
        if g.0 < tiles.len() && g.0 < g.1 <= tiles.len() && tiles[g.0 as int].time.spec_intersects(
            ftime,
        ) {
            let c = spec_group_contrib(tiles.subrange(g.0 as int, g.1 as int), coords, fagg);
            match tagg {
                TemporalAggregationMethod::Mean => (c.0 + rest.0, c.1 + rest.1),
                TemporalAggregationMethod::First => if c.1 > 0 {
                    c
                } else {
                    rest
                },
            }
        } else {
            rest
        }
    }
}

/// The output cell of one feature: null without any valid sample, an
/// integer under first/first aggregation of an integral raster, and an
/// exact rational otherwise — a first-sampled float raster stays a float
/// column, matching the schema the join's initialization promises.
pub open spec fn spec_join_cell(
    acc: (int, int),
    fagg: FeatureAggregationMethod,
    tagg: TemporalAggregationMethod,
    raster_type: RasterDataType,
) -> FeatureCell {
    if acc.1 == 0 {
        FeatureCell::Null
    } else if fagg is First && tagg is First && raster_type.spec_is_integral() {
        FeatureCell::Int(acc.0 as i64)
    } else {
        FeatureCell::Float(Ratio { num: acc.0 as i64, den: acc.1 as i64 })
    }
}

/// Per-tile sample sums are bounded by the sample count times the cap.
pub proof fn lemma_tile_sample_bounds(tile: RasterTile, coords: Seq<Coordinate2D>)
    requires
        tile.wf(),
        spec_tile_values_bounded(tile),
    ensures
        0 <= spec_tile_count(tile, coords) <= coords.len(),
        -spec_tile_count(tile, coords) * spec_value_cap() <= spec_tile_sum(tile, coords)
            <= spec_tile_count(tile, coords) * spec_value_cap(),
        spec_tile_first(tile, coords) matches Some(v) ==> -spec_value_cap() <= v
            <= spec_value_cap(),
        spec_tile_first(tile, coords) is Some ==> coords.len() >= 1,
    decreases coords.len(),
{
    if coords.len() > 0 {
        let rest = coords.subrange(1, coords.len() as int);
        lemma_tile_sample_bounds(tile, rest);
        if spec_sample_valued(tile, coords[0]) {
            lemma_pixel_value_bounded(tile, coords[0]);
        }
        let hc: int = if spec_sample_valued(tile, coords[0]) {
            1
        } else {
            0
        };
        let hs: int = if spec_sample_valued(tile, coords[0]) {
            spec_pixel_value(tile, coords[0])->Some_0 as int
        } else {
            0
        };
        assert(-(hc + spec_tile_count(tile, rest)) * spec_value_cap() <= hs + spec_tile_sum(
            tile,
            rest,
        ) <= (hc + spec_tile_count(tile, rest)) * spec_value_cap()) by (nonlinear_arith)
            requires
                -hc * spec_value_cap() <= hs <= hc * spec_value_cap(),
                -spec_tile_count(tile, rest) * spec_value_cap() <= spec_tile_sum(tile, rest)
                    <= spec_tile_count(tile, rest) * spec_value_cap(),
        ;
    }
}

/// A sampled pixel value lies within the cap.
pub proof fn lemma_pixel_value_bounded(tile: RasterTile, c: Coordinate2D)
    requires
        tile.wf(),
        spec_tile_values_bounded(tile),
        spec_pixel_value(tile, c) is Some,
    ensures
        -spec_value_cap() <= spec_pixel_value(tile, c)->Some_0 <= spec_value_cap(),
{
    let t = tile.tile.global_geo_transform;
    let iy = t.spec_coord_to_grid_y(c.y as int);
    let ix = t.spec_coord_to_grid_x(c.x as int);
    let py = tile.tile.global_pixel_position.y as int;
    let px = tile.tile.global_pixel_position.x as int;
    crate::grid::lemma_lin_index_in_bounds(tile.data.shape, iy - py, ix - px);
}

/// Per-run sample sums are bounded by run length times coordinate count.
pub proof fn lemma_tiles_sample_bounds(tiles: Seq<RasterTile>, coords: Seq<Coordinate2D>)
    requires
        forall|k: int| 0 <= k < tiles.len() ==> (#[trigger] tiles[k]).wf(),
        forall|k: int| 0 <= k < tiles.len() ==> spec_tile_values_bounded(#[trigger] tiles[k]),
    ensures
        0 <= spec_tiles_count(tiles, coords) <= tiles.len() * coords.len(),
        -spec_tiles_count(tiles, coords) * spec_value_cap() <= spec_tiles_sum(tiles, coords)
            <= spec_tiles_count(tiles, coords) * spec_value_cap(),
        spec_tiles_first(tiles, coords) matches Some(v) ==> -spec_value_cap() <= v
            <= spec_value_cap(),
        spec_tiles_first(tiles, coords) is Some ==> tiles.len() >= 1 && coords.len() >= 1,
    decreases tiles.len(),
{
    if tiles.len() > 0 {
        let rest = tiles.subrange(1, tiles.len() as int);
        lemma_tiles_sample_bounds(rest, coords);
        lemma_tile_sample_bounds(tiles[0], coords);
        assert(0 <= spec_tiles_count(tiles, coords) <= tiles.len() * coords.len())
            by (nonlinear_arith)
            requires
                spec_tiles_count(tiles, coords) == spec_tile_count(tiles[0], coords)
                    + spec_tiles_count(rest, coords),
                0 <= spec_tile_count(tiles[0], coords) <= coords.len(),
                0 <= spec_tiles_count(rest, coords) <= rest.len() * coords.len(),
                rest.len() == tiles.len() - 1,
        ;
        assert(-spec_tiles_count(tiles, coords) * spec_value_cap() <= spec_tiles_sum(tiles, coords)
            <= spec_tiles_count(tiles, coords) * spec_value_cap()) by (nonlinear_arith)
            requires
                spec_tiles_sum(tiles, coords) == spec_tile_sum(tiles[0], coords) + spec_tiles_sum(
                    rest,
                    coords,
                ),
                spec_tiles_count(tiles, coords) == spec_tile_count(tiles[0], coords)
                    + spec_tiles_count(rest, coords),
                -spec_tile_count(tiles[0], coords) * spec_value_cap() <= spec_tile_sum(
                    tiles[0],
                    coords,
                ) <= spec_tile_count(tiles[0], coords) * spec_value_cap(),
                -spec_tiles_count(rest, coords) * spec_value_cap() <= spec_tiles_sum(rest, coords)
                    <= spec_tiles_count(rest, coords) * spec_value_cap(),
        ;
    }
}

/// The temporal fold's count is bounded by the uncovered tile range times
/// the coordinate count, and its sum by the count times the cap.
pub proof fn lemma_fold_bounds(
    tiles: Seq<RasterTile>,
    groups: Seq<(usize, usize)>,
    ftime: TimeInterval,
    coords: Seq<Coordinate2D>,
    fagg: FeatureAggregationMethod,
    tagg: TemporalAggregationMethod,
)
    requires
        forall|k: int| 0 <= k < tiles.len() ==> (#[trigger] tiles[k]).wf(),
        forall|k: int| 0 <= k < tiles.len() ==> spec_tile_values_bounded(#[trigger] tiles[k]),
        forall|k: int|
            0 <= k < groups.len() ==> (#[trigger] groups[k]).0 < groups[k].1 <= tiles.len(),
        forall|k: int| 0 <= k && k + 1 < groups.len() ==> (#[trigger] groups[k]).1 == groups[k + 1].0,
    ensures
        0 <= spec_join_fold(tiles, groups, ftime, coords, fagg, tagg).1 <= (if groups.len() == 0 {
            0int
        } else {
            (tiles.len() - groups[0].0) * coords.len()
        }),
        -spec_join_fold(tiles, groups, ftime, coords, fagg, tagg).1 * spec_value_cap()
            <= spec_join_fold(tiles, groups, ftime, coords, fagg, tagg).0 <= spec_join_fold(
            tiles,
            groups,
            ftime,
            coords,
            fagg,
            tagg,
        ).1 * spec_value_cap(),
    decreases groups.len(),
{
    if groups.len() > 0 {
        let g = groups[0];
        let grest = groups.subrange(1, groups.len() as int);
        lemma_fold_bounds(tiles, grest, ftime, coords, fagg, tagg);
        let group = tiles.subrange(g.0 as int, g.1 as int);
        assert(forall|k: int| 0 <= k < group.len() ==> (#[trigger] group[k]).wf());
        assert(forall|k: int|
            0 <= k < group.len() ==> spec_tile_values_bounded(#[trigger] group[k]));
        lemma_tiles_sample_bounds(group, coords);
        let c = spec_group_contrib(group, coords, fagg);
        match fagg {
            FeatureAggregationMethod::Mean => {
                assert(c.1 <= (g.1 - g.0) * coords.len());
            },
            FeatureAggregationMethod::First => {
                match spec_tiles_first(group, coords) {
                    Option::Some(v) => {
                        assert(group.len() >= 1 && coords.len() >= 1);
                        assert(1 <= (g.1 - g.0) * coords.len()) by (nonlinear_arith)
                            requires
                                g.1 - g.0 >= 1,
                                coords.len() >= 1,
                        ;
                        assert(-c.1 * spec_value_cap() <= c.0 <= c.1 * spec_value_cap());
                    },
                    Option::None => {
                        assert(0 <= (g.1 - g.0) * coords.len()) by (nonlinear_arith)
                            requires
                                g.1 - g.0 >= 1,
                                coords.len() >= 0,
                        ;
                    },
                }
            },
        }
        assert(0 <= c.1 <= (g.1 - g.0) * coords.len());
        assert(-c.1 * spec_value_cap() <= c.0 <= c.1 * spec_value_cap());
        let rest = spec_join_fold(tiles, grest, ftime, coords, fagg, tagg);
        let whole = spec_join_fold(tiles, groups, ftime, coords, fagg, tagg);
        let restbound: int = if grest.len() == 0 {
            0
        } else {
            (tiles.len() - grest[0].0) * coords.len()
        };
        assert(grest.len() > 0 ==> grest[0].0 == g.1);
        assert(0 <= whole.1 <= (tiles.len() - g.0) * coords.len() && -whole.1 * spec_value_cap()
            <= whole.0 <= whole.1 * spec_value_cap()) by (nonlinear_arith)
            requires
                whole == spec_join_fold(tiles, groups, ftime, coords, fagg, tagg),
                rest == spec_join_fold(tiles, grest, ftime, coords, fagg, tagg),
                c == spec_group_contrib(group, coords, fagg),
                (whole == rest || whole == c || (whole.0 == c.0 + rest.0 && whole.1 == c.1
                    + rest.1)),
                0 <= c.1 <= (g.1 - g.0) * coords.len(),
                -c.1 * spec_value_cap() <= c.0 <= c.1 * spec_value_cap(),
                0 <= rest.1 <= restbound,
                restbound <= (tiles.len() - g.1) * coords.len() || restbound == 0,
                -rest.1 * spec_value_cap() <= rest.0 <= rest.1 * spec_value_cap(),
                0 <= g.0 < g.1 <= tiles.len(),
                coords.len() >= 0,
                spec_value_cap() > 0,
        ;
    }
}

/// Unfolds one tile off the front of a suffix run.
pub proof fn lemma_tiles_suffix_unfold(tiles: Seq<RasterTile>, t: int, g1: int, coords: Seq<Coordinate2D>)
    requires
        0 <= t < g1 <= tiles.len(),
    ensures
        spec_tiles_sum(tiles.subrange(t, g1), coords) == spec_tile_sum(tiles[t], coords)
            + spec_tiles_sum(tiles.subrange(t + 1, g1), coords),
        spec_tiles_count(tiles.subrange(t, g1), coords) == spec_tile_count(tiles[t], coords)
            + spec_tiles_count(tiles.subrange(t + 1, g1), coords),
        spec_tiles_first(tiles.subrange(t, g1), coords) == (if spec_tile_first(
            tiles[t],
            coords,
        ) is Some {
            spec_tile_first(tiles[t], coords)
        } else {
            spec_tiles_first(tiles.subrange(t + 1, g1), coords)
        }),
{
    let s = tiles.subrange(t, g1);
    assert(s[0] == tiles[t]);
    assert(s.subrange(1, s.len() as int) =~= tiles.subrange(t + 1, g1));
}

/// Unfolds one coordinate off the front of a coordinate suffix.
pub proof fn lemma_coords_suffix_unfold(tile: RasterTile, coords: Seq<Coordinate2D>, c: int)
    requires
        0 <= c < coords.len(),
    ensures
        spec_tile_sum(tile, coords.subrange(c, coords.len() as int)) == (if spec_sample_valued(
            tile,
            coords[c],
        ) {
            spec_pixel_value(tile, coords[c])->Some_0 as int
        } else {
            0
        }) + spec_tile_sum(tile, coords.subrange(c + 1, coords.len() as int)),
        spec_tile_count(tile, coords.subrange(c, coords.len() as int)) == (if spec_sample_valued(
            tile,
            coords[c],
        ) {
            1int
        } else {
            0int
        }) + spec_tile_count(tile, coords.subrange(c + 1, coords.len() as int)),
        spec_tile_first(tile, coords.subrange(c, coords.len() as int)) == (if spec_sample_valued(
            tile,
            coords[c],
        ) {
            spec_pixel_value(tile, coords[c])
        } else {
            spec_tile_first(tile, coords.subrange(c + 1, coords.len() as int))
        }),
{
    let s = coords.subrange(c, coords.len() as int);
    assert(s[0] == coords[c]);
    assert(s.subrange(1, s.len() as int) =~= coords.subrange(c + 1, coords.len() as int));
}

/// Unfolds one group off the front of a group suffix.
pub proof fn lemma_fold_suffix_unfold(
    tiles: Seq<RasterTile>,
    groups: Seq<(usize, usize)>,
    gi: int,
    ftime: TimeInterval,
    coords: Seq<Coordinate2D>,
    fagg: FeatureAggregationMethod,
    tagg: TemporalAggregationMethod,
)
    requires
        0 <= gi < groups.len(),
    ensures
        spec_join_fold(tiles, groups.subrange(gi, groups.len() as int), ftime, coords, fagg, tagg)
            == ({
            let g = groups[gi];
            let rest = spec_join_fold(
                tiles,
                groups.subrange(gi + 1, groups.len() as int),
                ftime,
                coords,
                fagg,
                tagg,
            );
            if g.0 < tiles.len() && g.0 < g.1 <= tiles.len()
                && tiles[g.0 as int].time.spec_intersects(ftime) {
                let c = spec_group_contrib(tiles.subrange(g.0 as int, g.1 as int), coords, fagg);
                match tagg {
                    TemporalAggregationMethod::Mean => (c.0 + rest.0, c.1 + rest.1),
                    TemporalAggregationMethod::First => if c.1 > 0 {
                        c
                    } else {
                        rest
                    },
                }
            } else {
                rest
            }
        }),
{
    let s = groups.subrange(gi, groups.len() as int);
    assert(s[0] == groups[gi]);
    assert(s.subrange(1, s.len() as int) =~= groups.subrange(gi + 1, groups.len() as int));
}

/// Computes the (sum, count) contribution of one run of tiles for one
/// feature's coordinates, together with the first valid sample.
#[verifier::rlimit(100)]
#[verifier::spinoff_prover]
fn group_contrib(
    tiles: &Vec<RasterTile>,
    g0: usize,
    g1: usize,
    mp: &MultiPoint,
    fagg: FeatureAggregationMethod,
) -> (r: (i64, i64))
    requires
        g0 < g1 <= tiles@.len(),
        g1 - g0 <= 0x8000,
        forall|k: int| 0 <= k < tiles@.len() ==> (#[trigger] tiles@[k]).wf(),
        forall|k: int| 0 <= k < tiles@.len() ==> spec_tile_values_bounded(#[trigger] tiles@[k]),
        mp@.len() <= 0x10000,
        forall|i: int|
            0 <= i < mp@.len() ==> -0x200_0000_0000 <= (#[trigger] mp@[i]).x <= 0x200_0000_0000
                && -0x200_0000_0000 <= mp@[i].y <= 0x200_0000_0000,
    ensures
        (r.0 as int, r.1 as int) == spec_group_contrib(
            tiles@.subrange(g0 as int, g1 as int),
            mp@,
            fagg,
        ),
        0 <= r.1 <= (g1 - g0) * 0x10000,
        -r.1 * 0x4000_0000 <= r.0 <= r.1 * 0x4000_0000,
{
    let ghost group = tiles@.subrange(g0 as int, g1 as int);
    let clen = mp.coordinates.len();
    let mut sum: i64 = 0;
    let mut count: i64 = 0;
    let mut first: Option<i64> = None;
    let mut t: usize = g0;
    while t < g1
        invariant
            g0 <= t <= g1,
            spec_tiles_sum(group, mp@) == sum + spec_tiles_sum(
                tiles@.subrange(t as int, g1 as int),
                mp@,
            ),
            spec_tiles_count(group, mp@) == count + spec_tiles_count(
                tiles@.subrange(t as int, g1 as int),
                mp@,
            ),
            spec_tiles_first(group, mp@) == (if first is Some {
                first
            } else {
                spec_tiles_first(tiles@.subrange(t as int, g1 as int), mp@)
            }),
            0 <= count <= (t - g0) * 0x10000,
            -count * 0x4000_0000 <= sum <= count * 0x4000_0000,
            first matches Some(v) ==> -0x4000_0000 <= v <= 0x4000_0000,
        decreases g1 - t,
    {
        let tile = &tiles[t];
        let mut tsum: i64 = 0;
        let mut tcount: i64 = 0;
        let mut tfirst: Option<i64> = None;
        let mut c: usize = 0;
        proof {
            assert(mp@.subrange(0, mp@.len() as int) =~= mp@);
        }
        while c < clen
            invariant
                0 <= c <= clen,
                clen == mp@.len(),
                g0 <= t < g1,
                spec_tile_sum(tiles@[t as int], mp@) == tsum + spec_tile_sum(
                    tiles@[t as int],
                    mp@.subrange(c as int, clen as int),
                ),
                spec_tile_count(tiles@[t as int], mp@) == tcount + spec_tile_count(
                    tiles@[t as int],
                    mp@.subrange(c as int, clen as int),
                ),
                spec_tile_first(tiles@[t as int], mp@) == (if tfirst is Some {
                    tfirst
                } else {
                    spec_tile_first(tiles@[t as int], mp@.subrange(c as int, clen as int))
                }),
                0 <= tcount <= c,
                -tcount * 0x4000_0000 <= tsum <= tcount * 0x4000_0000,
                tfirst matches Some(v) ==> -0x4000_0000 <= v <= 0x4000_0000,
            decreases clen - c,
        {
            proof {
                lemma_coords_suffix_unfold(tiles@[t as int], mp@, c as int);
            }
            let coord = mp.coordinates[c];
            let idx = tile.tile.global_geo_transform.coordinate_to_grid_idx_2d(coord);
            match tile.get_at_grid_index(idx) {
                Option::Some(v) => {
                    let is_nd = match tile.data.no_data_value {
                        Option::Some(nd) => nd == v,
                        Option::None => false,
                    };
                    if !is_nd {
                        proof {
                            assert(spec_sample_valued(tiles@[t as int], mp@[c as int]));
                            assert(spec_pixel_value(tiles@[t as int], mp@[c as int])
                                == Option::Some(v));
                            lemma_pixel_value_bounded(tiles@[t as int], mp@[c as int]);
                        }
                        tsum = tsum + v;
                        tcount = tcount + 1;
                        if tfirst.is_none() {
                            tfirst = Some(v);
                        }
                    } else {
                        proof {
                            assert(!spec_sample_valued(tiles@[t as int], mp@[c as int]));
                        }
                    }
                },
                Option::None => {
                    proof {
                        assert(!spec_sample_valued(tiles@[t as int], mp@[c as int]));
                    }
                },
            }
            c = c + 1;
        }
        proof {
            assert(mp@.subrange(clen as int, clen as int) =~= Seq::<Coordinate2D>::empty());
            assert(spec_tile_sum(tiles@[t as int], Seq::<Coordinate2D>::empty()) == 0);
            assert(spec_tile_count(tiles@[t as int], Seq::<Coordinate2D>::empty()) == 0);
            assert(spec_tile_first(tiles@[t as int], Seq::<Coordinate2D>::empty()) is None);
            lemma_tiles_suffix_unfold(tiles@, t as int, g1 as int, mp@);
        }
        proof {
            assert(count <= 0x8000_0000);
            assert(tcount <= 0x10000);
        }
        sum = sum + tsum;
        count = count + tcount;
        if first.is_none() {
            first = tfirst;
        }
        t = t + 1;
    }
    proof {
        assert(tiles@.subrange(g1 as int, g1 as int) =~= Seq::<RasterTile>::empty());
        assert(spec_tiles_sum(Seq::<RasterTile>::empty(), mp@) == 0);
        assert(spec_tiles_count(Seq::<RasterTile>::empty(), mp@) == 0);
        assert(spec_tiles_first(Seq::<RasterTile>::empty(), mp@) is None);
    }
    match fagg {
        FeatureAggregationMethod::Mean => (sum, count),
        FeatureAggregationMethod::First => {
            match first {
                Option::Some(v) => (v, 1),
                Option::None => (0, 0),
            }
        },
    }
}

/// The running state of the temporal fold after some prefix of the groups:
/// combining it with the fold of the remaining groups gives the whole fold.
pub open spec fn spec_fold_inv(
    tiles: Seq<RasterTile>,
    groups: Seq<(usize, usize)>,
    gi: int,
    ftime: TimeInterval,
    coords: Seq<Coordinate2D>,
    fagg: FeatureAggregationMethod,
    tagg: TemporalAggregationMethod,
    sum: int,
    count: int,
) -> bool {
    let total = spec_join_fold(tiles, groups, ftime, coords, fagg, tagg);
    let rest = spec_join_fold(
        tiles,
        groups.subrange(gi, groups.len() as int),
        ftime,
        coords,
        fagg,
        tagg,
    );
    match tagg {
        TemporalAggregationMethod::Mean => total == (sum + rest.0, count + rest.1),
        TemporalAggregationMethod::First => total == (if count > 0 {
            (sum, count)
        } else {
            rest
        }),
    }
}

/// Folds the time slices of a tile stream for one feature: the feature
/// samples every slice whose time intersects its own, and the per-slice
/// aggregates are combined by the temporal aggregation method.
#[verifier::rlimit(100)]
#[verifier::spinoff_prover]
pub fn aggregate_feature(
    tiles: &Vec<RasterTile>,
    groups: &Vec<(usize, usize)>,
    ftime: TimeInterval,
    mp: &MultiPoint,
    fagg: FeatureAggregationMethod,
    tagg: TemporalAggregationMethod,
) -> (r: (i64, i64))
    requires
        forall|k: int| 0 <= k < tiles@.len() ==> (#[trigger] tiles@[k]).wf(),
        forall|k: int| 0 <= k < tiles@.len() ==> spec_tile_values_bounded(#[trigger] tiles@[k]),
        tiles@.len() <= 0x8000,
        spec_grouping_ok(tiles@, groups@),
        mp@.len() <= 0x10000,
        forall|i: int|
            0 <= i < mp@.len() ==> -0x200_0000_0000 <= (#[trigger] mp@[i]).x <= 0x200_0000_0000
                && -0x200_0000_0000 <= mp@[i].y <= 0x200_0000_0000,
    ensures
        (r.0 as int, r.1 as int) == spec_join_fold(tiles@, groups@, ftime, mp@, fagg, tagg),
        0 <= r.1,
{
    let glen = groups.len();
    let mut sum: i64 = 0;
    let mut count: i64 = 0;
    let mut gi: usize = 0;
    proof {
        assert(groups@.subrange(0, glen as int) =~= groups@);
    }
    while gi < glen
        invariant
            0 <= gi <= glen,
            glen == groups@.len(),
            spec_fold_inv(tiles@, groups@, gi as int, ftime, mp@, fagg, tagg, sum as int, count as int),
            gi == 0 ==> count == 0,
            gi > 0 ==> count <= (groups@[gi - 1].1 as int) * 0x10000,
            0 <= count,
            -count * 0x4000_0000 <= sum <= count * 0x4000_0000,
        decreases glen - gi,
    {
        proof {
            lemma_fold_suffix_unfold(tiles@, groups@, gi as int, ftime, mp@, fagg, tagg);
        }
        let g = groups[gi];
        let skip = match tagg {
            TemporalAggregationMethod::First => count > 0,
            TemporalAggregationMethod::Mean => false,
        };
        proof {
            assert(count <= 0x8000_0000);
        }
        if !skip && tiles[g.0].time.intersects(ftime) {
            let slice_part = group_contrib(tiles, g.0, g.1, mp, fagg);
            proof {
                assert(g.1 <= tiles@.len() <= 0x8000);
                assert(slice_part.1 <= (g.1 - g.0) * 0x10000);
                assert(gi > 0 ==> groups@[gi - 1].1 == g.0);
                assert(count + slice_part.1 <= (g.1 as int) * 0x10000) by (nonlinear_arith)
                    requires
                        count <= (g.0 as int) * 0x10000,
                        slice_part.1 <= (g.1 - g.0) * 0x10000,
                        0 <= g.0 < g.1,
                ;
                assert(-(count + slice_part.1) * 0x4000_0000 <= sum + slice_part.0 <= (count + slice_part.1)
                    * 0x4000_0000) by (nonlinear_arith)
                    requires
                        -count * 0x4000_0000 <= sum <= count * 0x4000_0000,
                        -slice_part.1 * 0x4000_0000 <= slice_part.0 <= slice_part.1 * 0x4000_0000,
                ;
            }
            match tagg {
                TemporalAggregationMethod::Mean => {
                    sum = sum + slice_part.0;
                    count = count + slice_part.1;
                },
                TemporalAggregationMethod::First => {
                    if slice_part.1 > 0 {
                        sum = slice_part.0;
                        count = slice_part.1;
                    }
                },
            }
        } else {
            proof {
                if skip {
                    assert(count > 0);
                }
                if gi > 0 {
                    assert(groups@[gi - 1].1 == g.0 && g.0 < g.1);
                    assert(count <= (g.1 as int) * 0x10000);
                }
            }
        }
        gi = gi + 1;
    }
    proof {
        assert(groups@.subrange(glen as int, glen as int) =~= Seq::<(usize, usize)>::empty());
        assert(spec_join_fold(tiles@, Seq::<(usize, usize)>::empty(), ftime, mp@, fagg, tagg)
            == (0int, 0int));
    }
    (sum, count)
}

/// The coordinates of every feature lie in the range the affine sampling
/// arithmetic admits.
pub open spec fn spec_points_in_range(points: MultiPointCollection) -> bool {
    forall|f: int, i: int|
        0 <= f < points.coordinates@.len() && 0 <= i < (#[trigger] points.coordinates@[f])@.len()
            ==> -0x200_0000_0000 <= (#[trigger] points.coordinates@[f]@[i]).x <= 0x200_0000_0000
            && -0x200_0000_0000 <= points.coordinates@[f]@[i].y <= 0x200_0000_0000
}

/// The cell of feature `f` that the join appends.
pub open spec fn spec_join_result_cell(
    points: MultiPointCollection,
    tiles: Seq<RasterTile>,
    groups: Seq<(usize, usize)>,
    f: int,
    fagg: FeatureAggregationMethod,
    tagg: TemporalAggregationMethod,
    raster_type: RasterDataType,
) -> FeatureCell {
    spec_join_cell(
        spec_join_fold(
            tiles,
            groups,
            points.spec_times()[f],
            points.spec_geometries()[f],
            fagg,
            tagg,
        ),
        fagg,
        tagg,
        raster_type,
    )
}

/// Samples the raster stream at every feature of the collection and appends
/// the aggregated values as a new attribute column.
///
/// The new column holds integers under first/first aggregation of an
/// integral raster and exact rationals otherwise; a feature without any
/// valid sample gets a null. The result keeps the input feature order:
/// since every feature is aggregated independently over the slices that
/// intersect its own time interval, no time sort is needed, and the column
/// reads "input collection with one column appended". Fails exactly when
/// the collection already carries a column of the given name.
#[verifier::rlimit(100)]
#[verifier::spinoff_prover]
pub fn extract_raster_values(
    points: &MultiPointCollection,
    tiles: &Vec<RasterTile>,
    groups: &Vec<(usize, usize)>,
    new_column_name: String,
    fagg: FeatureAggregationMethod,
    tagg: TemporalAggregationMethod,
    raster_type: RasterDataType,
) -> (r: Result<MultiPointCollection, CollectionError>)
    requires
        points.wf(),
        points.columns@.len() < 0x100,
        spec_points_in_range(*points),
        forall|k: int| 0 <= k < tiles@.len() ==> (#[trigger] tiles@[k]).wf(),
        forall|k: int| 0 <= k < tiles@.len() ==> spec_tile_values_bounded(#[trigger] tiles@[k]),
        tiles@.len() <= 0x8000,
        spec_grouping_ok(tiles@, groups@),
    ensures
        r is Ok <==> (forall|j: int|
            0 <= j < points.columns@.len() ==> (#[trigger] points.columns@[j]).name@
                != new_column_name@),
        r matches Ok(c) ==> {
            &&& c.wf()
            &&& c.spec_geometries() == points.spec_geometries()
            &&& c.spec_times() == points.spec_times()
            &&& c.columns@.len() == points.columns@.len() + 1
            &&& forall|j: int|
                0 <= j < points.columns@.len() ==> (#[trigger] c.columns@[j]).name@
                    == points.columns@[j].name@ && c.columns@[j].data.spec_cells()
                    == points.columns@[j].data.spec_cells()
            &&& c.columns@[points.columns@.len() as int].name@ == new_column_name@
            &&& c.columns@[points.columns@.len() as int].data.spec_cells().len()
                == points.spec_len()
            &&& forall|f: int|
                0 <= f < points.spec_len() ==> c.columns@[points.columns@.len() as int].data.spec_cells()[f]
                    == spec_join_result_cell(*points, tiles@, groups@, f, fagg, tagg, raster_type)
            &&& c.columns@[points.columns@.len() as int].data.spec_data_type() == (
            if fagg is First && tagg is First && raster_type.spec_is_integral() {
                crate::collections::FeatureDataType::Int
            } else {
                crate::collections::FeatureDataType::Float
            })
        },
{
    let n = points.len();
    let both_first = match (fagg, tagg) {
        (FeatureAggregationMethod::First, TemporalAggregationMethod::First) => true,
        _ => false,
    };
    let data: ColumnData;
    if both_first && raster_type.is_integral() {
        let mut cells: Vec<Option<i64>> = Vec::new();
        let mut f: usize = 0;
        while f < n
            invariant
                f <= n,
                n == points.spec_len(),
                fagg is First && tagg is First && raster_type.spec_is_integral(),
                cells@.len() == f,
                forall|f0: int|
                    0 <= f0 < f ==> (match #[trigger] cells@[f0] {
                        Option::None => FeatureCell::Null,
                        Option::Some(v) => FeatureCell::Int(v),
                    }) == spec_join_result_cell(*points, tiles@, groups@, f0, fagg, tagg, raster_type),
            decreases n - f,
        {
            let ftime = points.time_intervals[f];
            let acc = aggregate_feature(tiles, groups, ftime, &points.coordinates[f], fagg, tagg);
            proof {
                assert(points.spec_geometries()[f as int] == points.coordinates@[f as int]@);
            }
            if acc.1 == 0 {
                cells.push(None);
            } else {
                cells.push(Some(acc.0));
            }
            f = f + 1;
        }
        data = ColumnData::Int(cells);
        proof {
            assert forall|f0: int| 0 <= f0 < n implies data.spec_cells()[f0]
                == spec_join_result_cell(*points, tiles@, groups@, f0, fagg, tagg, raster_type) by {}
        }
    } else {
        let mut cells: Vec<Option<Ratio>> = Vec::new();
        let mut f: usize = 0;
        while f < n
            invariant
                f <= n,
                n == points.spec_len(),
                !(fagg is First && tagg is First && raster_type.spec_is_integral()),
                cells@.len() == f,
                forall|f0: int|
                    0 <= f0 < f ==> (match #[trigger] cells@[f0] {
                        Option::None => FeatureCell::Null,
                        Option::Some(q) => FeatureCell::Float(q),
                    }) == spec_join_result_cell(*points, tiles@, groups@, f0, fagg, tagg, raster_type),
            decreases n - f,
        {
            let ftime = points.time_intervals[f];
            let acc = aggregate_feature(tiles, groups, ftime, &points.coordinates[f], fagg, tagg);
            proof {
                assert(points.spec_geometries()[f as int] == points.coordinates@[f as int]@);
            }
            if acc.1 == 0 {
                cells.push(None);
            } else {
                cells.push(Some(Ratio { num: acc.0, den: acc.1 }));
            }
            f = f + 1;
        }
        data = ColumnData::Float(cells);
        proof {
            assert forall|f0: int| 0 <= f0 < n implies data.spec_cells()[f0]
                == spec_join_result_cell(*points, tiles@, groups@, f0, fagg, tagg, raster_type) by {}
        }
    }
    points.add_column(new_column_name, data)
}

/// The join processor: one output column name per raster input, and the
/// two aggregation levels. Its query samples every raster input at the
/// vector input's features and appends one column per raster.
pub struct RasterPointAggregateJoinProcessor {
    pub column_names: Vec<String>,
    pub raster_types: Vec<RasterDataType>,
    pub feature_aggregation: FeatureAggregationMethod,
    pub temporal_aggregation: TemporalAggregationMethod,
}

impl RasterPointAggregateJoinProcessor {
    /// Builds the processor from its configuration.
    pub fn new(
        column_names: Vec<String>,
        raster_types: Vec<RasterDataType>,
        feature_aggregation: FeatureAggregationMethod,
        temporal_aggregation: TemporalAggregationMethod,
    ) -> (r: RasterPointAggregateJoinProcessor)
        ensures
            r.column_names@ == column_names@,
            r.raster_types@ == raster_types@,
            r.feature_aggregation == feature_aggregation,
            r.temporal_aggregation == temporal_aggregation,
    {
        RasterPointAggregateJoinProcessor {
            column_names,
            raster_types,
            feature_aggregation,
            temporal_aggregation,
        }
    }

    /// Answers one pull of the join: for each raster input's tile stream,
    /// the features are sampled and one aggregate column is appended.
    ///
    /// Succeeds exactly when the output column names are mutually distinct
    /// and none of them is already a column of the input collection.
    #[verifier::rlimit(100)]
    #[verifier::spinoff_prover]
    pub fn query(&self, points: &MultiPointCollection, raster_tile_sets: &Vec<Vec<RasterTile>>)
        -> (r: Result<MultiPointCollection, CollectionError>)
        requires
            points.wf(),
            spec_points_in_range(*points),
            self.column_names@.len() == raster_tile_sets@.len(),
            self.raster_types@.len() == raster_tile_sets@.len(),
            points.columns@.len() + self.column_names@.len() < 0x100,
            forall|k: int, t: int|
                0 <= k < raster_tile_sets@.len() && 0 <= t < (#[trigger] raster_tile_sets@[k])@.len()
                    ==> (#[trigger] raster_tile_sets@[k]@[t]).wf() && spec_tile_values_bounded(
                    raster_tile_sets@[k]@[t],
                ),
            forall|k: int| 0 <= k < raster_tile_sets@.len() ==> (#[trigger] raster_tile_sets@[k])@.len()
                <= 0x8000,
        ensures
            r is Ok <==> ((forall|k: int, j: int|
                0 <= k < self.column_names@.len() && 0 <= j < points.columns@.len() ==> (#[trigger]
                points.columns@[j]).name@ != (#[trigger] self.column_names@[k])@) && (forall|
                k1: int,
                k2: int,
            |
                0 <= k1 < k2 < self.column_names@.len() ==> (#[trigger] self.column_names@[k1])@
                    != (#[trigger] self.column_names@[k2])@)),
            r matches Ok(c) ==> {
                &&& c.wf()
                &&& c.spec_geometries() == points.spec_geometries()
                &&& c.spec_times() == points.spec_times()
                &&& c.columns@.len() == points.columns@.len() + self.column_names@.len()
                &&& forall|j: int|
                    0 <= j < points.columns@.len() ==> (#[trigger] c.columns@[j]).name@
                        == points.columns@[j].name@ && c.columns@[j].data.spec_cells()
                        == points.columns@[j].data.spec_cells()
                &&& forall|k: int|
                    0 <= k < self.column_names@.len() ==> (#[trigger] c.columns@[
                        points.columns@.len() + k
                    ]).name@ == self.column_names@[k]@
                &&& exists|gl: Seq<Seq<(usize, usize)>>|
                    #![trigger gl.len()]
                    gl.len() == self.column_names@.len() && (forall|k: int|
                        0 <= k < gl.len() ==> spec_grouping_ok(
                            (#[trigger] raster_tile_sets@[k])@,
                            gl[k],
                        )) && (forall|k: int, f: int|
                        0 <= k < gl.len() && 0 <= f < points.spec_len() ==> (#[trigger] c.columns@[
                            points.columns@.len() + k
                        ].data.spec_cells()[f]) == spec_join_cell(
                            spec_join_fold(
                                raster_tile_sets@[k]@,
                                gl[k],
                                points.spec_times()[f],
                                points.spec_geometries()[f],
                                self.feature_aggregation,
                                self.temporal_aggregation,
                            ),
                            self.feature_aggregation,
                            self.temporal_aggregation,
                            self.raster_types@[k],
                        ))
            },
    {
        let mut current = points.duplicate();
        proof {
            assert forall|f: int, i: int|
                0 <= f < current.coordinates@.len() && 0 <= i < (#[trigger]
                current.coordinates@[f])@.len() implies -0x200_0000_0000 <= (#[trigger]
            current.coordinates@[f]@[i]).x <= 0x200_0000_0000 && -0x200_0000_0000
                <= current.coordinates@[f]@[i].y <= 0x200_0000_0000 by {
                assert(current.spec_geometries()[f] == current.coordinates@[f]@);
                assert(points.spec_geometries()[f] == points.coordinates@[f]@);
            }
        }
        let n = self.column_names.len();
        let base = points.columns.len();
        let ghost mut groups_list: Seq<Seq<(usize, usize)>> = Seq::empty();
        let mut k: usize = 0;
        while k < n
            invariant
                k <= n,
                n == self.column_names@.len(),
                base == points.columns@.len(),
                current.wf(),
                spec_points_in_range(current),
                current.spec_geometries() == points.spec_geometries(),
                current.spec_times() == points.spec_times(),
                current.columns@.len() == base + k,
                forall|j: int|
                    0 <= j < base ==> (#[trigger] current.columns@[j]).name@
                        == points.columns@[j].name@ && current.columns@[j].data.spec_cells()
                        == points.columns@[j].data.spec_cells(),
                forall|q: int|
                    0 <= q < k ==> (#[trigger] current.columns@[base + q]).name@
                        == self.column_names@[q]@,
                groups_list.len() == k,
                forall|q: int|
                    0 <= q < k ==> spec_grouping_ok(
                        (#[trigger] raster_tile_sets@[q])@,
                        groups_list[q],
                    ),
                forall|q: int, f: int|
                    0 <= q < k && 0 <= f < points.spec_len() ==> (#[trigger] current.columns@[base
                        + q].data.spec_cells()[f]) == spec_join_cell(
                        spec_join_fold(
                            raster_tile_sets@[q]@,
                            groups_list[q],
                            points.spec_times()[f],
                            points.spec_geometries()[f],
                            self.feature_aggregation,
                            self.temporal_aggregation,
                        ),
                        self.feature_aggregation,
                        self.temporal_aggregation,
                        self.raster_types@[q],
                    ),
                forall|k0: int, j: int|
                    0 <= k0 < k && 0 <= j < base ==> (#[trigger] points.columns@[j]).name@
                        != (#[trigger] self.column_names@[k0])@,
                forall|k1: int, k2: int|
                    0 <= k1 < k2 < k ==> (#[trigger] self.column_names@[k1])@ != (#[trigger]
                    self.column_names@[k2])@,
            decreases n - k,
        {
            let tiles = &raster_tile_sets[k];
            let groups = time_groups(tiles);
            let name = crate::collections::clone_string(&self.column_names[k]);
            match extract_raster_values(
                &current,
                tiles,
                &groups,
                name,
                self.feature_aggregation,
                self.temporal_aggregation,
                self.raster_types[k],
            ) {
                Ok(next) => {
                    proof {
                        assert forall|f: int, i: int|
                            0 <= f < next.coordinates@.len() && 0 <= i < (#[trigger]
                            next.coordinates@[f])@.len() implies -0x200_0000_0000 <= (#[trigger]
                        next.coordinates@[f]@[i]).x <= 0x200_0000_0000 && -0x200_0000_0000
                            <= next.coordinates@[f]@[i].y <= 0x200_0000_0000 by {
                            assert(next.spec_geometries()[f] == next.coordinates@[f]@);
                            assert(current.spec_geometries()[f] == current.coordinates@[f]@);
                        }
                        assert forall|f: int|
                            0 <= f < points.spec_len() implies (#[trigger] next.columns@[base
                                + k].data.spec_cells()[f]) == spec_join_cell(
                            spec_join_fold(
                                raster_tile_sets@[k as int]@,
                                groups@,
                                points.spec_times()[f],
                                points.spec_geometries()[f],
                                self.feature_aggregation,
                                self.temporal_aggregation,
                            ),
                            self.feature_aggregation,
                            self.temporal_aggregation,
                            self.raster_types@[k as int],
                        ) by {
                            assert(next.columns@[base + k].data.spec_cells()[f]
                                == spec_join_result_cell(
                                current,
                                raster_tile_sets@[k as int]@,
                                groups@,
                                f,
                                self.feature_aggregation,
                                self.temporal_aggregation,
                                self.raster_types@[k as int],
                            ));
                            assert(current.spec_times()[f] == points.spec_times()[f]);
                            assert(current.spec_geometries()[f] == points.spec_geometries()[f]);
                        }
                    }
                    proof {
                        groups_list = groups_list.push(groups@);
                        assert forall|j: int|
                            0 <= j < base implies (#[trigger] points.columns@[j]).name@
                            != self.column_names@[k as int]@ by {
                            assert(current.columns@[j].name@ == points.columns@[j].name@);
                            assert(current.columns@[j].name@ != self.column_names@[k as int]@);
                        }
                        assert forall|k1: int|
                            0 <= k1 < k implies (#[trigger] self.column_names@[k1])@
                            != self.column_names@[k as int]@ by {
                            assert(current.columns@[base + k1].name@ == self.column_names@[k1]@);
                            assert(current.columns@[base + k1].name@ != self.column_names@[
                                k as int
                            ]@);
                        }
                    }
                    current = next;
                },
                Err(e) => {
                    proof {
                        // the rejected name either collides with an input
                        // column or repeats an earlier output name
                        let cn = self.column_names@[k as int]@;
                        assert(exists|j: int|
                            0 <= j < current.columns@.len() && (#[trigger] current.columns@[j]).name@
                                == cn);
                        let j = choose|j: int|
                            0 <= j < current.columns@.len() && (#[trigger] current.columns@[j]).name@
                                == cn;
                        if j < base {
                            assert(points.columns@[j].name@ == cn);
                        } else {
                            let q = j - base;
                            assert(current.columns@[base + q].name@ == self.column_names@[q]@);
                            assert(self.column_names@[q]@ == cn);
                        }
                    }
                    return Err(e);
                },
            }
            k = k + 1;
        }
        proof {
            assert(groups_list.len() == self.column_names@.len() && (forall|k0: int|
                0 <= k0 < groups_list.len() ==> spec_grouping_ok(
                    (#[trigger] raster_tile_sets@[k0])@,
                    groups_list[k0],
                )) && (forall|k0: int, f: int|
                0 <= k0 < groups_list.len() && 0 <= f < points.spec_len() ==> (#[trigger]
                current.columns@[base + k0].data.spec_cells()[f]) == spec_join_cell(
                    spec_join_fold(
                        raster_tile_sets@[k0]@,
                        groups_list[k0],
                        points.spec_times()[f],
                        points.spec_geometries()[f],
                        self.feature_aggregation,
                        self.temporal_aggregation,
                    ),
                    self.feature_aggregation,
                    self.temporal_aggregation,
                    self.raster_types@[k0],
                )));
        }
        Ok(current)
    }
}

} // verus!
