//! The sparse-tiles fill adapter: turns a tile stream with spatial or
//! temporal gaps into a complete stream with exactly one tile per expected
//! (time slice, tile position) combination, synthesizing no-data tiles for
//! the gaps.

use vstd::prelude::*;
use vstd::arithmetic::div_mod::{
    lemma_fundamental_div_mod, lemma_fundamental_div_mod_converse_div,
    lemma_fundamental_div_mod_converse_mod,
};
use crate::grid::{GeoTransform, Grid2D, GridIdx2D, GridShape2D};
use crate::raster::{RasterTile, TileInformation};
use crate::tiling::{
    lemma_count_positive, lemma_tile_enumeration_bijective, lemma_tile_pos_contained, TileGrid,
};
use crate::time::TimeInterval;

verus! {

/// Strict order on time intervals: by start, then by end.
pub open spec fn spec_time_lt(a: TimeInterval, b: TimeInterval) -> bool {
    a.spec_start() < b.spec_start() || (a.spec_start() == b.spec_start() && a.spec_end()
        < b.spec_end())
}

/// The expected time slices, strictly ascending.
pub open spec fn spec_times_strictly_sorted(times: Seq<TimeInterval>) -> bool {
    forall|i: int, j: int|
        0 <= i < j < times.len() ==> spec_time_lt(#[trigger] times[i], #[trigger] times[j])
}

/// In a strictly sorted time list, no interval occurs twice.
pub proof fn lemma_time_index_unique(times: Seq<TimeInterval>, i: int, j: int)
    requires
        spec_times_strictly_sorted(times),
        0 <= i < times.len(),
        0 <= j < times.len(),
        times[i] == times[j],
    ensures
        i == j,
{
    if i < j {
        assert(spec_time_lt(times[i], times[j]));
    }
    if j < i {
        assert(spec_time_lt(times[j], times[i]));
    }
}

/// Whether some expected time slice equals `t`.
pub open spec fn spec_has_time(times: Seq<TimeInterval>, t: TimeInterval) -> bool {
    exists|ti: int| 0 <= ti < times.len() && times[ti] == t
}

/// The index of the time slice equal to `t`; meaningful when
/// `spec_has_time` holds and the list is strictly sorted.
pub open spec fn spec_time_index(times: Seq<TimeInterval>, t: TimeInterval) -> int {
    choose|ti: int| 0 <= ti < times.len() && times[ti] == t
}

/// Whether a tile occupies one of the expected slots.
pub open spec fn spec_slot_valid(
    grid: TileGrid,
    times: Seq<TimeInterval>,
    tile: RasterTile,
) -> bool {
    &&& spec_has_time(times, tile.time)
    &&& grid.spec_contains_pos(
        tile.tile.global_tile_position.y as int,
        tile.tile.global_tile_position.x as int,
    )
}

/// The canonical slot index of a tile: time slices first, and within one
/// time slice the row-major tile order of the grid.
pub open spec fn spec_tile_slot(grid: TileGrid, times: Seq<TimeInterval>, tile: RasterTile) -> int {
    spec_time_index(times, tile.time) * grid.spec_count() + grid.spec_index_of_pos(
        tile.tile.global_tile_position.y as int,
        tile.tile.global_tile_position.x as int,
    )
}

/// The input stream is a gap-carrying subsequence of the canonical slot
/// enumeration: every tile occupies an expected slot, in strictly ascending
/// slot order.
pub open spec fn spec_input_canonical(
    grid: TileGrid,
    times: Seq<TimeInterval>,
    input: Seq<RasterTile>,
) -> bool {
    &&& forall|j: int| 0 <= j < input.len() ==> spec_slot_valid(grid, times, #[trigger] input[j])
    &&& forall|i: int, j: int|
        0 <= i < j < input.len() ==> spec_tile_slot(grid, times, #[trigger] input[i])
            < spec_tile_slot(grid, times, #[trigger] input[j])
}

/// A pull-based adapter over a sparse tile sequence. Each call of `next`
/// yields the tile of the next canonical slot: the input tile occupying that
/// slot if there is one, and a synthesized fill tile otherwise.
pub struct SparseTilesFillAdapter {
    /// The tile positions expected for every time slice.
    pub grid: TileGrid,
    /// The expected time slices, strictly ascending.
    pub times: Vec<TimeInterval>,
    /// The pixel shape of every tile.
    pub tile_shape: GridShape2D,
    /// The global geo-transform of the tiling.
    pub transform: GeoTransform,
    /// The no-data value written into every pixel of a fill tile.
    pub fill_value: i64,
    /// The sparse input, canonically ordered.
    pub input: Vec<RasterTile>,
    /// How many input tiles have been passed through.
    pub in_idx: usize,
    /// How many tiles have been emitted: the next canonical slot.
    pub step: u64,
}

impl SparseTilesFillAdapter {
    /// The number of slots: one per (time slice, tile position) pair.
    pub open spec fn spec_total(self) -> int {
        self.times@.len() * self.grid.spec_count()
    }

    pub open spec fn wf(self) -> bool {
        &&& self.grid.wf()
        &&& self.tile_shape.wf()
        &&& self.transform.wf()
        &&& 0 < self.times@.len() <= 0x10000
        &&& forall|t: int| 0 <= t < self.times@.len() ==> (#[trigger] self.times@[t]).wf()
        &&& spec_times_strictly_sorted(self.times@)
        &&& spec_input_canonical(self.grid, self.times@, self.input@)
        &&& forall|j: int|
            0 <= j < self.input@.len() ==> (#[trigger] self.input@[j]).wf()
                && self.input@[j].data.shape == self.tile_shape
                && self.input@[j].tile.tile_size_in_pixels == self.tile_shape
                && self.input@[j].tile.global_geo_transform == self.transform
        &&& self.in_idx <= self.input@.len()
        &&& 0 <= self.step <= self.spec_total()
        &&& forall|j: int|
            self.in_idx <= j < self.input@.len() ==> spec_tile_slot(
                self.grid,
                self.times@,
                #[trigger] self.input@[j],
            ) >= self.step
        &&& forall|j: int|
            0 <= j < self.in_idx ==> spec_tile_slot(self.grid, self.times@, #[trigger] self.input@[j])
                < self.step
    }

    /// Builds the adapter at the start of the stream.
    pub fn new(
        grid: TileGrid,
        times: Vec<TimeInterval>,
        tile_shape: GridShape2D,
        transform: GeoTransform,
        fill_value: i64,
        input: Vec<RasterTile>,
    ) -> (r: SparseTilesFillAdapter)
        requires
            grid.wf(),
            tile_shape.wf(),
            transform.wf(),
            0 < times@.len() <= 0x10000,
            forall|t: int| 0 <= t < times@.len() ==> (#[trigger] times@[t]).wf(),
            spec_times_strictly_sorted(times@),
            spec_input_canonical(grid, times@, input@),
            forall|j: int|
                0 <= j < input@.len() ==> (#[trigger] input@[j]).wf() && input@[j].data.shape
                    == tile_shape && input@[j].tile.tile_size_in_pixels == tile_shape
                    && input@[j].tile.global_geo_transform == transform,
        ensures
            r.wf(),
            r.grid == grid,
            r.times@ == times@,
            r.tile_shape == tile_shape,
            r.transform == transform,
            r.fill_value == fill_value,
            r.input@ == input@,
            r.in_idx == 0,
            r.step == 0,
    {
        proof {
            lemma_count_positive(grid);
            assert(times@.len() * grid.spec_count() > 0) by (nonlinear_arith)
                requires
                    times@.len() > 0,
                    grid.spec_count() > 0,
            ;
            if input@.len() > 0 {
                assert(forall|j: int|
                    0 <= j < input@.len() ==> spec_tile_slot(grid, times@, #[trigger] input@[j])
                        >= 0) by {
                    assert forall|j: int| 0 <= j < input@.len() implies spec_tile_slot(
                        grid,
                        times@,
                        #[trigger] input@[j],
                    ) >= 0 by {
                        lemma_slot_in_range(grid, times@, input@[j]);
                    }
                }
            }
        }
        SparseTilesFillAdapter { grid, times, tile_shape, transform, fill_value, input, in_idx: 0, step: 0 }
    }

    /// The total number of tiles this adapter will emit.
    pub fn total(&self) -> (r: u64)
        requires
            self.wf(),
        ensures
            r == self.spec_total(),
    {
        let c = self.grid.count();
        proof {
            assert(self.times@.len() * c <= 0x10000 * 0x4000_0000) by (nonlinear_arith)
                requires
                    0 < self.times@.len() <= 0x10000,
                    0 < c <= 0x4000_0000,
            ;
        }
        (self.times.len() as u64) * c
    }

    /// Emits the tile of the next canonical slot, or nothing once every slot
    /// has been served.
    ///
    /// The emitted tile carries the slot's time slice and tile position. It
    /// is the input tile occupying that slot where one exists; otherwise it
    /// is a fill tile whose every pixel is the fill value, marked no-data.
    pub fn next(&mut self) -> (r: Option<RasterTile>)
        requires
            old(self).wf(),
        ensures
            final(self).wf(),
            final(self).grid == old(self).grid,
            final(self).times@ == old(self).times@,
            final(self).tile_shape == old(self).tile_shape,
            final(self).transform == old(self).transform,
            final(self).fill_value == old(self).fill_value,
            final(self).input@ == old(self).input@,
            r is None <==> old(self).step == old(self).spec_total(),
            r is None ==> final(self).in_idx == old(self).in_idx && final(self).step == old(
                self,
            ).step,
            r matches Some(tile) ==> {
                let k = old(self).step as int;
                let c = old(self).grid.spec_count();
                &&& final(self).step == old(self).step + 1
                &&& tile.wf()
                &&& tile.data.shape == old(self).tile_shape
                &&& tile.time == old(self).times@[k / c]
                &&& tile.tile.global_tile_position.y == old(self).grid.spec_tile_y(k % c)
                &&& tile.tile.global_tile_position.x == old(self).grid.spec_tile_x(k % c)
                &&& if old(self).in_idx < old(self).input@.len() && spec_tile_slot(
                    old(self).grid,
                    old(self).times@,
                    old(self).input@[old(self).in_idx as int],
                ) == k {
                    let orig = old(self).input@[old(self).in_idx as int];
                    &&& tile.time == orig.time
                    &&& tile.tile == orig.tile
                    &&& tile.data.shape == orig.data.shape
                    &&& tile.data.data@ == orig.data.data@
                    &&& tile.data.no_data_value == orig.data.no_data_value
                    &&& final(self).in_idx == old(self).in_idx + 1
                } else {
                    &&& final(self).in_idx == old(self).in_idx
                    &&& tile.data.no_data_value == Some(old(self).fill_value)
                    &&& forall|i: int|
                        0 <= i < tile.data.data@.len() ==> tile.data.data@[i] == old(self).fill_value
                }
            },
    {
        let c = self.grid.count();
        let total = self.total();
        if self.step >= total {
            return None;
        }
        let k = self.step;
        let ti64 = k / c;
        let off = k % c;
        proof {
            lemma_fundamental_div_mod(k as int, c as int);
            assert((k as int) / (c as int) < self.times@.len()) by (nonlinear_arith)
                requires
                    0 < c,
                    (c as int) * ((k as int) / (c as int)) + ((k as int) % (c as int)) == k as int,
                    0 <= ((k as int) % (c as int)) < c as int,
                    k < self.times@.len() * (c as int),
            ;
        }
        let ti: usize = ti64 as usize;
        let slot_time = self.times[ti];
        let (ty, tx) = self.grid.tile_position_of_index(off);
        proof {
            lemma_tile_enumeration_bijective(self.grid, off as int, off as int, ty as int, tx as int);
        }

        // Does the next input tile occupy exactly this slot?
        let mut take_input = false;
        if self.in_idx < self.input.len() {
            let cand = &self.input[self.in_idx];
            if cand.time == slot_time && cand.tile.global_tile_position.y == ty
                && cand.tile.global_tile_position.x == tx {
                take_input = true;
                proof {
                    lemma_matching_tile_has_slot(
                        self.grid,
                        self.times@,
                        self.input@[self.in_idx as int],
                        k as int,
                    );
                }
            } else {
                proof {
                    if spec_tile_slot(self.grid, self.times@, self.input@[self.in_idx as int])
                        == k as int {
                        lemma_slot_fixes_tile(
                            self.grid,
                            self.times@,
                            self.input@[self.in_idx as int],
                            k as int,
                        );
                    }
                }
            }
        }

        let r: RasterTile;
        if take_input {
            let tile = clone_tile(&self.input[self.in_idx]);
            self.in_idx = self.in_idx + 1;
            r = tile;
        } else {
            let info = TileInformation::new_aligned(
                GridShape2D::new(self.grid.rows, self.grid.cols),
                GridIdx2D::new(ty, tx),
                self.tile_shape,
                self.transform,
            );
            let data = Grid2D::new_filled(self.tile_shape, self.fill_value, Some(self.fill_value));
            r = RasterTile::new(slot_time, info, data);
        }
        self.step = self.step + 1;
        proof {
            assert forall|j: int|
                self.in_idx <= j < self.input@.len() implies spec_tile_slot(
                self.grid,
                self.times@,
                #[trigger] self.input@[j],
            ) >= self.step by {
                if j > old(self).in_idx {
                    assert(spec_tile_slot(self.grid, self.times@, self.input@[old(self).in_idx as int])
                        <= spec_tile_slot(self.grid, self.times@, self.input@[j]) - 1);
                } else {
                    if spec_tile_slot(self.grid, self.times@, self.input@[j]) == k as int {
                        lemma_slot_fixes_tile(self.grid, self.times@, self.input@[j], k as int);
                    }
                }
            }
        }
        Some(r)
    }
}

/// A valid slot index lies in `[0, times.len * count)`.
pub proof fn lemma_slot_in_range(grid: TileGrid, times: Seq<TimeInterval>, tile: RasterTile)
    requires
        grid.wf(),
        spec_slot_valid(grid, times, tile),
    ensures
        0 <= spec_tile_slot(grid, times, tile) < times.len() * grid.spec_count(),
{
    let ti = spec_time_index(times, tile.time);
    assert(0 <= ti < times.len());
    let ty = tile.tile.global_tile_position.y as int;
    let tx = tile.tile.global_tile_position.x as int;
    lemma_count_positive(grid);
    lemma_tile_enumeration_bijective(grid, 0, 0, ty, tx);
    let idx = grid.spec_index_of_pos(ty, tx);
    let c = grid.spec_count();
    assert(0 <= ti * c + idx && ti * c + idx < times.len() * c) by (nonlinear_arith)
        requires
            0 <= ti < times.len(),
            0 <= idx < c,
    ;
}

/// A tile that carries slot `k`'s time and position has slot index `k`.
pub proof fn lemma_matching_tile_has_slot(
    grid: TileGrid,
    times: Seq<TimeInterval>,
    tile: RasterTile,
    k: int,
)
    requires
        grid.wf(),
        spec_times_strictly_sorted(times),
        spec_slot_valid(grid, times, tile),
        0 <= k < times.len() * grid.spec_count(),
        tile.time == times[k / grid.spec_count()],
        tile.tile.global_tile_position.y == grid.spec_tile_y(k % grid.spec_count()),
        tile.tile.global_tile_position.x == grid.spec_tile_x(k % grid.spec_count()),
    ensures
        spec_tile_slot(grid, times, tile) == k,
{
    let c = grid.spec_count();
    lemma_count_positive(grid);
    lemma_fundamental_div_mod(k, c);
    assert(0 <= k / c < times.len()) by (nonlinear_arith)
        requires
            0 < c,
            c * (k / c) + k % c == k,
            0 <= k % c < c,
            0 <= k < times.len() * c,
    ;
    let ti = spec_time_index(times, tile.time);
    assert(times[k / c] == tile.time);
    assert(0 <= ti < times.len() && times[ti] == tile.time);
    lemma_time_index_unique(times, ti, k / c);
    lemma_tile_pos_contained(grid, k % c);
    let ty = grid.spec_tile_y(k % c);
    let tx = grid.spec_tile_x(k % c);
    lemma_tile_enumeration_bijective(grid, k % c, k % c, ty, tx);
    let idx = grid.spec_index_of_pos(ty, tx);
    lemma_tile_enumeration_bijective(grid, k % c, idx, ty, tx);
    assert(idx == k % c);
    assert(ti * c + k % c == k) by (nonlinear_arith)
        requires
            c * (k / c) + k % c == k,
            ti == k / c,
    ;
}

/// Conversely, a tile whose slot index is `k` carries slot `k`'s time and
/// position.
pub proof fn lemma_slot_fixes_tile(
    grid: TileGrid,
    times: Seq<TimeInterval>,
    tile: RasterTile,
    k: int,
)
    requires
        grid.wf(),
        spec_times_strictly_sorted(times),
        spec_slot_valid(grid, times, tile),
        0 <= k < times.len() * grid.spec_count(),
        spec_tile_slot(grid, times, tile) == k,
    ensures
        tile.time == times[k / grid.spec_count()],
        tile.tile.global_tile_position.y == grid.spec_tile_y(k % grid.spec_count()),
        tile.tile.global_tile_position.x == grid.spec_tile_x(k % grid.spec_count()),
{
    let c = grid.spec_count();
    let ti = spec_time_index(times, tile.time);
    let ty = tile.tile.global_tile_position.y as int;
    let tx = tile.tile.global_tile_position.x as int;
    lemma_count_positive(grid);
    lemma_tile_enumeration_bijective(grid, 0, 0, ty, tx);
    let idx = grid.spec_index_of_pos(ty, tx);
    assert(0 <= ti < times.len() && times[ti] == tile.time);
    lemma_fundamental_div_mod_converse_div(k, c, ti, idx);
    lemma_fundamental_div_mod_converse_mod(k, c, ti, idx);
    assert(ti * c + idx == k);
    assert(c * ti + idx == k) by (nonlinear_arith)
        requires
            ti * c + idx == k,
    ;
    assert(k / c == ti && k % c == idx);
    lemma_tile_enumeration_bijective(grid, idx, idx, ty, tx);
}

/// A value-preserving copy of a raster tile: a stage that passes an input
/// tile through emits a fresh tile with the same contents.
pub fn clone_tile(t: &RasterTile) -> (r: RasterTile)
    ensures
        r.time == t.time,
        r.tile == t.tile,
        r.data.shape == t.data.shape,
        r.data.data@ == t.data.data@,
        r.data.no_data_value == t.data.no_data_value,
{
    let mut data: Vec<i64> = Vec::new();
    let mut i: usize = 0;
    let n = t.data.data.len();
    while i < n
        invariant
            i <= n,
            n == t.data.data@.len(),
            data@.len() == i,
            forall|j: int| 0 <= j < i ==> data@[j] == t.data.data@[j],
        decreases n - i,
    {
        data.push(t.data.data[i]);
        i = i + 1;
    }
    proof {
        assert(data@ =~= t.data.data@);
    }
    RasterTile {
        time: t.time,
        tile: t.tile,
        data: Grid2D { shape: t.data.shape, data, no_data_value: t.data.no_data_value },
    }
}

/// Completeness of the sparse fill, first half (no duplicates): two emitted
/// slots that carry the same time slice and the same tile position are the
/// same slot.
pub proof fn lemma_sparse_fill_no_duplicates(
    grid: TileGrid,
    times: Seq<TimeInterval>,
    k1: int,
    k2: int,
)
    requires
        grid.wf(),
        spec_times_strictly_sorted(times),
        0 <= k1 < times.len() * grid.spec_count(),
        0 <= k2 < times.len() * grid.spec_count(),
        times[k1 / grid.spec_count()] == times[k2 / grid.spec_count()],
        grid.spec_tile_y(k1 % grid.spec_count()) == grid.spec_tile_y(k2 % grid.spec_count()),
        grid.spec_tile_x(k1 % grid.spec_count()) == grid.spec_tile_x(k2 % grid.spec_count()),
    ensures
        k1 == k2,
{
    let c = grid.spec_count();
    lemma_count_positive(grid);
    lemma_fundamental_div_mod(k1, c);
    lemma_fundamental_div_mod(k2, c);
    assert(0 <= k1 / c < times.len() && 0 <= k2 / c < times.len()) by (nonlinear_arith)
        requires
            0 < c,
            c * (k1 / c) + k1 % c == k1,
            c * (k2 / c) + k2 % c == k2,
            0 <= k1 % c < c,
            0 <= k2 % c < c,
            0 <= k1 < times.len() * c,
            0 <= k2 < times.len() * c,
    ;
    lemma_time_index_unique(times, k1 / c, k2 / c);
    lemma_tile_enumeration_bijective(
        grid,
        k1 % c,
        k2 % c,
        grid.y_min as int,
        grid.x_min as int,
    );
    assert(k1 == k2) by (nonlinear_arith)
        requires
            c * (k1 / c) + k1 % c == k1,
            c * (k2 / c) + k2 % c == k2,
            k1 / c == k2 / c,
            k1 % c == k2 % c,
    ;
}

/// Completeness of the sparse fill, second half (no gaps): every expected
/// combination of a time slice and a grid position is the descriptor of some
/// slot, namely `ti * count + index_of_pos`.
pub proof fn lemma_sparse_fill_no_gaps(
    grid: TileGrid,
    times: Seq<TimeInterval>,
    ti: int,
    ty: int,
    tx: int,
)
    requires
        grid.wf(),
        spec_times_strictly_sorted(times),
        0 <= ti < times.len(),
        grid.spec_contains_pos(ty, tx),
    ensures
        0 <= ti * grid.spec_count() + grid.spec_index_of_pos(ty, tx) < times.len()
            * grid.spec_count(),
        times[(ti * grid.spec_count() + grid.spec_index_of_pos(ty, tx)) / grid.spec_count()]
            == times[ti],
        grid.spec_tile_y((ti * grid.spec_count() + grid.spec_index_of_pos(ty, tx))
            % grid.spec_count()) == ty,
        grid.spec_tile_x((ti * grid.spec_count() + grid.spec_index_of_pos(ty, tx))
            % grid.spec_count()) == tx,
{
    let c = grid.spec_count();
    let idx = grid.spec_index_of_pos(ty, tx);
    lemma_count_positive(grid);
    lemma_tile_enumeration_bijective(grid, 0, 0, ty, tx);
    let k = ti * c + idx;
    assert(0 <= k < times.len() * c) by (nonlinear_arith)
        requires
            k == ti * c + idx,
            0 <= ti < times.len(),
            0 <= idx < c,
    ;
    assert(c * ti + idx == k) by (nonlinear_arith)
        requires
            ti * c + idx == k,
    ;
    lemma_fundamental_div_mod_converse_div(k, c, ti, idx);
    lemma_fundamental_div_mod_converse_mod(k, c, ti, idx);
    lemma_tile_enumeration_bijective(grid, idx, idx, ty, tx);
}

} // verus!
