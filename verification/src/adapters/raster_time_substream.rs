//! Time grouping of tile streams: a tile stream arrives "geo first, time
//! second" — runs of tiles that share one time interval. The multi-fold
//! adapters fold each run into one output; this module computes the runs and
//! states what a valid run decomposition is.

use vstd::prelude::*;
use crate::raster::RasterTile;

verus! {

/// A valid run decomposition of a tile sequence: consecutive, non-empty,
/// maximal ranges of equal-time tiles that exactly cover the sequence.
pub open spec fn spec_grouping_ok(tiles: Seq<RasterTile>, groups: Seq<(usize, usize)>) -> bool {
    &&& (tiles.len() == 0 ==> groups.len() == 0)
    &&& (tiles.len() > 0 ==> groups.len() > 0 && groups[0].0 == 0
        && groups[groups.len() - 1].1 == tiles.len())
    &&& forall|k: int| 0 <= k < groups.len() ==> (#[trigger] groups[k]).0 < groups[k].1 <= tiles.len()
    &&& forall|k: int|
        0 <= k && k + 1 < groups.len() ==> (#[trigger] groups[k]).1 == groups[k + 1].0
    &&& forall|k: int, i: int|
        0 <= k < groups.len() && (#[trigger] groups[k]).0 <= i < groups[k].1 ==> (#[trigger]
        tiles[i]).time == tiles[groups[k].0 as int].time
    &&& forall|k: int|
        0 <= k && k + 1 < groups.len() ==> tiles[(#[trigger] groups[k + 1]).0 as int].time != tiles[
            groups[k].0 as int
        ].time
}

/// Splits a time-grouped tile stream into its maximal runs of equal time.
///
/// This is the boundary detection of the time multi-fold: one fold runs per
/// returned range, and the final range is flushed at stream end.
#[verifier::rlimit(100)]
#[verifier::spinoff_prover]
pub fn time_groups(tiles: &Vec<RasterTile>) -> (r: Vec<(usize, usize)>)
    ensures
        spec_grouping_ok(tiles@, r@),
{
    let mut groups: Vec<(usize, usize)> = Vec::new();
    let n = tiles.len();
    if n == 0 {
        return groups;
    }
    let mut start: usize = 0;
    let mut i: usize = 1;
    while i < n
        invariant
            1 <= i <= n,
            0 < n == tiles@.len(),
            start < i,
            // the committed groups cover [0, start) as a valid decomposition
            groups@.len() == 0 ==> start == 0,
            groups@.len() > 0 ==> groups@[0].0 == 0 && groups@[groups@.len() - 1].1 == start,
            forall|k: int|
                0 <= k < groups@.len() ==> (#[trigger] groups@[k]).0 < groups@[k].1 <= start,
            forall|k: int| 0 <= k && k + 1 < groups@.len() ==> (#[trigger] groups@[k]).1 == groups@[k + 1].0,
            forall|k: int, j: int|
                0 <= k < groups@.len() && (#[trigger] groups@[k]).0 <= j < groups@[k].1 ==> (
                #[trigger] tiles@[j]).time == tiles@[groups@[k].0 as int].time,
            forall|k: int|
                0 <= k && k + 1 < groups@.len() ==> tiles@[(#[trigger] groups@[k + 1]).0 as int].time
                    != tiles@[groups@[k].0 as int].time,
            // the open run covers [start, i) with one shared time
            forall|j: int|
                start <= j < i ==> (#[trigger] tiles@[j]).time == tiles@[start as int].time,
            groups@.len() > 0 ==> tiles@[start as int].time
                != tiles@[groups@[groups@.len() - 1].0 as int].time,
        decreases n - i,
    {
        if !(tiles[i].time == tiles[start].time) {
            let ghost gs = groups@;
            groups.push((start, i));
            proof {
                assert(groups@.len() == gs.len() + 1);
                assert(groups@[groups@.len() - 1] == (start, i));
                assert(forall|k: int| 0 <= k < gs.len() ==> groups@[k] == gs[k]);
                assert forall|k: int| 0 <= k && k + 1 < groups@.len() implies (#[trigger] groups@[k]).1
                    == groups@[k + 1].0 by {
                    if k + 1 < gs.len() {
                    } else {
                        assert(k == gs.len() - 1);
                    }
                }
            }
            start = i;
        }
        i = i + 1;
    }
    let ghost gs = groups@;
    groups.push((start, n));
    proof {
        assert(groups@.len() == gs.len() + 1);
        assert(groups@[groups@.len() - 1] == (start, n));
        assert(forall|k: int| 0 <= k < gs.len() ==> groups@[k] == gs[k]);
        assert forall|k: int| 0 <= k && k + 1 < groups@.len() implies (#[trigger] groups@[k]).1
            == groups@[k + 1].0 by {
            if k + 1 < gs.len() {
            } else {
                assert(k == gs.len() - 1);
                assert(gs[gs.len() - 1].1 == start);
                assert(groups@[k] == gs[k]);
                assert(groups@[k + 1] == (start, n));
            }
        }
    }
    groups
}

} // verus!
