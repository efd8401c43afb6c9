//! The feature-collection chunk merger: fuses a stream of small collections
//! into larger ones bounded by a serialized-size threshold, preserving
//! feature order, and passing a single oversized collection through unmerged
//! rather than splitting it.
//!
//! The serialized size is modeled as a fixed charge per feature, per
//! attribute cell, and per coordinate of a multi-point.

use vstd::prelude::*;
use crate::collections::{ColumnData, FeatureCell, FeatureColumn, MultiPointCollection};
use crate::primitives::Coordinate2D;
use crate::time::TimeInterval;

verus! {

/// The modeled serialized weight of a list of geometries: 16 bytes per
/// coordinate.
pub open spec fn spec_points_weight(ps: Seq<Seq<Coordinate2D>>) -> int
    decreases ps.len(),
{
    if ps.len() == 0 {
        0
    } else {
        16 * ps[0].len() + spec_points_weight(ps.subrange(1, ps.len() as int))
    }
}

/// The modeled serialized size of a collection: 40 bytes per feature, 16 per
/// attribute cell, and the geometry weight.
pub open spec fn spec_byte_size(c: MultiPointCollection) -> int {
    40 * c.spec_len() + 16 * c.spec_len() * c.columns@.len() + spec_points_weight(
        c.spec_geometries(),
    )
}

/// The geometries of a sequence of collections, flattened in order.
pub open spec fn spec_flat_geometries(cs: Seq<MultiPointCollection>) -> Seq<Seq<Coordinate2D>>
    decreases cs.len(),
{
    if cs.len() == 0 {
        Seq::empty()
    } else {
        cs[0].spec_geometries() + spec_flat_geometries(cs.subrange(1, cs.len() as int))
    }
}

/// The time intervals of a sequence of collections, flattened in order.
pub open spec fn spec_flat_times(cs: Seq<MultiPointCollection>) -> Seq<TimeInterval>
    decreases cs.len(),
{
    if cs.len() == 0 {
        Seq::empty()
    } else {
        cs[0].spec_times() + spec_flat_times(cs.subrange(1, cs.len() as int))
    }
}

/// The cells of column `j` over a sequence of collections, flattened in
/// order.
pub open spec fn spec_flat_cells(cs: Seq<MultiPointCollection>, j: int) -> Seq<FeatureCell>
    decreases cs.len(),
{
    if cs.len() == 0 {
        Seq::empty()
    } else {
        cs[0].columns@[j].data.spec_cells() + spec_flat_cells(cs.subrange(1, cs.len() as int), j)
    }
}

/// The total feature count of a sequence of collections.
pub open spec fn spec_total_len(cs: Seq<MultiPointCollection>) -> int
    decreases cs.len(),
{
    if cs.len() == 0 {
        0
    } else {
        cs[0].spec_len() + spec_total_len(cs.subrange(1, cs.len() as int))
    }
}

/// Geometry weight distributes over concatenation.
pub proof fn lemma_points_weight_concat(a: Seq<Seq<Coordinate2D>>, b: Seq<Seq<Coordinate2D>>)
    ensures
        spec_points_weight(a + b) == spec_points_weight(a) + spec_points_weight(b),
    decreases a.len(),
{
    if a.len() == 0 {
        assert(a + b =~= b);
    } else {
        assert((a + b).subrange(1, (a + b).len() as int) =~= a.subrange(1, a.len() as int) + b);
        lemma_points_weight_concat(a.subrange(1, a.len() as int), b);
    }
}

/// Geometry weight of non-empty lists is nonnegative and bounded when every
/// multi-point holds at most `0x10000` coordinates.
pub proof fn lemma_points_weight_bound(ps: Seq<Seq<Coordinate2D>>)
    requires
        forall|i: int| 0 <= i < ps.len() ==> (#[trigger] ps[i]).len() <= 0x10000,
    ensures
        0 <= spec_points_weight(ps) <= ps.len() * 0x10_0000,
    decreases ps.len(),
{
    if ps.len() == 0 {
    } else {
        let rest = ps.subrange(1, ps.len() as int);
        lemma_points_weight_bound(rest);
        assert(0 <= spec_points_weight(ps) <= ps.len() * 0x10_0000) by (nonlinear_arith)
            requires
                spec_points_weight(ps) == 16 * ps[0].len() + spec_points_weight(rest),
                0 <= ps[0].len() <= 0x10000,
                0 <= spec_points_weight(rest) <= rest.len() * 0x10_0000,
                rest.len() == ps.len() - 1,
        ;
    }
}

/// The modeled size of a well-formed collection is nonnegative and fits
/// comfortably in 64 bits.
pub proof fn lemma_byte_size_bound(c: MultiPointCollection)
    requires
        c.wf(),
    ensures
        0 <= spec_byte_size(c) < 0x2000_0000_0000,
{
    lemma_points_weight_bound(c.spec_geometries());
    assert(0 <= spec_byte_size(c) < 0x2000_0000_0000) by (nonlinear_arith)
        requires
            spec_byte_size(c) == 40 * c.spec_len() + 16 * c.spec_len() * c.columns@.len()
                + spec_points_weight(c.spec_geometries()),
            0 <= c.spec_len() <= 0x100_0000,
            0 <= c.columns@.len() <= 0x100,
            c.spec_geometries().len() == c.spec_len(),
            0 <= spec_points_weight(c.spec_geometries()) <= c.spec_geometries().len() * 0x10_0000,
    ;
}

/// Computes the modeled serialized size of a collection.
pub fn byte_size(c: &MultiPointCollection) -> (r: u64)
    requires
        c.wf(),
    ensures
        r == spec_byte_size(*c),
{
    let n = c.coordinates.len();
    let ncols = c.columns.len() as u64;
    let mut weight: u64 = 0;
    let mut i: usize = 0;
    proof {
        assert(c.spec_geometries().subrange(0, 0) =~= Seq::<Seq<Coordinate2D>>::empty());
    }
    while i < n
        invariant
            i <= n,
            n == c.spec_len(),
            c.wf(),
            weight == spec_points_weight(c.spec_geometries().subrange(0, i as int)),
            weight <= i * 0x10_0000,
        decreases n - i,
    {
        let ghost pre = c.spec_geometries().subrange(0, i as int);
        let mp_len = c.coordinates[i].coordinates.len() as u64;
        proof {
            assert(c.spec_geometries()[i as int] == c.coordinates@[i as int]@);
            assert(c.spec_geometries().subrange(0, i + 1) =~= pre + seq![c.spec_geometries()[i as int]]);
            lemma_points_weight_concat(pre, seq![c.spec_geometries()[i as int]]);
            let s = seq![c.spec_geometries()[i as int]];
            assert(s.subrange(1, s.len() as int) =~= Seq::<Seq<Coordinate2D>>::empty());
            assert(spec_points_weight(Seq::<Seq<Coordinate2D>>::empty()) == 0);
            assert(spec_points_weight(s) == 16 * c.coordinates@[i as int]@.len());
            assert(weight + 16 * mp_len <= (i + 1) * 0x10_0000) by (nonlinear_arith)
                requires
                    weight <= i * 0x10_0000,
                    0 <= mp_len <= 0x10000,
            ;
        }
        weight = weight + 16 * mp_len;
        i = i + 1;
    }
    proof {
        assert(c.spec_geometries().subrange(0, n as int) =~= c.spec_geometries());
        assert(16 * (n as int) * (ncols as int) <= 0x1_0000_0000_0000) by (nonlinear_arith)
            requires
                0 <= n <= 0x100_0000,
                0 <= ncols <= 0x100,
        ;
    }
    40 * (n as u64) + 16 * (n as u64) * ncols + weight
}

/// Concatenates two collections of the same schema: the features of `b`
/// follow the features of `a`, column by column.
pub fn concat_collections(a: &MultiPointCollection, b: &MultiPointCollection) -> (r:
    MultiPointCollection)
    requires
        a.wf(),
        b.wf(),
        a.spec_same_schema(*b),
        a.spec_len() + b.spec_len() <= 0x100_0000,
    ensures
        r.wf(),
        r.spec_len() == a.spec_len() + b.spec_len(),
        r.spec_geometries() == a.spec_geometries() + b.spec_geometries(),
        r.spec_times() == a.spec_times() + b.spec_times(),
        r.spec_same_schema(*a),
        forall|j: int|
            0 <= j < a.columns@.len() ==> (#[trigger] r.columns@[j]).data.spec_cells()
                == a.columns@[j].data.spec_cells() + b.columns@[j].data.spec_cells(),
        spec_byte_size(r) == spec_byte_size(*a) + spec_byte_size(*b),
{
    let mut out = a.duplicate();
    let na = out.coordinates.len();
    proof {
        assert forall|k: int| 0 <= k < na implies (#[trigger] out.coordinates@[k])@
            == a.coordinates@[k]@ by {
            assert(out.spec_geometries()[k] == out.coordinates@[k]@);
            assert(a.spec_geometries()[k] == a.coordinates@[k]@);
        }
    }
    let mut i: usize = 0;
    while i < b.coordinates.len()
        invariant
            i <= b.coordinates@.len(),
            na == a.coordinates@.len(),
            out.time_intervals@ == a.time_intervals@,
            out.coordinates@.len() == na + i,
            forall|k: int|
                0 <= k < na ==> (#[trigger] out.coordinates@[k])@ == a.coordinates@[k]@,
            forall|k: int|
                na <= k < na + i ==> (#[trigger] out.coordinates@[k])@ == b.coordinates@[k - na]@,
            out.columns@.len() == a.columns@.len(),
            forall|k: int|
                0 <= k < out.columns@.len() ==> (#[trigger] out.columns@[k]).name@
                    == a.columns@[k].name@ && out.columns@[k].data.spec_cells()
                    == a.columns@[k].data.spec_cells() && out.columns@[k].data.spec_data_type()
                    == a.columns@[k].data.spec_data_type(),
        decreases b.coordinates@.len() - i,
    {
        let dup = b.coordinates[i].duplicate();
        out.coordinates.push(dup);
        i = i + 1;
    }
    proof {
        assert(out.spec_geometries() =~= a.spec_geometries() + b.spec_geometries());
        assert(forall|k: int|
            0 <= k < out.coordinates@.len() ==> (#[trigger] out.coordinates@[k])@.len() <= 0x10000);
    }
    let mut t: usize = 0;
    let ghost t0 = a.spec_times();
    while t < b.time_intervals.len()
        invariant
            t <= b.time_intervals@.len(),
            out.time_intervals@ == t0 + b.spec_times().subrange(0, t as int),
            out.coordinates@.len() == a.coordinates@.len() + b.coordinates@.len(),
            out.spec_geometries() == a.spec_geometries() + b.spec_geometries(),
            out.columns@.len() == a.columns@.len(),
            forall|k: int|
                0 <= k < out.columns@.len() ==> (#[trigger] out.columns@[k]).name@
                    == a.columns@[k].name@ && out.columns@[k].data.spec_cells()
                    == a.columns@[k].data.spec_cells() && out.columns@[k].data.spec_data_type()
                    == a.columns@[k].data.spec_data_type(),
            forall|k: int|
                0 <= k < out.coordinates@.len() ==> (#[trigger] out.coordinates@[k])@.len()
                    <= 0x10000,
        decreases b.time_intervals@.len() - t,
    {
        proof {
            assert(out.time_intervals@ =~= t0 + b.spec_times().subrange(0, t as int));
        }
        out.time_intervals.push(b.time_intervals[t]);
        proof {
            assert(out.time_intervals@ =~= t0 + b.spec_times().subrange(0, t + 1));
        }
        t = t + 1;
    }
    proof {
        assert(b.spec_times().subrange(0, b.spec_times().len() as int) =~= b.spec_times());
    }
    let mut columns: Vec<FeatureColumn> = Vec::new();
    let mut j: usize = 0;
    while j < out.columns.len()
        invariant
            j <= out.columns@.len(),
            out.columns@.len() == a.columns@.len(),
            b.columns@.len() == a.columns@.len(),
            columns@.len() == j,
            forall|k: int|
                0 <= k < j ==> (#[trigger] columns@[k]).name@ == out.columns@[k].name@
                    && columns@[k].data.spec_cells() == out.columns@[k].data.spec_cells()
                    + b.columns@[k].data.spec_cells() && columns@[k].data.spec_data_type()
                    == out.columns@[k].data.spec_data_type(),
            forall|k: int|
                0 <= k < out.columns@.len() ==> (#[trigger] out.columns@[k]).name@
                    == a.columns@[k].name@ && out.columns@[k].data.spec_cells()
                    == a.columns@[k].data.spec_cells() && out.columns@[k].data.spec_data_type()
                    == a.columns@[k].data.spec_data_type(),
        decreases out.columns@.len() - j,
    {
        let col = &out.columns[j];
        let name = crate::collections::clone_string(&col.name);
        let mut data = col.data.duplicate();
        data.append(&b.columns[j].data);
        columns.push(FeatureColumn { name, data });
        j = j + 1;
    }
    let r = MultiPointCollection {
        coordinates: out.coordinates,
        time_intervals: out.time_intervals,
        columns,
    };
    proof {
        lemma_points_weight_concat(a.spec_geometries(), b.spec_geometries());
        assert(16 * (a.spec_len() + b.spec_len()) * r.columns@.len() == 16 * a.spec_len()
            * r.columns@.len() + 16 * b.spec_len() * r.columns@.len()) by (nonlinear_arith)
        ;
    }
    r
}

/// Flattened values distribute over concatenation of collection sequences.
pub proof fn lemma_flat_concat(a: Seq<MultiPointCollection>, b: Seq<MultiPointCollection>, j: int)
    ensures
        spec_flat_geometries(a + b) == spec_flat_geometries(a) + spec_flat_geometries(b),
        spec_flat_times(a + b) == spec_flat_times(a) + spec_flat_times(b),
        spec_flat_cells(a + b, j) == spec_flat_cells(a, j) + spec_flat_cells(b, j),
        spec_total_len(a + b) == spec_total_len(a) + spec_total_len(b),
    decreases a.len(),
{
    if a.len() == 0 {
        assert(a + b =~= b);
        assert(spec_flat_geometries(a) =~= Seq::<Seq<Coordinate2D>>::empty());
        assert(spec_flat_times(a) =~= Seq::<TimeInterval>::empty());
        assert(spec_flat_cells(a, j) =~= Seq::<FeatureCell>::empty());
        assert(spec_flat_geometries(a + b) =~= spec_flat_geometries(a) + spec_flat_geometries(b));
        assert(spec_flat_times(a + b) =~= spec_flat_times(a) + spec_flat_times(b));
        assert(spec_flat_cells(a + b, j) =~= spec_flat_cells(a, j) + spec_flat_cells(b, j));
    } else {
        assert((a + b).subrange(1, (a + b).len() as int) =~= a.subrange(1, a.len() as int) + b);
        lemma_flat_concat(a.subrange(1, a.len() as int), b, j);
        assert(spec_flat_geometries(a + b) =~= spec_flat_geometries(a) + spec_flat_geometries(b));
        assert(spec_flat_times(a + b) =~= spec_flat_times(a) + spec_flat_times(b));
        assert(spec_flat_cells(a + b, j) =~= spec_flat_cells(a, j) + spec_flat_cells(b, j));
    }
}

/// One collection appended at the end extends the flattened values by that
/// collection's values.
pub proof fn lemma_flat_snoc(cs: Seq<MultiPointCollection>, c: MultiPointCollection, j: int)
    ensures
        spec_flat_geometries(cs.push(c)) == spec_flat_geometries(cs) + c.spec_geometries(),
        spec_flat_times(cs.push(c)) == spec_flat_times(cs) + c.spec_times(),
        spec_flat_cells(cs.push(c), j) == spec_flat_cells(cs, j) + c.columns@[j].data.spec_cells(),
        spec_total_len(cs.push(c)) == spec_total_len(cs) + c.spec_len(),
{
    assert(cs.push(c) =~= cs + seq![c]);
    lemma_flat_concat(cs, seq![c], j);
    let s = seq![c];
    let e = Seq::<MultiPointCollection>::empty();
    assert(s.subrange(1, 1) =~= e);
    assert(spec_flat_geometries(e) =~= Seq::<Seq<Coordinate2D>>::empty());
    assert(spec_flat_times(e) =~= Seq::<TimeInterval>::empty());
    assert(spec_flat_cells(e, j) =~= Seq::<FeatureCell>::empty());
    assert(spec_total_len(e) == 0);
    assert(spec_flat_geometries(s) =~= c.spec_geometries());
    assert(spec_flat_times(s) =~= c.spec_times());
    assert(spec_flat_cells(s, j) =~= c.columns@[j].data.spec_cells());
}

/// The total feature count of a sequence of collections is nonnegative.
pub proof fn lemma_total_len_nonneg(cs: Seq<MultiPointCollection>)
    requires
        forall|k: int| 0 <= k < cs.len() ==> (#[trigger] cs[k]).wf(),
    ensures
        spec_total_len(cs) >= 0,
    decreases cs.len(),
{
    if cs.len() > 0 {
        lemma_total_len_nonneg(cs.subrange(1, cs.len() as int));
        assert(cs[0].spec_len() >= 0);
    }
}

/// The first collection of a suffix carries the suffix's head count.
pub proof fn lemma_total_len_suffix(cs: Seq<MultiPointCollection>, i: int)
    requires
        0 <= i < cs.len(),
    ensures
        spec_total_len(cs.subrange(i, cs.len() as int)) == cs[i].spec_len() + spec_total_len(
            cs.subrange(i + 1, cs.len() as int),
        ),
{
    let suf = cs.subrange(i, cs.len() as int);
    assert(suf[0] == cs[i]);
    assert(suf.subrange(1, suf.len() as int) =~= cs.subrange(i + 1, cs.len() as int));
}

/// Merges a stream of collections of one schema into collections bounded by
/// `chunk_size_bytes`, preserving feature order end to end.
///
/// Every emitted collection's modeled size stays within the threshold,
/// except that a single input collection which alone exceeds the threshold
/// is passed through unmerged — never split. No empty collection is emitted.
pub fn merge_chunks(chunks: &Vec<MultiPointCollection>, chunk_size_bytes: u64) -> (r: Vec<
    MultiPointCollection,
>)
    requires
        forall|k: int| 0 <= k < chunks@.len() ==> (#[trigger] chunks@[k]).wf(),
        forall|k: int|
            0 <= k < chunks@.len() ==> (#[trigger] chunks@[k]).spec_same_schema(chunks@[0]),
        spec_total_len(chunks@) <= 0x100_0000,
    ensures
        spec_flat_geometries(r@) == spec_flat_geometries(chunks@),
        spec_flat_times(r@) == spec_flat_times(chunks@),
        forall|k: int| 0 <= k < r@.len() ==> (#[trigger] r@[k]).wf(),
        forall|k: int| 0 <= k < r@.len() ==> (#[trigger] r@[k]).spec_len() > 0,
        chunks@.len() > 0 ==> forall|k: int|
            0 <= k < r@.len() ==> (#[trigger] r@[k]).spec_same_schema(chunks@[0]),
        chunks@.len() > 0 ==> forall|j: int|
            0 <= j < chunks@[0].columns@.len() ==> spec_flat_cells(r@, j) == spec_flat_cells(
                chunks@,
                j,
            ),
        forall|k: int|
            0 <= k < r@.len() ==> spec_byte_size(#[trigger] r@[k]) <= chunk_size_bytes || (
            exists|i: int|
                0 <= i < chunks@.len() && r@[k].spec_eq(#[trigger] chunks@[i]) && spec_byte_size(
                    chunks@[i],
                ) > chunk_size_bytes),
{
    let mut out: Vec<MultiPointCollection> = Vec::new();
    if chunks.len() == 0 {
        proof {
            assert(spec_flat_geometries(out@) =~= spec_flat_geometries(chunks@));
            assert(spec_flat_times(out@) =~= spec_flat_times(chunks@));
        }
        return out;
    }
    let ghost ncols = chunks@[0].columns@.len() as int;
    let mut acc = empty_like(&chunks[0]);
    let mut i: usize = 0;
    proof {
        assert(chunks@.subrange(0, 0) =~= Seq::<MultiPointCollection>::empty());
        assert(chunks@.subrange(0, chunks@.len() as int) =~= chunks@);
    }
    while i < chunks.len()
        invariant
            i <= chunks@.len(),
            acc.wf(),
            acc.spec_same_schema(chunks@[0]),
            acc.columns@.len() == ncols,
            spec_byte_size(acc) <= chunk_size_bytes,
            acc.spec_len() + spec_total_len(chunks@.subrange(i as int, chunks@.len() as int))
                <= 0x100_0000,
            spec_flat_geometries(out@) + acc.spec_geometries() == spec_flat_geometries(
                chunks@.subrange(0, i as int),
            ),
            spec_flat_times(out@) + acc.spec_times() == spec_flat_times(
                chunks@.subrange(0, i as int),
            ),
            forall|j: int|
                0 <= j < ncols ==> spec_flat_cells(out@, j) + acc.columns@[j].data.spec_cells()
                    == spec_flat_cells(chunks@.subrange(0, i as int), j),
            forall|k: int| 0 <= k < out@.len() ==> (#[trigger] out@[k]).wf(),
            forall|k: int| 0 <= k < out@.len() ==> (#[trigger] out@[k]).spec_len() > 0,
            forall|k: int|
                0 <= k < out@.len() ==> (#[trigger] out@[k]).spec_same_schema(chunks@[0]),
            forall|k: int|
                0 <= k < out@.len() ==> spec_byte_size(#[trigger] out@[k]) <= chunk_size_bytes || (
                exists|i0: int|
                    0 <= i0 < chunks@.len() && out@[k].spec_eq(#[trigger] chunks@[i0])
                        && spec_byte_size(chunks@[i0]) > chunk_size_bytes),
        decreases chunks@.len() - i,
    {
        let ch = &chunks[i];
        let ch_size = byte_size(ch);
        proof {
            lemma_total_len_suffix(chunks@, i as int);
            lemma_total_len_nonneg(chunks@.subrange(i + 1, chunks@.len() as int));
            lemma_byte_size_bound(*ch);
            lemma_byte_size_bound(acc);
            assert forall|j: int|
                0 <= j < ncols implies spec_flat_cells(chunks@.subrange(0, i + 1), j)
                == spec_flat_cells(chunks@.subrange(0, i as int), j)
                + ch.columns@[j].data.spec_cells() by {
                assert(chunks@.subrange(0, i + 1) =~= chunks@.subrange(0, i as int).push(chunks@[i as int]));
                lemma_flat_snoc(chunks@.subrange(0, i as int), chunks@[i as int], j);
            }
            assert(chunks@.subrange(0, i + 1) =~= chunks@.subrange(0, i as int).push(chunks@[i as int]));
            lemma_flat_snoc(chunks@.subrange(0, i as int), chunks@[i as int], 0);
        }
        let acc_size = byte_size(&acc);
        // Step one: flush the accumulator if taking this chunk in would
        // break the bound.
        if acc.len() > 0 && acc_size + ch_size > chunk_size_bytes {
            let ghost out_before = out@;
            let ghost acc_old = acc;
            out.push(acc);
            proof {
                lemma_flat_snoc(out_before, out@[out_before.len() as int], 0);
                assert forall|j: int|
                    0 <= j < ncols implies spec_flat_cells(out@, j) == spec_flat_cells(
                    chunks@.subrange(0, i as int),
                    j,
                ) by {
                    lemma_flat_snoc(out_before, out@[out_before.len() as int], j);
                    assert(spec_flat_cells(out_before, j) + acc_old.columns@[j].data.spec_cells()
                        == spec_flat_cells(chunks@.subrange(0, i as int), j));
                }
            }
            acc = empty_like(&chunks[0]);
            proof {
                assert(spec_flat_geometries(out@) + acc.spec_geometries() =~= spec_flat_geometries(
                    chunks@.subrange(0, i as int),
                ));
                assert(spec_flat_times(out@) + acc.spec_times() =~= spec_flat_times(
                    chunks@.subrange(0, i as int),
                ));
                assert forall|j: int|
                    0 <= j < ncols implies spec_flat_cells(out@, j)
                    + acc.columns@[j].data.spec_cells() == spec_flat_cells(
                    chunks@.subrange(0, i as int),
                    j,
                ) by {
                    assert(acc.columns@[j].data.spec_cells() == Seq::<FeatureCell>::empty());
                    assert(spec_flat_cells(out@, j) + acc.columns@[j].data.spec_cells()
                        =~= spec_flat_cells(out@, j));
                }
            }
        }
        // Mid-state: the flattened prefix is out plus acc, and acc has room
        // for the chunk unless the chunk alone is oversized.
        proof {
            lemma_byte_size_bound(acc);
            if acc.spec_len() == 0 {
                assert(acc.spec_geometries() =~= Seq::<Seq<Coordinate2D>>::empty());
                assert(spec_points_weight(Seq::<Seq<Coordinate2D>>::empty()) == 0);
                assert(spec_byte_size(acc) == 0) by (nonlinear_arith)
                    requires
                        spec_byte_size(acc) == 40 * acc.spec_len() + 16 * acc.spec_len()
                            * acc.columns@.len() + spec_points_weight(acc.spec_geometries()),
                        acc.spec_len() == 0,
                        spec_points_weight(acc.spec_geometries()) == 0,
                ;
            }
        }
        // Step two: pass an oversized chunk through unmerged, else absorb
        // the chunk into the accumulator.
        if ch_size > chunk_size_bytes {
            let ghost out_mid = out@;
            let passed = ch.duplicate();
            out.push(passed);
            proof {
                lemma_flat_snoc(out_mid, out@[out_mid.len() as int], 0);
                assert(out@[out_mid.len() as int].spec_eq(chunks@[i as int]));
                assert(acc.spec_len() == 0);
                assert(acc.spec_geometries() =~= Seq::<Seq<Coordinate2D>>::empty());
                assert(acc.spec_times() =~= Seq::<TimeInterval>::empty());
                assert(spec_flat_geometries(out_mid) =~= spec_flat_geometries(out_mid)
                    + acc.spec_geometries());
                assert(spec_flat_times(out_mid) =~= spec_flat_times(out_mid) + acc.spec_times());
                assert(spec_flat_geometries(out@) + acc.spec_geometries()
                    =~= spec_flat_geometries(out_mid) + chunks@[i as int].spec_geometries());
                assert(spec_flat_times(out@) + acc.spec_times() =~= spec_flat_times(out_mid)
                    + chunks@[i as int].spec_times());
                assert forall|j: int|
                    0 <= j < ncols implies spec_flat_cells(out@, j)
                    + acc.columns@[j].data.spec_cells() == spec_flat_cells(
                    chunks@.subrange(0, i + 1),
                    j,
                ) by {
                    lemma_flat_snoc(out_mid, out@[out_mid.len() as int], j);
                    assert(acc.columns@[j].data.spec_cells() =~= Seq::<FeatureCell>::empty());
                    assert(spec_flat_cells(chunks@.subrange(0, i + 1), j) == spec_flat_cells(
                        chunks@.subrange(0, i as int),
                        j,
                    ) + ch.columns@[j].data.spec_cells());
                    assert(spec_flat_cells(out_mid, j) + acc.columns@[j].data.spec_cells()
                        == spec_flat_cells(chunks@.subrange(0, i as int), j));
                    assert(spec_flat_cells(out_mid, j) =~= spec_flat_cells(out_mid, j)
                        + acc.columns@[j].data.spec_cells());
                    assert(spec_flat_cells(out@, j) + acc.columns@[j].data.spec_cells()
                        =~= spec_flat_cells(out_mid, j) + ch.columns@[j].data.spec_cells());
                }
            }
        } else {
            let ghost acc_old = acc;
            acc = concat_collections(&acc, ch);
            proof {
                assert forall|j: int|
                    0 <= j < ncols implies spec_flat_cells(out@, j)
                    + acc.columns@[j].data.spec_cells() == spec_flat_cells(
                    chunks@.subrange(0, i + 1),
                    j,
                ) by {
                    assert(spec_flat_cells(out@, j) + acc_old.columns@[j].data.spec_cells()
                        == spec_flat_cells(chunks@.subrange(0, i as int), j));
                    assert(spec_flat_cells(chunks@.subrange(0, i + 1), j) == spec_flat_cells(
                        chunks@.subrange(0, i as int),
                        j,
                    ) + ch.columns@[j].data.spec_cells());
                    assert(acc.columns@[j].data.spec_cells()
                        == acc_old.columns@[j].data.spec_cells()
                        + ch.columns@[j].data.spec_cells());
                    assert(spec_flat_cells(out@, j) + acc.columns@[j].data.spec_cells() =~= (
                    spec_flat_cells(out@, j) + acc_old.columns@[j].data.spec_cells())
                        + ch.columns@[j].data.spec_cells());
                }
            }
        }
        i = i + 1;
    }
    if acc.len() > 0 {
        let ghost out_before = out@;
        out.push(acc);
        proof {
            assert forall|j: int|
                0 <= j < ncols implies spec_flat_cells(out@, j) == spec_flat_cells(out_before, j)
                + out@[out_before.len() as int].columns@[j].data.spec_cells() by {
                lemma_flat_snoc(out_before, out@[out_before.len() as int], j);
            }
            lemma_flat_snoc(out_before, out@[out_before.len() as int], 0);
        }
    } else {
        proof {
            assert(acc.spec_geometries() =~= Seq::<Seq<Coordinate2D>>::empty());
            assert(acc.spec_times() =~= Seq::<TimeInterval>::empty());
            assert(forall|j: int|
                0 <= j < ncols ==> (#[trigger] acc.columns@[j]).data.spec_cells()
                    =~= Seq::<FeatureCell>::empty());
        }
    }
    out
}

/// A collection with the schema of `c` and no features.
pub fn empty_like(c: &MultiPointCollection) -> (r: MultiPointCollection)
    requires
        c.wf(),
    ensures
        r.wf(),
        r.spec_len() == 0,
        r.spec_same_schema(*c),
        r.spec_geometries() == Seq::<Seq<Coordinate2D>>::empty(),
        r.spec_times() == Seq::<TimeInterval>::empty(),
        forall|j: int|
            0 <= j < r.columns@.len() ==> (#[trigger] r.columns@[j]).data.spec_cells()
                == Seq::<FeatureCell>::empty(),
        spec_byte_size(r) == 0,
{
    let mut columns: Vec<FeatureColumn> = Vec::new();
    let mut j: usize = 0;
    while j < c.columns.len()
        invariant
            j <= c.columns@.len(),
            columns@.len() == j,
            forall|k: int|
                0 <= k < j ==> (#[trigger] columns@[k]).name@ == c.columns@[k].name@
                    && columns@[k].data.spec_data_type() == c.columns@[k].data.spec_data_type()
                    && columns@[k].data.spec_cells() == Seq::<FeatureCell>::empty(),
        decreases c.columns@.len() - j,
    {
        let col = &c.columns[j];
        let name = crate::collections::clone_string(&col.name);
        let data = match &col.data {
            ColumnData::Int(_) => ColumnData::Int(Vec::new()),
            ColumnData::Float(_) => ColumnData::Float(Vec::new()),
        };
        proof {
            assert(data.spec_cells() =~= Seq::<FeatureCell>::empty());
        }
        columns.push(FeatureColumn { name, data });
        j = j + 1;
    }
    let r = MultiPointCollection {
        coordinates: Vec::new(),
        time_intervals: Vec::new(),
        columns,
    };
    proof {
        assert(r.spec_geometries() =~= Seq::<Seq<Coordinate2D>>::empty());
        assert(spec_points_weight(Seq::<Seq<Coordinate2D>>::empty()) == 0);
        assert(r.spec_len() == 0);
        assert(spec_byte_size(r) == 0) by (nonlinear_arith)
            requires
                spec_byte_size(r) == 40 * r.spec_len() + 16 * r.spec_len() * r.columns@.len()
                    + spec_points_weight(r.spec_geometries()),
                r.spec_len() == 0,
                spec_points_weight(r.spec_geometries()) == 0,
        ;
    }
    r
}

} // verus!
