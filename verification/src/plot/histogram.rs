//! The histogram operator: counts pixel or attribute values into equally
//! wide buckets between a lower and an upper bound.
//!
//! Bounds and bucket count either come from the parameters or are derived
//! in a first pass over the data: minimum, maximum, and the square-root
//! choice rule for the bucket count. No-data pixels and null cells are
//! skipped, never counted.

use vstd::prelude::*;
use crate::collections::{ColumnData, FeatureCell, MultiPointCollection};
use crate::raster::RasterTile;

verus! {

/// The parameters of the histogram operator.
#[derive(Clone, Debug)]
pub struct HistogramParams {
    /// Name of the attribute column to count, for vector inputs.
    pub column_name: Option<String>,
    /// The bounds of the histogram, or the wish to derive them from data.
    pub bounds: HistogramBounds,
    /// The number of buckets; derived by the square-root rule if absent.
    pub buckets: Option<usize>,
    /// Whether to render an interactive chart.
    pub interactive: bool,
}

/// Histogram bounds: given as values, or computed from the data.
#[derive(Clone, Copy, Debug, PartialEq, Eq, Structural)]
pub enum HistogramBounds {
    Data,
    Values { min: i64, max: i64 },
}

/// Resolved histogram metadata: bucket count and bounds.
#[derive(Clone, Copy, Debug, PartialEq, Eq, Structural)]
pub struct HistogramMetadata {
    pub number_of_buckets: usize,
    pub min: i64,
    pub max: i64,
}

/// Partially configured metadata: whatever the parameters supplied.
#[derive(Clone, Copy, Debug, PartialEq, Eq, Structural)]
pub struct HistogramMetadataOptions {
    pub number_of_buckets: Option<usize>,
    pub min: Option<i64>,
    pub max: Option<i64>,
}

impl HistogramMetadataOptions {
    /// Complete metadata, if every part was configured.
    pub fn try_complete(&self) -> (r: Option<HistogramMetadata>)
        ensures
            r is Some <==> self.number_of_buckets is Some && self.min is Some
                && self.max is Some,
            r matches Some(m) ==> Some(m.number_of_buckets) == self.number_of_buckets && Some(
                m.min,
            ) == self.min && Some(m.max) == self.max,
    {
        match (self.number_of_buckets, self.min, self.max) {
            (Option::Some(number_of_buckets), Option::Some(min), Option::Some(max)) => Some(
                HistogramMetadata { number_of_buckets, min, max },
            ),
            _ => None,
        }
    }

    /// Fills the unconfigured parts from computed metadata.
    pub fn merge_with(&self, computed: HistogramMetadata) -> (r: HistogramMetadata)
        ensures
            r.number_of_buckets == (if self.number_of_buckets is Some {
                self.number_of_buckets->Some_0
            } else {
                computed.number_of_buckets
            }),
            r.min == (if self.min is Some {
                self.min->Some_0
            } else {
                computed.min
            }),
            r.max == (if self.max is Some {
                self.max->Some_0
            } else {
                computed.max
            }),
    {
        HistogramMetadata {
            number_of_buckets: match self.number_of_buckets {
                Option::Some(b) => b,
                Option::None => computed.number_of_buckets,
            },
            min: match self.min {
                Option::Some(m) => m,
                Option::None => computed.min,
            },
            max: match self.max {
                Option::Some(m) => m,
                Option::None => computed.max,
            },
        }
    }
}

/// Folds a batch of values into a running count of valid values: values
/// equal to the no-data value are skipped.
pub open spec fn spec_count_fold(s: Seq<i64>, no_data: Option<i64>, acc: int) -> int
    decreases s.len(),
{
    if s.len() == 0 {
        acc
    } else {
        let step: int = if no_data matches Some(nd) && nd == s[0] {
            acc
        } else {
            acc + 1
        };
        spec_count_fold(s.subrange(1, s.len() as int), no_data, step)
    }
}

/// Folds a batch of values into a running minimum over valid values.
pub open spec fn spec_min_fold(s: Seq<i64>, no_data: Option<i64>, acc: int) -> int
    decreases s.len(),
{
    if s.len() == 0 {
        acc
    } else {
        let step: int = if (no_data matches Some(nd) && nd == s[0]) || s[0] >= acc {
            acc
        } else {
            s[0] as int
        };
        spec_min_fold(s.subrange(1, s.len() as int), no_data, step)
    }
}

/// Folds a batch of values into a running maximum over valid values.
pub open spec fn spec_max_fold(s: Seq<i64>, no_data: Option<i64>, acc: int) -> int
    decreases s.len(),
{
    if s.len() == 0 {
        acc
    } else {
        let step: int = if (no_data matches Some(nd) && nd == s[0]) || s[0] <= acc {
            acc
        } else {
            s[0] as int
        };
        spec_max_fold(s.subrange(1, s.len() as int), no_data, step)
    }
}

/// Metadata being computed in the first pass: the count of valid values and
/// their running minimum and maximum.
#[derive(Clone, Copy, Debug, PartialEq, Eq, Structural)]
pub struct HistogramMetadataInProgress {
    pub n: u64,
    pub min: i64,
    pub max: i64,
}

impl HistogramMetadataInProgress {
    /// The starting state: no values seen, extreme bounds.
    pub fn new_empty() -> (r: HistogramMetadataInProgress)
        ensures
            r.n == 0,
            r.min == i64::MAX,
            r.max == i64::MIN,
    {
        HistogramMetadataInProgress { n: 0, min: i64::MAX, max: i64::MIN }
    }

    /// Folds one raster batch into the running metadata, skipping pixels
    /// that carry the no-data value.
    pub fn add_raster_batch(&mut self, values: &Vec<i64>, no_data: Option<i64>)
        requires
            old(self).n + values@.len() <= u64::MAX,
        ensures
            final(self).n == spec_count_fold(values@, no_data, old(self).n as int),
            final(self).min == spec_min_fold(values@, no_data, old(self).min as int),
            final(self).max == spec_max_fold(values@, no_data, old(self).max as int),
    {
        let len = values.len();
        let mut i: usize = 0;
        proof {
            assert(values@.subrange(0, len as int) =~= values@);
        }
        while i < len
            invariant
                i <= len,
                len == values@.len(),
                self.n <= old(self).n + i,
                spec_count_fold(values@, no_data, old(self).n as int) == spec_count_fold(
                    values@.subrange(i as int, len as int),
                    no_data,
                    self.n as int,
                ),
                spec_min_fold(values@, no_data, old(self).min as int) == spec_min_fold(
                    values@.subrange(i as int, len as int),
                    no_data,
                    self.min as int,
                ),
                spec_max_fold(values@, no_data, old(self).max as int) == spec_max_fold(
                    values@.subrange(i as int, len as int),
                    no_data,
                    self.max as int,
                ),
            decreases len - i,
        {
            proof {
                let s = values@.subrange(i as int, len as int);
                assert(s[0] == values@[i as int]);
                assert(s.subrange(1, s.len() as int) =~= values@.subrange(i + 1, len as int));
            }
            let v = values[i];
            let is_nd = match no_data {
                Option::Some(nd) => nd == v,
                Option::None => false,
            };
            if !is_nd {
                self.n = self.n + 1;
                if v < self.min {
                    self.min = v;
                }
                if v > self.max {
                    self.max = v;
                }
            }
            i = i + 1;
        }
        proof {
            assert(values@.subrange(len as int, len as int) =~= Seq::<i64>::empty());
        }
    }

    /// Folds one column of nullable integers into the running metadata,
    /// skipping null cells.
    pub fn add_vector_batch(&mut self, values: &Vec<Option<i64>>)
        requires
            old(self).n + values@.len() <= u64::MAX,
        ensures
            final(self).n == spec_count_fold(
                spec_present_values(values@),
                Option::None,
                old(self).n as int,
            ),
            final(self).min == spec_min_fold(
                spec_present_values(values@),
                Option::None,
                old(self).min as int,
            ),
            final(self).max == spec_max_fold(
                spec_present_values(values@),
                Option::None,
                old(self).max as int,
            ),
    {
        let mut dense: Vec<i64> = Vec::new();
        let mut i: usize = 0;
        while i < values.len()
            invariant
                i <= values@.len(),
                dense@.len() <= i,
                dense@ == spec_present_values(values@.subrange(0, i as int)),
            decreases values@.len() - i,
        {
            proof {
                assert(values@.subrange(0, i + 1) =~= values@.subrange(0, i as int).push(
                    values@[i as int],
                ));
                lemma_present_values_snoc(values@.subrange(0, i as int), values@[i as int]);
            }
            match values[i] {
                Option::Some(v) => {
                    dense.push(v);
                },
                Option::None => {},
            }
            i = i + 1;
        }
        proof {
            assert(values@.subrange(0, values@.len() as int) =~= values@);
        }
        self.add_raster_batch(&dense, None);
    }

    /// Folds one column of nullable rationals into the running metadata,
    /// skipping null cells: a present cell counts once, its floor lowers
    /// the minimum, its ceiling raises the maximum — so the derived integer
    /// bounds enclose every exact value.
    pub fn add_ratio_batch(&mut self, values: &Vec<Option<crate::collections::Ratio>>)
        requires
            old(self).n + values@.len() <= u64::MAX,
            spec_ratio_cells_bounded(values@),
        ensures
            final(self).n == spec_ratio_count_fold(values@, old(self).n as int),
            final(self).min == spec_ratio_min_fold(values@, old(self).min as int),
            final(self).max == spec_ratio_max_fold(values@, old(self).max as int),
    {
        let len = values.len();
        let mut i: usize = 0;
        proof {
            assert(values@.subrange(0, len as int) =~= values@);
        }
        while i < len
            invariant
                i <= len,
                len == values@.len(),
                spec_ratio_cells_bounded(values@),
                self.n <= old(self).n + i,
                spec_ratio_count_fold(values@, old(self).n as int) == spec_ratio_count_fold(
                    values@.subrange(i as int, len as int),
                    self.n as int,
                ),
                spec_ratio_min_fold(values@, old(self).min as int) == spec_ratio_min_fold(
                    values@.subrange(i as int, len as int),
                    self.min as int,
                ),
                spec_ratio_max_fold(values@, old(self).max as int) == spec_ratio_max_fold(
                    values@.subrange(i as int, len as int),
                    self.max as int,
                ),
            decreases len - i,
        {
            proof {
                let s = values@.subrange(i as int, len as int);
                assert(s[0] == values@[i as int]);
                assert(s.subrange(1, s.len() as int) =~= values@.subrange(i + 1, len as int));
            }
            match values[i] {
                Option::Some(q) => {
                    self.n = self.n + 1;
                    let fl = crate::grid::floor_div(q.num, q.den);
                    if fl < self.min {
                        self.min = fl;
                    }
                    let ce = crate::grid::floor_div(q.num - 1, q.den) + 1;
                    if ce > self.max {
                        self.max = ce;
                    }
                },
                Option::None => {},
            }
            i = i + 1;
        }
        proof {
            assert(values@.subrange(len as int, len as int) =~= Seq::<
                Option<crate::collections::Ratio>,
            >::empty());
        }
    }

    /// Resolves the in-progress metadata: the square-root choice rule for
    /// the bucket count, and the observed bounds.
    pub fn resolve(&self) -> (r: HistogramMetadata)
        ensures
            (r.number_of_buckets * r.number_of_buckets) <= self.n,
            self.n < ((r.number_of_buckets + 1) * (r.number_of_buckets + 1)),
            r.min == self.min,
            r.max == self.max,
    {
        HistogramMetadata { number_of_buckets: isqrt(self.n), min: self.min, max: self.max }
    }
}

/// The values of the present cells of a nullable column, in order.
pub open spec fn spec_present_values(s: Seq<Option<i64>>) -> Seq<i64>
    decreases s.len(),
{
    if s.len() == 0 {
        Seq::empty()
    } else {
        let rest = spec_present_values(s.subrange(1, s.len() as int));
        match s[0] {
            Option::Some(v) => seq![v] + rest,
            Option::None => rest,
        }
    }
}

/// Appending one cell extends the present values by at most that cell.
pub proof fn lemma_present_values_snoc(s: Seq<Option<i64>>, c: Option<i64>)
    ensures
        spec_present_values(s.push(c)) == (match c {
            Option::Some(v) => spec_present_values(s) + seq![v],
            Option::None => spec_present_values(s),
        }),
    decreases s.len(),
{
    let p = s.push(c);
    if s.len() == 0 {
        assert(p.subrange(1, p.len() as int) =~= Seq::<Option<i64>>::empty());
        assert(spec_present_values(Seq::<Option<i64>>::empty()) =~= Seq::<i64>::empty());
        match c {
            Option::Some(v) => {
                assert(spec_present_values(p) =~= seq![v]);
                assert(spec_present_values(s) + seq![v] =~= seq![v]);
            },
            Option::None => {
                assert(spec_present_values(p) =~= Seq::<i64>::empty());
            },
        }
    } else {
        assert(p.subrange(1, p.len() as int) =~= s.subrange(1, s.len() as int).push(c));
        lemma_present_values_snoc(s.subrange(1, s.len() as int), c);
        match s[0] {
            Option::Some(v0) => {
                match c {
                    Option::Some(v) => {
                        assert(spec_present_values(p) =~= spec_present_values(s) + seq![v]);
                    },
                    Option::None => {
                        assert(spec_present_values(p) =~= spec_present_values(s));
                    },
                }
            },
            Option::None => {},
        }
    }
}

/// Floor of the square root.
pub fn isqrt(n: u64) -> (r: usize)
    ensures
        r * r <= n,
        n < (r + 1) * (r + 1),
{
    let mut r: u64 = 0;
    while r + 1 <= n / (r + 1)
        invariant
            r * r <= n,
            r <= 0xFFFF_FFFF,
        decreases n - r,
    {
        proof {
            vstd::arithmetic::div_mod::lemma_fundamental_div_mod(n as int, r + 1 as int);
            assert((r + 1) * (r + 1) <= n) by (nonlinear_arith)
                requires
                    r + 1 <= (n as int) / (r + 1 as int),
                    n == (r + 1 as int) * ((n as int) / (r + 1 as int)) + (n as int) % (
                    r + 1 as int),
                    0 <= (n as int) % (r + 1 as int),
            ;
            assert(r < n && r + 1 <= 0xFFFF_FFFF) by (nonlinear_arith)
                requires
                    (r + 1) * (r + 1) <= n,
                    n <= 0xFFFF_FFFF_FFFF_FFFF,
            ;
        }
        r = r + 1;
    }
    proof {
        vstd::arithmetic::div_mod::lemma_fundamental_div_mod(n as int, r + 1 as int);
        assert(n < (r + 1) * (r + 1)) by (nonlinear_arith)
            requires
                (n as int) / (r + 1 as int) < r + 1,
                n == (r + 1 as int) * ((n as int) / (r + 1 as int)) + (n as int) % (r + 1 as int),
                0 <= (n as int) % (r + 1 as int) < r + 1,
        ;
    }
    r as usize
}

/// The largest bound magnitude the bucket arithmetic admits.
pub open spec fn spec_bound_cap() -> int {
    0x4000_0000
}

/// The bucket that value `v` falls into, for `min <= v <= max`: equally
/// wide buckets, with the maximum value counted into the last bucket.
pub open spec fn spec_bucket_of(v: int, min: int, max: int, b: int) -> int {
    if max <= min {
        0
    } else {
        let raw = (v - min) * b / (max - min);
        if raw >= b {
            b - 1
        } else {
            raw
        }
    }
}

/// Folds a batch into the running count of bucket `i`: values that carry
/// the no-data value or lie outside the bounds are skipped.
pub open spec fn spec_bucket_fold(
    s: Seq<i64>,
    no_data: Option<i64>,
    min: int,
    max: int,
    b: int,
    i: int,
    acc: int,
) -> int
    decreases s.len(),
{
    if s.len() == 0 {
        acc
    } else {
        let valid = !(no_data matches Some(nd) && nd == s[0]) && min <= s[0] <= max;
        let step: int = if valid && spec_bucket_of(s[0] as int, min, max, b) == i {
            acc + 1
        } else {
            acc
        };
        spec_bucket_fold(s.subrange(1, s.len() as int), no_data, min, max, b, i, step)
    }
}

/// Errors of histogram construction.
#[derive(Clone, Copy, Debug, PartialEq, Eq, Structural)]
pub enum HistogramError {
    /// The bucket count must be between one and `0x10000`.
    InvalidBucketCount,
    /// The bounds must satisfy `min <= max` and stay within the cap.
    InvalidBounds,
    /// A collection lacks an integer column of the configured name.
    MissingNumericColumn,
}

/// A histogram under construction: resolved metadata and one count per
/// bucket.
///
/// Invariant (`wf`): one count per bucket, each bounded by the number of
/// values offered so far.
#[derive(Clone, Debug)]
pub struct Histogram {
    pub metadata: HistogramMetadata,
    pub counts: Vec<u64>,
    pub total: u64,
}

impl Histogram {
    pub open spec fn wf(self) -> bool {
        &&& 1 <= self.metadata.number_of_buckets <= 0x10000
        &&& -spec_bound_cap() <= self.metadata.min <= self.metadata.max <= spec_bound_cap()
        &&& self.counts@.len() == self.metadata.number_of_buckets
        &&& forall|i: int| 0 <= i < self.counts@.len() ==> (#[trigger] self.counts@[i]) <= self.total
    }

    /// Builds an empty histogram; rejects a bucket count outside
    /// `1..=0x10000` and bounds that are inverted or beyond the cap.
    pub fn new(number_of_buckets: usize, min: i64, max: i64) -> (r: Result<
        Histogram,
        HistogramError,
    >)
        ensures
            r is Ok <==> 1 <= number_of_buckets <= 0x10000 && -spec_bound_cap() <= min <= max
                <= spec_bound_cap(),
            r matches Ok(h) ==> {
                &&& h.wf()
                &&& h.metadata == (HistogramMetadata { number_of_buckets, min, max })
                &&& h.total == 0
                &&& forall|i: int| 0 <= i < h.counts@.len() ==> (#[trigger] h.counts@[i]) == 0
            },
    {
        if !(1 <= number_of_buckets && number_of_buckets <= 0x10000) {
            return Err(HistogramError::InvalidBucketCount);
        }
        if !(-0x4000_0000 <= min && min <= max && max <= 0x4000_0000) {
            return Err(HistogramError::InvalidBounds);
        }
        let mut counts: Vec<u64> = Vec::new();
        let mut i: usize = 0;
        while i < number_of_buckets
            invariant
                i <= number_of_buckets,
                counts@.len() == i,
                forall|j: int| 0 <= j < i ==> (#[trigger] counts@[j]) == 0,
            decreases number_of_buckets - i,
        {
            counts.push(0);
            i = i + 1;
        }
        Ok(
            Histogram {
                metadata: HistogramMetadata { number_of_buckets, min, max },
                counts,
                total: 0,
            },
        )
    }

    /// Counts one raster batch into the buckets: no-data pixels and values
    /// outside the bounds are skipped.
    pub fn add_raster_data(&mut self, values: &Vec<i64>, no_data: Option<i64>)
        requires
            old(self).wf(),
            old(self).total + values@.len() <= u64::MAX,
        ensures
            final(self).wf(),
            final(self).metadata == old(self).metadata,
            final(self).counts@.len() == old(self).counts@.len(),
            final(self).total == old(self).total + values@.len(),
            forall|i: int|
                0 <= i < final(self).counts@.len() ==> (#[trigger] final(self).counts@[i])
                    == spec_bucket_fold(
                    values@,
                    no_data,
                    old(self).metadata.min as int,
                    old(self).metadata.max as int,
                    old(self).metadata.number_of_buckets as int,
                    i,
                    old(self).counts@[i] as int,
                ),
    {
        let len = values.len();
        let b = self.metadata.number_of_buckets;
        let min = self.metadata.min;
        let max = self.metadata.max;
        let ghost m: int = min as int;
        let ghost mx: int = max as int;
        let ghost bb: int = b as int;
        let mut j: usize = 0;
        proof {
            assert(values@.subrange(0, len as int) =~= values@);
        }
        while j < len
            invariant
                j <= len,
                len == values@.len(),
                self.metadata == old(self).metadata,
                b == self.metadata.number_of_buckets,
                min == self.metadata.min,
                max == self.metadata.max,
                m == min as int && mx == max as int && bb == b as int,
                self.counts@.len() == old(self).counts@.len(),
                self.total == old(self).total,
                forall|i: int|
                    0 <= i < self.counts@.len() ==> (#[trigger] self.counts@[i]) <= old(
                        self,
                    ).total + j,
                forall|i: int|
                    0 <= i < self.counts@.len() ==> spec_bucket_fold(
                        values@,
                        no_data,
                        m,
                        mx,
                        bb,
                        i,
                        old(self).counts@[i] as int,
                    ) == spec_bucket_fold(
                        values@.subrange(j as int, len as int),
                        no_data,
                        m,
                        mx,
                        bb,
                        i,
                        (#[trigger] self.counts@[i]) as int,
                    ),
            decreases len - j,
        {
            proof {
                let s = values@.subrange(j as int, len as int);
                assert(s[0] == values@[j as int]);
                assert(s.subrange(1, s.len() as int) =~= values@.subrange(j + 1, len as int));
            }
            let v = values[j];
            let is_nd = match no_data {
                Option::Some(nd) => nd == v,
                Option::None => false,
            };
            if !is_nd && min <= v && v <= max {
                let bi: usize = if max <= min {
                    0
                } else {
                    let num: i64 = v - min;
                    proof {
                        assert(0 <= num * (b as i64) <= 0x8000_0000 * 0x10000)
                            by (nonlinear_arith)
                            requires
                                0 <= num <= 0x8000_0000,
                                1 <= b <= 0x10000,
                        ;
                    }
                    let raw: i64 = num * (b as i64) / (max - min);
                    proof {
                        vstd::arithmetic::div_mod::lemma_div_is_ordered_by_denominator(
                            (num * (b as i64)) as int,
                            1,
                            (max - min) as int,
                        );
                    }
                    if raw >= b as i64 {
                        b - 1
                    } else {
                        raw as usize
                    }
                };
                proof {
                    assert(bi as int == spec_bucket_of(v as int, m, mx, bb));
                    assert(bi < b);
                }
                let c = self.counts[bi];
                self.counts.set(bi, c + 1);
            }
            j = j + 1;
        }
        proof {
            assert(values@.subrange(len as int, len as int) =~= Seq::<i64>::empty());
        }
        self.total = self.total + (len as u64);
    }

    /// Counts one nullable column into the buckets: null cells are skipped.
    pub fn add_feature_data(&mut self, values: &Vec<Option<i64>>)
        requires
            old(self).wf(),
            old(self).total + values@.len() <= u64::MAX,
        ensures
            final(self).wf(),
            final(self).metadata == old(self).metadata,
            final(self).counts@.len() == old(self).counts@.len(),
            final(self).total <= old(self).total + values@.len(),
            forall|i: int|
                0 <= i < final(self).counts@.len() ==> (#[trigger] final(self).counts@[i])
                    == spec_bucket_fold(
                    spec_present_values(values@),
                    Option::None,
                    old(self).metadata.min as int,
                    old(self).metadata.max as int,
                    old(self).metadata.number_of_buckets as int,
                    i,
                    old(self).counts@[i] as int,
                ),
    {
        let mut dense: Vec<i64> = Vec::new();
        let mut i: usize = 0;
        while i < values.len()
            invariant
                i <= values@.len(),
                dense@.len() <= i,
                dense@ == spec_present_values(values@.subrange(0, i as int)),
            decreases values@.len() - i,
        {
            proof {
                assert(values@.subrange(0, i + 1) =~= values@.subrange(0, i as int).push(
                    values@[i as int],
                ));
                lemma_present_values_snoc(values@.subrange(0, i as int), values@[i as int]);
            }
            match values[i] {
                Option::Some(v) => {
                    dense.push(v);
                },
                Option::None => {},
            }
            i = i + 1;
        }
        proof {
            assert(values@.subrange(0, values@.len() as int) =~= values@);
        }
        self.add_raster_data(&dense, None);
    }

    /// Counts one nullable rational column into the buckets, exactly: null
    /// cells and values outside the bounds are skipped, and the bucket of a
    /// present value `num/den` is computed without rounding.
    pub fn add_ratio_data(&mut self, values: &Vec<Option<crate::collections::Ratio>>)
        requires
            old(self).wf(),
            old(self).total + values@.len() <= u64::MAX,
            spec_ratio_cells_bounded(values@),
        ensures
            final(self).wf(),
            final(self).metadata == old(self).metadata,
            final(self).counts@.len() == old(self).counts@.len(),
            final(self).total == old(self).total + values@.len(),
            forall|i: int|
                0 <= i < final(self).counts@.len() ==> (#[trigger] final(self).counts@[i])
                    == spec_ratio_bucket_fold(
                    values@,
                    old(self).metadata.min as int,
                    old(self).metadata.max as int,
                    old(self).metadata.number_of_buckets as int,
                    i,
                    old(self).counts@[i] as int,
                ),
    {
        let len = values.len();
        let b = self.metadata.number_of_buckets;
        let min = self.metadata.min;
        let max = self.metadata.max;
        let ghost m: int = min as int;
        let ghost mx: int = max as int;
        let ghost bb: int = b as int;
        let mut j: usize = 0;
        proof {
            assert(values@.subrange(0, len as int) =~= values@);
        }
        while j < len
            invariant
                j <= len,
                len == values@.len(),
                spec_ratio_cells_bounded(values@),
                self.metadata == old(self).metadata,
                b == self.metadata.number_of_buckets,
                min == self.metadata.min,
                max == self.metadata.max,
                m == min as int && mx == max as int && bb == b as int,
                1 <= b <= 0x10000,
                -0x4000_0000 <= min <= max <= 0x4000_0000,
                self.counts@.len() == old(self).counts@.len(),
                self.counts@.len() == b,
                self.total == old(self).total,
                forall|i: int|
                    0 <= i < self.counts@.len() ==> (#[trigger] self.counts@[i]) <= old(
                        self,
                    ).total + j,
                forall|i: int|
                    0 <= i < self.counts@.len() ==> spec_ratio_bucket_fold(
                        values@,
                        m,
                        mx,
                        bb,
                        i,
                        old(self).counts@[i] as int,
                    ) == spec_ratio_bucket_fold(
                        values@.subrange(j as int, len as int),
                        m,
                        mx,
                        bb,
                        i,
                        (#[trigger] self.counts@[i]) as int,
                    ),
            decreases len - j,
        {
            proof {
                let s = values@.subrange(j as int, len as int);
                assert(s[0] == values@[j as int]);
                assert(s.subrange(1, s.len() as int) =~= values@.subrange(j + 1, len as int));
            }
            match values[j] {
                Option::Some(q) => {
                    proof {
                        assert(-0x4000_0000_0000 <= min * q.den <= 0x4000_0000_0000)
                            by (nonlinear_arith)
                            requires
                                -0x4000_0000 <= min <= 0x4000_0000,
                                0 < q.den <= 0x8000,
                        ;
                        assert(-0x4000_0000_0000 <= max * q.den <= 0x4000_0000_0000)
                            by (nonlinear_arith)
                            requires
                                -0x4000_0000 <= max <= 0x4000_0000,
                                0 < q.den <= 0x8000,
                        ;
                    }
                    let lo = min * q.den;
                    let hi = max * q.den;
                    if lo <= q.num && q.num <= hi {
                        let bi: usize = if max <= min {
                            0
                        } else {
                            let diff = q.num - lo;
                            proof {
                                assert(0 <= diff <= 0x6000_0000_0000);
                                assert(0 <= diff * (b as i64) <= 0x6000_0000_0000 * 0x10000)
                                    by (nonlinear_arith)
                                    requires
                                        0 <= diff <= 0x6000_0000_0000,
                                        1 <= b <= 0x10000,
                                ;
                                assert(0 < (max - min) * q.den <= 0x8000_0000_0000)
                                    by (nonlinear_arith)
                                    requires
                                        0 < max - min <= 0x8000_0000,
                                        0 < q.den <= 0x8000,
                                ;
                            }
                            let rawnum = diff * (b as i64);
                            let denom = (max - min) * q.den;
                            let raw: i64 = rawnum / denom;
                            proof {
                                vstd::arithmetic::div_mod::lemma_div_is_ordered_by_denominator(
                                    rawnum as int,
                                    1,
                                    denom as int,
                                );
                            }
                            if raw >= b as i64 {
                                b - 1
                            } else {
                                raw as usize
                            }
                        };
                        proof {
                            assert(bi as int == spec_ratio_bucket_of(q, m, mx, bb));
                            assert(bi < b);
                        }
                        let c = self.counts[bi];
                        self.counts.set(bi, c + 1);
                    }
                },
                Option::None => {},
            }
            j = j + 1;
        }
        proof {
            assert(values@.subrange(len as int, len as int) =~= Seq::<
                Option<crate::collections::Ratio>,
            >::empty());
        }
        self.total = self.total + (len as u64);
    }

    pub fn counts(&self) -> (r: &Vec<u64>)
        ensures
            r@ == self.counts@,
    {
        &self.counts
    }
}

/// The floor of an exact rational: Euclidean division by the positive
/// denominator.
pub open spec fn spec_ratio_floor(q: crate::collections::Ratio) -> int {
    q.num as int / q.den as int
}

/// The ceiling of an exact rational.
pub open spec fn spec_ratio_ceil(q: crate::collections::Ratio) -> int {
    (q.num - 1) / q.den as int + 1
}

/// Folds a nullable rational column into a running count of present cells.
pub open spec fn spec_ratio_count_fold(s: Seq<Option<crate::collections::Ratio>>, acc: int) -> int
    decreases s.len(),
{
    if s.len() == 0 {
        acc
    } else {
        let step: int = match s[0] {
            Option::Some(_) => acc + 1,
            Option::None => acc,
        };
        spec_ratio_count_fold(s.subrange(1, s.len() as int), step)
    }
}

/// Folds a nullable rational column into a running minimum of the floors
/// of its present cells.
pub open spec fn spec_ratio_min_fold(s: Seq<Option<crate::collections::Ratio>>, acc: int) -> int
    decreases s.len(),
{
    if s.len() == 0 {
        acc
    } else {
        let step: int = match s[0] {
            Option::Some(q) => if spec_ratio_floor(q) < acc {
                spec_ratio_floor(q)
            } else {
                acc
            },
            Option::None => acc,
        };
        spec_ratio_min_fold(s.subrange(1, s.len() as int), step)
    }
}

/// Folds a nullable rational column into a running maximum of the ceilings
/// of its present cells.
pub open spec fn spec_ratio_max_fold(s: Seq<Option<crate::collections::Ratio>>, acc: int) -> int
    decreases s.len(),
{
    if s.len() == 0 {
        acc
    } else {
        let step: int = match s[0] {
            Option::Some(q) => if spec_ratio_ceil(q) > acc {
                spec_ratio_ceil(q)
            } else {
                acc
            },
            Option::None => acc,
        };
        spec_ratio_max_fold(s.subrange(1, s.len() as int), step)
    }
}

/// Whether a rational lies within integer bounds: `min <= num/den <= max`,
/// stated without division.
pub open spec fn spec_ratio_in_range(q: crate::collections::Ratio, min: int, max: int) -> bool {
    min * q.den <= q.num && q.num <= max * q.den
}

/// The bucket a rational falls into, for `min <= num/den <= max`: the same
/// equally wide buckets as for integers, computed exactly.
pub open spec fn spec_ratio_bucket_of(
    q: crate::collections::Ratio,
    min: int,
    max: int,
    b: int,
) -> int {
    if max <= min {
        0
    } else {
        let raw = (q.num - min * q.den) * b / ((max - min) * q.den);
        if raw >= b {
            b - 1
        } else {
            raw
        }
    }
}

/// Folds a nullable rational column into a running count of bucket `i`:
/// null cells and out-of-range values are skipped.
pub open spec fn spec_ratio_bucket_fold(
    s: Seq<Option<crate::collections::Ratio>>,
    min: int,
    max: int,
    b: int,
    i: int,
    acc: int,
) -> int
    decreases s.len(),
{
    if s.len() == 0 {
        acc
    } else {
        let step: int = match s[0] {
            Option::Some(q) => if spec_ratio_in_range(q, min, max) && spec_ratio_bucket_of(
                q,
                min,
                max,
                b,
            ) == i {
                acc + 1
            } else {
                acc
            },
            Option::None => acc,
        };
        spec_ratio_bucket_fold(s.subrange(1, s.len() as int), min, max, b, i, step)
    }
}

/// Cell bounds under which the exact rational bucket arithmetic cannot
/// overflow.
pub open spec fn spec_ratio_cells_bounded(s: Seq<Option<crate::collections::Ratio>>) -> bool {
    forall|i: int|
        0 <= i < s.len() ==> ((#[trigger] s[i]) matches Some(q) ==> 0 < q.den <= 0x8000
            && -0x2000_0000_0000 <= q.num <= 0x2000_0000_0000)
}

/// The ratio count fold grows by at most the batch length.
pub proof fn lemma_ratio_count_fold_bound(s: Seq<Option<crate::collections::Ratio>>, acc: int)
    ensures
        acc <= spec_ratio_count_fold(s, acc) <= acc + s.len(),
    decreases s.len(),
{
    if s.len() > 0 {
        let step: int = match s[0] {
            Option::Some(_) => acc + 1,
            Option::None => acc,
        };
        lemma_ratio_count_fold_bound(s.subrange(1, s.len() as int), step);
    }
}

/// The valid-value count over a whole tile stream.
pub open spec fn spec_tiles_count_fold(tiles: Seq<RasterTile>, acc: int) -> int
    decreases tiles.len(),
{
    if tiles.len() == 0 {
        acc
    } else {
        spec_tiles_count_fold(
            tiles.subrange(1, tiles.len() as int),
            spec_count_fold(tiles[0].data.data@, tiles[0].data.no_data_value, acc),
        )
    }
}

/// The valid-value minimum over a whole tile stream.
pub open spec fn spec_tiles_min_fold(tiles: Seq<RasterTile>, acc: int) -> int
    decreases tiles.len(),
{
    if tiles.len() == 0 {
        acc
    } else {
        spec_tiles_min_fold(
            tiles.subrange(1, tiles.len() as int),
            spec_min_fold(tiles[0].data.data@, tiles[0].data.no_data_value, acc),
        )
    }
}

/// The valid-value maximum over a whole tile stream.
pub open spec fn spec_tiles_max_fold(tiles: Seq<RasterTile>, acc: int) -> int
    decreases tiles.len(),
{
    if tiles.len() == 0 {
        acc
    } else {
        spec_tiles_max_fold(
            tiles.subrange(1, tiles.len() as int),
            spec_max_fold(tiles[0].data.data@, tiles[0].data.no_data_value, acc),
        )
    }
}

/// The bucket count of bucket `i` over a whole tile stream.
pub open spec fn spec_tiles_bucket_fold(
    tiles: Seq<RasterTile>,
    min: int,
    max: int,
    b: int,
    i: int,
    acc: int,
) -> int
    decreases tiles.len(),
{
    if tiles.len() == 0 {
        acc
    } else {
        spec_tiles_bucket_fold(
            tiles.subrange(1, tiles.len() as int),
            min,
            max,
            b,
            i,
            spec_bucket_fold(
                tiles[0].data.data@,
                tiles[0].data.no_data_value,
                min,
                max,
                b,
                i,
                acc,
            ),
        )
    }
}

/// The first pass of the histogram: streams the input once and resolves the
/// metadata that the parameters left open — the value count's square root
/// for the bucket count, and the observed minimum and maximum as bounds.
pub fn histogram_metadata_from_tiles(
    tiles: &Vec<RasterTile>,
    options: HistogramMetadataOptions,
) -> (r: HistogramMetadata)
    requires
        tiles@.len() <= 0x8000,
        forall|k: int| 0 <= k < tiles@.len() ==> (#[trigger] tiles@[k]).data.data@.len()
            <= 0x4000_0000,
    ensures
        r.min == (if options.min is Some {
            options.min->Some_0 as int
        } else {
            spec_tiles_min_fold(tiles@, i64::MAX as int)
        }),
        r.max == (if options.max is Some {
            options.max->Some_0 as int
        } else {
            spec_tiles_max_fold(tiles@, i64::MIN as int)
        }),
        options.number_of_buckets matches Some(b) ==> r.number_of_buckets == b,
        options.number_of_buckets is None ==> {
            let n = spec_tiles_count_fold(tiles@, 0);
            (r.number_of_buckets * r.number_of_buckets) <= n < ((r.number_of_buckets + 1) * (
            r.number_of_buckets + 1))
        },
{
    match options.try_complete() {
        Option::Some(m) => m,
        Option::None => {
            let mut in_progress = HistogramMetadataInProgress::new_empty();
            let len = tiles.len();
            let mut t: usize = 0;
            proof {
                assert(tiles@.subrange(0, len as int) =~= tiles@);
            }
            while t < len
                invariant
                    t <= len,
                    len == tiles@.len(),
                    in_progress.n <= 0x8000 * 0x4000_0000,
                    in_progress.n <= (t as int) * 0x4000_0000,
                    spec_tiles_count_fold(tiles@, 0) == spec_tiles_count_fold(
                        tiles@.subrange(t as int, len as int),
                        in_progress.n as int,
                    ),
                    spec_tiles_min_fold(tiles@, i64::MAX as int) == spec_tiles_min_fold(
                        tiles@.subrange(t as int, len as int),
                        in_progress.min as int,
                    ),
                    spec_tiles_max_fold(tiles@, i64::MIN as int) == spec_tiles_max_fold(
                        tiles@.subrange(t as int, len as int),
                        in_progress.max as int,
                    ),
                decreases len - t,
            {
                proof {
                    let s = tiles@.subrange(t as int, len as int);
                    assert(s[0] == tiles@[t as int]);
                    assert(s.subrange(1, s.len() as int) =~= tiles@.subrange(t + 1, len as int));
                    lemma_count_fold_bound(
                        tiles@[t as int].data.data@,
                        tiles@[t as int].data.no_data_value,
                        in_progress.n as int,
                    );
                }
                in_progress.add_raster_batch(
                    &tiles[t].data.data,
                    tiles[t].data.no_data_value,
                );
                t = t + 1;
            }
            proof {
                assert(tiles@.subrange(len as int, len as int) =~= Seq::<RasterTile>::empty());
            }
            options.merge_with(in_progress.resolve())
        },
    }
}

/// The count fold grows by at most the batch length.
pub proof fn lemma_count_fold_bound(s: Seq<i64>, no_data: Option<i64>, acc: int)
    ensures
        acc <= spec_count_fold(s, no_data, acc) <= acc + s.len(),
    decreases s.len(),
{
    if s.len() > 0 {
        let step: int = if no_data matches Some(nd) && nd == s[0] {
            acc
        } else {
            acc + 1
        };
        lemma_count_fold_bound(s.subrange(1, s.len() as int), no_data, step);
    }
}

/// The second pass of the histogram: streams the input again and counts
/// every valid pixel into its bucket.
pub fn histogram_counts_from_tiles(tiles: &Vec<RasterTile>, metadata: HistogramMetadata) -> (r:
    Result<Histogram, HistogramError>)
    requires
        tiles@.len() <= 0x8000,
        forall|k: int| 0 <= k < tiles@.len() ==> (#[trigger] tiles@[k]).data.data@.len()
            <= 0x4000_0000,
    ensures
        r is Ok <==> 1 <= metadata.number_of_buckets <= 0x10000 && -spec_bound_cap()
            <= metadata.min <= metadata.max <= spec_bound_cap(),
        r matches Ok(h) ==> {
            &&& h.wf()
            &&& h.metadata == metadata
            &&& forall|i: int|
                0 <= i < h.counts@.len() ==> (#[trigger] h.counts@[i]) == spec_tiles_bucket_fold(
                    tiles@,
                    metadata.min as int,
                    metadata.max as int,
                    metadata.number_of_buckets as int,
                    i,
                    0,
                )
        },
{
    let mut h = match Histogram::new(metadata.number_of_buckets, metadata.min, metadata.max) {
        Ok(h) => h,
        Err(e) => {
            return Err(e);
        },
    };
    let len = tiles.len();
    let mut t: usize = 0;
    let ghost m: int = metadata.min as int;
    let ghost mx: int = metadata.max as int;
    let ghost bb: int = metadata.number_of_buckets as int;
    proof {
        assert(tiles@.subrange(0, len as int) =~= tiles@);
    }
    while t < len
        invariant
            t <= len,
            len == tiles@.len(),
            h.wf(),
            h.metadata == metadata,
            m == metadata.min as int && mx == metadata.max as int && bb
                == metadata.number_of_buckets as int,
            h.total <= (t as int) * 0x4000_0000,
            forall|i: int|
                0 <= i < h.counts@.len() ==> spec_tiles_bucket_fold(tiles@, m, mx, bb, i, 0)
                    == spec_tiles_bucket_fold(
                    tiles@.subrange(t as int, len as int),
                    m,
                    mx,
                    bb,
                    i,
                    (#[trigger] h.counts@[i]) as int,
                ),
        decreases len - t,
    {
        proof {
            let s = tiles@.subrange(t as int, len as int);
            assert(s[0] == tiles@[t as int]);
            assert(s.subrange(1, s.len() as int) =~= tiles@.subrange(t + 1, len as int));
        }
        h.add_raster_data(&tiles[t].data.data, tiles[t].data.no_data_value);
        t = t + 1;
    }
    proof {
        assert(tiles@.subrange(len as int, len as int) =~= Seq::<RasterTile>::empty());
    }
    Ok(h)
}

/// Whether a collection carries an attribute column of the given name; at
/// the data level every column is numeric — integer or rational cells.
pub open spec fn spec_has_numeric_column(c: MultiPointCollection, name: Seq<char>) -> bool {
    exists|j: int| 0 <= j < c.columns@.len() && (#[trigger] c.columns@[j]).name@ == name
}

/// The named column's cells as nullable exact rationals: integer cells are
/// embedded with denominator one, rational cells are themselves.
pub open spec fn spec_numeric_cells(c: MultiPointCollection, name: Seq<char>) -> Seq<
    Option<crate::collections::Ratio>,
> {
    let j = choose|j: int| 0 <= j < c.columns@.len() && (#[trigger] c.columns@[j]).name@ == name;
    match c.columns@[j].data {
        ColumnData::Int(v) => v@.map_values(
            |o: Option<i64>|
                match o {
                    Option::None => Option::<crate::collections::Ratio>::None,
                    Option::Some(x) => Option::Some(crate::collections::Ratio { num: x, den: 1 }),
                },
        ),
        ColumnData::Float(v) => v@,
    }
}

/// In a well-formed collection, column names are distinct, so any two
/// columns of one name are the same column.
pub proof fn lemma_column_index_unique(c: MultiPointCollection, i: int, j: int)
    requires
        c.wf(),
        0 <= i < c.columns@.len(),
        0 <= j < c.columns@.len(),
        c.columns@[i].name@ == c.columns@[j].name@,
    ensures
        i == j,
{
    if i < j {
        assert(c.columns@[i].name@ != c.columns@[j].name@);
    }
    if j < i {
        assert(c.columns@[j].name@ != c.columns@[i].name@);
    }
}

/// The present-cell count of the named column over a stream of collections.
pub open spec fn spec_collections_count_fold(
    cs: Seq<MultiPointCollection>,
    name: Seq<char>,
    acc: int,
) -> int
    decreases cs.len(),
{
    if cs.len() == 0 {
        acc
    } else {
        spec_collections_count_fold(
            cs.subrange(1, cs.len() as int),
            name,
            spec_ratio_count_fold(spec_numeric_cells(cs[0], name), acc),
        )
    }
}

/// The floor-minimum of the named column over a stream of collections.
pub open spec fn spec_collections_min_fold(
    cs: Seq<MultiPointCollection>,
    name: Seq<char>,
    acc: int,
) -> int
    decreases cs.len(),
{
    if cs.len() == 0 {
        acc
    } else {
        spec_collections_min_fold(
            cs.subrange(1, cs.len() as int),
            name,
            spec_ratio_min_fold(spec_numeric_cells(cs[0], name), acc),
        )
    }
}

/// The ceiling-maximum of the named column over a stream of collections.
pub open spec fn spec_collections_max_fold(
    cs: Seq<MultiPointCollection>,
    name: Seq<char>,
    acc: int,
) -> int
    decreases cs.len(),
{
    if cs.len() == 0 {
        acc
    } else {
        spec_collections_max_fold(
            cs.subrange(1, cs.len() as int),
            name,
            spec_ratio_max_fold(spec_numeric_cells(cs[0], name), acc),
        )
    }
}

/// The bucket count of bucket `i` of the named column over a stream of
/// collections.
pub open spec fn spec_collections_bucket_fold(
    cs: Seq<MultiPointCollection>,
    name: Seq<char>,
    min: int,
    max: int,
    b: int,
    i: int,
    acc: int,
) -> int
    decreases cs.len(),
{
    if cs.len() == 0 {
        acc
    } else {
        spec_collections_bucket_fold(
            cs.subrange(1, cs.len() as int),
            name,
            min,
            max,
            b,
            i,
            spec_ratio_bucket_fold(spec_numeric_cells(cs[0], name), min, max, b, i, acc),
        )
    }
}

/// Two integer columns with the same cell values hold the same cells.
pub proof fn lemma_int_cells_injective(a: ColumnData, b: ColumnData)
    requires
        a is Int,
        b is Int,
        a.spec_cells() == b.spec_cells(),
    ensures
        a->Int_0@ == b->Int_0@,
{
    let av = a->Int_0@;
    let bv = b->Int_0@;
    assert(a.spec_cells().len() == av.len());
    assert(b.spec_cells().len() == bv.len());
    assert(av.len() == bv.len());
    assert forall|i: int| 0 <= i < av.len() implies av[i] == bv[i] by {
        assert(a.spec_cells()[i] == b.spec_cells()[i]);
        match av[i] {
            Option::Some(v) => {
                assert(a.spec_cells()[i] == FeatureCell::Int(v));
            },
            Option::None => {
                assert(a.spec_cells()[i] == FeatureCell::Null);
            },
        }
    }
    assert(av =~= bv);
}

/// Two rational columns with the same cell values hold the same cells.
pub proof fn lemma_float_cells_injective(a: ColumnData, b: ColumnData)
    requires
        a is Float,
        b is Float,
        a.spec_cells() == b.spec_cells(),
    ensures
        a->Float_0@ == b->Float_0@,
{
    let av = a->Float_0@;
    let bv = b->Float_0@;
    assert(a.spec_cells().len() == av.len());
    assert(b.spec_cells().len() == bv.len());
    assert(av.len() == bv.len());
    assert forall|i: int| 0 <= i < av.len() implies av[i] == bv[i] by {
        assert(a.spec_cells()[i] == b.spec_cells()[i]);
        match av[i] {
            Option::Some(q) => {
                assert(a.spec_cells()[i] == FeatureCell::Float(q));
            },
            Option::None => {
                assert(a.spec_cells()[i] == FeatureCell::Null);
            },
        }
    }
    assert(av =~= bv);
}

/// Looks the named column of a collection up as nullable rationals, of
/// either numeric kind.
fn numeric_column(c: &MultiPointCollection, name: &String) -> (r: Option<
    Vec<Option<crate::collections::Ratio>>,
>)
    requires
        c.wf(),
    ensures
        r is Some <==> spec_has_numeric_column(*c, name@),
        r matches Some(v) ==> v@ == spec_numeric_cells(*c, name@),
        r matches Some(v) ==> v@.len() == c.spec_len(),
{
    match c.data(name) {
        Option::Some(cd) => {
            proof {
                let j = choose|j: int|
                    0 <= j < c.columns@.len() && (#[trigger] c.columns@[j]).name@ == name@
                        && cd.spec_cells() == c.columns@[j].data.spec_cells()
                        && cd.spec_data_type() == c.columns@[j].data.spec_data_type();
                assert(spec_has_numeric_column(*c, name@));
                let k = choose|k: int|
                    0 <= k < c.columns@.len() && (#[trigger] c.columns@[k]).name@ == name@;
                lemma_column_index_unique(*c, j, k);
            }
            match cd {
                ColumnData::Int(v) => {
                    let mut out: Vec<Option<crate::collections::Ratio>> = Vec::new();
                    let mut i: usize = 0;
                    while i < v.len()
                        invariant
                            i <= v@.len(),
                            out@.len() == i,
                            forall|p: int|
                                0 <= p < i ==> (#[trigger] out@[p]) == (match v@[p] {
                                    Option::None => Option::<crate::collections::Ratio>::None,
                                    Option::Some(x) => Option::Some(
                                        crate::collections::Ratio { num: x, den: 1 },
                                    ),
                                }),
                        decreases v@.len() - i,
                    {
                        match v[i] {
                            Option::Some(x) => {
                                out.push(Some(crate::collections::Ratio { num: x, den: 1 }));
                            },
                            Option::None => {
                                out.push(None);
                            },
                        }
                        i = i + 1;
                    }
                    proof {
                        let k = choose|k: int|
                            0 <= k < c.columns@.len() && (#[trigger] c.columns@[k]).name@ == name@;
                        assert(c.columns@[k].data is Int) by {
                            assert(c.columns@[k].data.spec_data_type()
                                == crate::collections::FeatureDataType::Int);
                        }
                        lemma_int_cells_injective(*cd, c.columns@[k].data);
                        assert(out@ =~= spec_numeric_cells(*c, name@));
                    }
                    Some(out)
                },
                ColumnData::Float(v) => {
                    let mut out: Vec<Option<crate::collections::Ratio>> = Vec::new();
                    let mut i: usize = 0;
                    while i < v.len()
                        invariant
                            i <= v@.len(),
                            out@.len() == i,
                            forall|p: int| 0 <= p < i ==> (#[trigger] out@[p]) == v@[p],
                        decreases v@.len() - i,
                    {
                        out.push(v[i]);
                        i = i + 1;
                    }
                    proof {
                        let k = choose|k: int|
                            0 <= k < c.columns@.len() && (#[trigger] c.columns@[k]).name@ == name@;
                        assert(c.columns@[k].data is Float) by {
                            assert(c.columns@[k].data.spec_data_type()
                                == crate::collections::FeatureDataType::Float);
                        }
                        lemma_float_cells_injective(*cd, c.columns@[k].data);
                        assert(out@ =~= spec_numeric_cells(*c, name@));
                    }
                    Some(out)
                },
            }
        },
        Option::None => {
            None
        },
    }
}

/// The first pass of the histogram over a vector stream: resolves the
/// metadata the parameters left open from the named numeric column, of
/// either kind — integer or exact rational cells.
///
/// Fails exactly when some collection lacks a column of the name, with the
/// missing-column error.
pub fn histogram_metadata_from_collections(
    collections: &Vec<MultiPointCollection>,
    column_name: &String,
    options: HistogramMetadataOptions,
) -> (r: Result<HistogramMetadata, HistogramError>)
    requires
        collections@.len() <= 0x8000,
        forall|k: int| 0 <= k < collections@.len() ==> (#[trigger] collections@[k]).wf(),
        forall|k: int|
            0 <= k < collections@.len() ==> spec_ratio_cells_bounded(
                spec_numeric_cells(#[trigger] collections@[k], column_name@),
            ),
    ensures
        r is Ok <==> (forall|k: int|
            0 <= k < collections@.len() ==> spec_has_numeric_column(
                #[trigger] collections@[k],
                column_name@,
            )),
        r is Err ==> r == Result::<HistogramMetadata, HistogramError>::Err(
            HistogramError::MissingNumericColumn,
        ),
        r matches Ok(m) ==> {
            &&& m.min == (if options.min is Some {
                options.min->Some_0 as int
            } else {
                spec_collections_min_fold(collections@, column_name@, i64::MAX as int)
            })
            &&& m.max == (if options.max is Some {
                options.max->Some_0 as int
            } else {
                spec_collections_max_fold(collections@, column_name@, i64::MIN as int)
            })
            &&& (options.number_of_buckets matches Some(b) ==> m.number_of_buckets == b)
            &&& (options.number_of_buckets is None ==> {
                let n = spec_collections_count_fold(collections@, column_name@, 0);
                (m.number_of_buckets * m.number_of_buckets) <= n < ((m.number_of_buckets + 1) * (
                m.number_of_buckets + 1))
            })
        },
{
    let len = collections.len();
    let mut in_progress = HistogramMetadataInProgress::new_empty();
    let mut k: usize = 0;
    proof {
        assert(collections@.subrange(0, len as int) =~= collections@);
    }
    while k < len
        invariant
            k <= len,
            len == collections@.len(),
            in_progress.n <= (k as int) * 0x100_0000,
            forall|q: int|
                0 <= q < k ==> spec_has_numeric_column(#[trigger] collections@[q], column_name@),
            spec_collections_count_fold(collections@, column_name@, 0)
                == spec_collections_count_fold(
                collections@.subrange(k as int, len as int),
                column_name@,
                in_progress.n as int,
            ),
            spec_collections_min_fold(collections@, column_name@, i64::MAX as int)
                == spec_collections_min_fold(
                collections@.subrange(k as int, len as int),
                column_name@,
                in_progress.min as int,
            ),
            spec_collections_max_fold(collections@, column_name@, i64::MIN as int)
                == spec_collections_max_fold(
                collections@.subrange(k as int, len as int),
                column_name@,
                in_progress.max as int,
            ),
        decreases len - k,
    {
        proof {
            let s = collections@.subrange(k as int, len as int);
            assert(s[0] == collections@[k as int]);
            assert(s.subrange(1, s.len() as int) =~= collections@.subrange(k + 1, len as int));
        }
        let column = match numeric_column(&collections[k], column_name) {
            Option::Some(v) => v,
            Option::None => {
                return Err(HistogramError::MissingNumericColumn);
            },
        };
        proof {
            lemma_ratio_count_fold_bound(column@, in_progress.n as int);
        }
        in_progress.add_ratio_batch(&column);
        k = k + 1;
    }
    proof {
        assert(collections@.subrange(len as int, len as int) =~= Seq::<
            MultiPointCollection,
        >::empty());
    }
    Ok(options.merge_with(in_progress.resolve()))
}

/// The second pass of the histogram over a vector stream: counts the named
/// numeric column of every collection, skipping null cells; rational cells
/// are bucketed exactly.
pub fn histogram_counts_from_collections(
    collections: &Vec<MultiPointCollection>,
    column_name: &String,
    metadata: HistogramMetadata,
) -> (r: Result<Histogram, HistogramError>)
    requires
        collections@.len() <= 0x8000,
        forall|k: int| 0 <= k < collections@.len() ==> (#[trigger] collections@[k]).wf(),
        forall|k: int|
            0 <= k < collections@.len() ==> spec_ratio_cells_bounded(
                spec_numeric_cells(#[trigger] collections@[k], column_name@),
            ),
    ensures
        r is Ok <==> (1 <= metadata.number_of_buckets <= 0x10000 && -spec_bound_cap()
            <= metadata.min <= metadata.max <= spec_bound_cap()) && (forall|k: int|
            0 <= k < collections@.len() ==> spec_has_numeric_column(
                #[trigger] collections@[k],
                column_name@,
            )),
        r matches Ok(h) ==> {
            &&& h.wf()
            &&& h.metadata == metadata
            &&& forall|i: int|
                0 <= i < h.counts@.len() ==> (#[trigger] h.counts@[i])
                    == spec_collections_bucket_fold(
                    collections@,
                    column_name@,
                    metadata.min as int,
                    metadata.max as int,
                    metadata.number_of_buckets as int,
                    i,
                    0,
                )
        },
{
    let mut h = match Histogram::new(metadata.number_of_buckets, metadata.min, metadata.max) {
        Ok(h) => h,
        Err(e) => {
            return Err(e);
        },
    };
    let len = collections.len();
    let mut k: usize = 0;
    let ghost m: int = metadata.min as int;
    let ghost mx: int = metadata.max as int;
    let ghost bb: int = metadata.number_of_buckets as int;
    proof {
        assert(collections@.subrange(0, len as int) =~= collections@);
    }
    while k < len
        invariant
            k <= len,
            len == collections@.len(),
            h.wf(),
            h.metadata == metadata,
            m == metadata.min as int && mx == metadata.max as int && bb
                == metadata.number_of_buckets as int,
            h.total <= (k as int) * 0x100_0000,
            forall|q: int|
                0 <= q < k ==> spec_has_numeric_column(#[trigger] collections@[q], column_name@),
            forall|i: int|
                0 <= i < h.counts@.len() ==> spec_collections_bucket_fold(
                    collections@,
                    column_name@,
                    m,
                    mx,
                    bb,
                    i,
                    0,
                ) == spec_collections_bucket_fold(
                    collections@.subrange(k as int, len as int),
                    column_name@,
                    m,
                    mx,
                    bb,
                    i,
                    (#[trigger] h.counts@[i]) as int,
                ),
        decreases len - k,
    {
        proof {
            let s = collections@.subrange(k as int, len as int);
            assert(s[0] == collections@[k as int]);
            assert(s.subrange(1, s.len() as int) =~= collections@.subrange(k + 1, len as int));
        }
        let column = match numeric_column(&collections[k], column_name) {
            Option::Some(v) => v,
            Option::None => {
                return Err(HistogramError::MissingNumericColumn);
            },
        };
        h.add_ratio_data(&column);
        k = k + 1;
    }
    proof {
        assert(collections@.subrange(len as int, len as int) =~= Seq::<
            MultiPointCollection,
        >::empty());
    }
    Ok(h)
}

/// The no-data propagation rule for histograms: a value equal to the
/// configured no-data value never changes any bucket count.
pub proof fn lemma_histogram_no_data_propagation(
    s: Seq<i64>,
    nd: i64,
    min: int,
    max: int,
    b: int,
    i: int,
    acc: int,
)
    ensures
        spec_bucket_fold(seq![nd] + s, Some(nd), min, max, b, i, acc) == spec_bucket_fold(
            s,
            Some(nd),
            min,
            max,
            b,
            i,
            acc,
        ),
{
    let p = seq![nd] + s;
    assert(p[0] == nd);
    assert(p.subrange(1, p.len() as int) =~= s);
}

} // verus!
