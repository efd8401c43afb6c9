//! Columnar feature collections: an ordered batch of multi-point geometries,
//! one time interval per feature, and named attribute columns that run
//! parallel to the features.
//!
//! Attribute cells are integers or exact rationals; a rational stands for
//! what the pipeline computes as a mean.

use vstd::prelude::*;
use crate::primitives::Coordinate2D;
use crate::time::TimeInterval;

verus! {

/// An exact rational number with a positive denominator, standing for a
/// non-integer attribute value such as a mean.
#[derive(Clone, Copy, Debug, PartialEq, Eq, Structural)]
pub struct Ratio {
    pub num: i64,
    pub den: i64,
}

impl Ratio {
    pub open spec fn wf(self) -> bool {
        self.den > 0
    }

    pub fn new(num: i64, den: i64) -> (r: Result<Ratio, CollectionError>)
        ensures
            r is Ok <==> den > 0,
            r matches Ok(q) ==> q.num == num && q.den == den && q.wf(),
    {
        if den > 0 {
            Ok(Ratio { num, den })
        } else {
            Err(CollectionError::NonPositiveDenominator)
        }
    }
}

/// One attribute cell, at the view level: absent, an integer, or a rational.
#[derive(Clone, Copy, Debug, PartialEq, Eq, Structural)]
pub enum FeatureCell {
    Null,
    Int(i64),
    Float(Ratio),
}

/// The data types an attribute column can carry.
#[derive(Clone, Copy, Debug, PartialEq, Eq, Structural)]
pub enum FeatureDataType {
    Category,
    Int,
    Float,
    Text,
    Bool,
    DateTime,
}

/// The cells of one attribute column, all of one data type.
#[derive(Clone, Debug)]
pub enum ColumnData {
    Int(Vec<Option<i64>>),
    Float(Vec<Option<Ratio>>),
}

impl ColumnData {
    /// The column's cells as a sequence of cell values.
    pub open spec fn spec_cells(self) -> Seq<FeatureCell> {
        match self {
            ColumnData::Int(v) => v@.map_values(
                |o: Option<i64>|
                    match o {
                        Option::None => FeatureCell::Null,
                        Option::Some(x) => FeatureCell::Int(x),
                    },
            ),
            ColumnData::Float(v) => v@.map_values(
                |o: Option<Ratio>|
                    match o {
                        Option::None => FeatureCell::Null,
                        Option::Some(q) => FeatureCell::Float(q),
                    },
            ),
        }
    }

    pub open spec fn spec_len(self) -> int {
        self.spec_cells().len() as int
    }

    pub open spec fn spec_data_type(self) -> FeatureDataType {
        match self {
            ColumnData::Int(_) => FeatureDataType::Int,
            ColumnData::Float(_) => FeatureDataType::Float,
        }
    }

    pub fn len(&self) -> (r: usize)
        ensures
            r == self.spec_len(),
    {
        match self {
            ColumnData::Int(v) => v.len(),
            ColumnData::Float(v) => v.len(),
        }
    }

    pub fn data_type(&self) -> (r: FeatureDataType)
        ensures
            r == self.spec_data_type(),
    {
        match self {
            ColumnData::Int(_) => FeatureDataType::Int,
            ColumnData::Float(_) => FeatureDataType::Float,
        }
    }

    /// A fresh column with the same cells.
    pub fn duplicate(&self) -> (r: ColumnData)
        ensures
            r.spec_cells() == self.spec_cells(),
            r.spec_data_type() == self.spec_data_type(),
    {
        match self {
            ColumnData::Int(v) => {
                let mut o: Vec<Option<i64>> = Vec::new();
                let mut i: usize = 0;
                while i < v.len()
                    invariant
                        i <= v@.len(),
                        o@.len() == i,
                        forall|j: int| 0 <= j < i ==> o@[j] == v@[j],
                    decreases v@.len() - i,
                {
                    o.push(v[i]);
                    i = i + 1;
                }
                proof {
                    assert(o@ =~= v@);
                }
                ColumnData::Int(o)
            },
            ColumnData::Float(v) => {
                let mut o: Vec<Option<Ratio>> = Vec::new();
                let mut i: usize = 0;
                while i < v.len()
                    invariant
                        i <= v@.len(),
                        o@.len() == i,
                        forall|j: int| 0 <= j < i ==> o@[j] == v@[j],
                    decreases v@.len() - i,
                {
                    o.push(v[i]);
                    i = i + 1;
                }
                proof {
                    assert(o@ =~= v@);
                }
                ColumnData::Float(o)
            },
        }
    }

    /// Appends the cells of `other`, which must carry the same data type.
    pub fn append(&mut self, other: &ColumnData)
        requires
            old(self).spec_data_type() == other.spec_data_type(),
        ensures
            final(self).spec_cells() == old(self).spec_cells() + other.spec_cells(),
            final(self).spec_data_type() == old(self).spec_data_type(),
    {
        match self {
            ColumnData::Int(v) => {
                match other {
                    ColumnData::Int(w) => {
                        let ghost v0 = v@;
                        let mut i: usize = 0;
                        while i < w.len()
                            invariant
                                i <= w@.len(),
                                v@ == v0 + w@.subrange(0, i as int),
                            decreases w@.len() - i,
                        {
                            v.push(w[i]);
                            proof {
                                assert(v@ =~= v0 + w@.subrange(0, i + 1));
                            }
                            i = i + 1;
                        }
                        proof {
                            assert(w@.subrange(0, w@.len() as int) =~= w@);
                            assert((v0 + w@).map_values(
                                |o: Option<i64>|
                                    match o {
                                        Option::None => FeatureCell::Null,
                                        Option::Some(x) => FeatureCell::Int(x),
                                    },
                            ) =~= v0.map_values(
                                |o: Option<i64>|
                                    match o {
                                        Option::None => FeatureCell::Null,
                                        Option::Some(x) => FeatureCell::Int(x),
                                    },
                            ) + w@.map_values(
                                |o: Option<i64>|
                                    match o {
                                        Option::None => FeatureCell::Null,
                                        Option::Some(x) => FeatureCell::Int(x),
                                    },
                            ));
                        }
                    },
                    ColumnData::Float(_) => {
                        proof {
                            assert(false);
                        }
                    },
                }
            },
            ColumnData::Float(v) => {
                match other {
                    ColumnData::Float(w) => {
                        let ghost v0 = v@;
                        let mut i: usize = 0;
                        while i < w.len()
                            invariant
                                i <= w@.len(),
                                v@ == v0 + w@.subrange(0, i as int),
                            decreases w@.len() - i,
                        {
                            v.push(w[i]);
                            proof {
                                assert(v@ =~= v0 + w@.subrange(0, i + 1));
                            }
                            i = i + 1;
                        }
                        proof {
                            assert(w@.subrange(0, w@.len() as int) =~= w@);
                            assert((v0 + w@).map_values(
                                |o: Option<Ratio>|
                                    match o {
                                        Option::None => FeatureCell::Null,
                                        Option::Some(q) => FeatureCell::Float(q),
                                    },
                            ) =~= v0.map_values(
                                |o: Option<Ratio>|
                                    match o {
                                        Option::None => FeatureCell::Null,
                                        Option::Some(q) => FeatureCell::Float(q),
                                    },
                            ) + w@.map_values(
                                |o: Option<Ratio>|
                                    match o {
                                        Option::None => FeatureCell::Null,
                                        Option::Some(q) => FeatureCell::Float(q),
                                    },
                            ));
                        }
                    },
                    ColumnData::Int(_) => {
                        proof {
                            assert(false);
                        }
                    },
                }
            },
        }
    }
}

/// A named attribute column.
#[derive(Clone, Debug)]
pub struct FeatureColumn {
    pub name: String,
    pub data: ColumnData,
}

/// One multi-point geometry: the locations of one feature.
#[derive(Clone, Debug)]
pub struct MultiPoint {
    pub coordinates: Vec<Coordinate2D>,
}

impl MultiPoint {
    pub open spec fn view(self) -> Seq<Coordinate2D> {
        self.coordinates@
    }

    pub fn new(coordinates: Vec<Coordinate2D>) -> (r: MultiPoint)
        ensures
            r@ == coordinates@,
    {
        MultiPoint { coordinates }
    }

    /// A fresh multi-point with the same coordinates.
    pub fn duplicate(&self) -> (r: MultiPoint)
        ensures
            r@ == self@,
    {
        let mut o: Vec<Coordinate2D> = Vec::new();
        let mut i: usize = 0;
        while i < self.coordinates.len()
            invariant
                i <= self.coordinates@.len(),
                o@.len() == i,
                forall|j: int| 0 <= j < i ==> o@[j] == self.coordinates@[j],
            decreases self.coordinates@.len() - i,
        {
            o.push(self.coordinates[i]);
            i = i + 1;
        }
        proof {
            assert(o@ =~= self.coordinates@);
        }
        MultiPoint { coordinates: o }
    }
}

/// The geometries of a sequence of multi-points, at the view level.
pub open spec fn spec_mp_views(v: Seq<MultiPoint>) -> Seq<Seq<Coordinate2D>> {
    v.map_values(|mp: MultiPoint| mp@)
}

/// A columnar collection of multi-point features.
///
/// Invariant (`wf`): geometries, time intervals, and every column run
/// parallel — they all have one entry per feature — and column names are
/// distinct.
#[derive(Clone, Debug)]
pub struct MultiPointCollection {
    pub coordinates: Vec<MultiPoint>,
    pub time_intervals: Vec<TimeInterval>,
    pub columns: Vec<FeatureColumn>,
}

impl MultiPointCollection {
    pub open spec fn spec_len(self) -> int {
        self.coordinates@.len() as int
    }

    pub open spec fn wf(self) -> bool {
        &&& self.spec_len() <= 0x100_0000
        &&& self.time_intervals@.len() == self.spec_len()
        &&& forall|i: int|
            0 <= i < self.time_intervals@.len() ==> (#[trigger] self.time_intervals@[i]).wf()
        &&& forall|i: int|
            0 <= i < self.coordinates@.len() ==> (#[trigger] self.coordinates@[i])@.len() <= 0x10000
        &&& self.columns@.len() <= 0x100
        &&& forall|j: int|
            0 <= j < self.columns@.len() ==> (#[trigger] self.columns@[j]).data.spec_len()
                == self.spec_len()
        &&& forall|j1: int, j2: int|
            0 <= j1 < j2 < self.columns@.len() ==> (#[trigger] self.columns@[j1].name@)
                != (#[trigger] self.columns@[j2].name@)
    }

    /// The geometry views of all features, in order.
    pub open spec fn spec_geometries(self) -> Seq<Seq<Coordinate2D>> {
        spec_mp_views(self.coordinates@)
    }

    pub open spec fn spec_times(self) -> Seq<TimeInterval> {
        self.time_intervals@
    }

    /// Two collections carry the same columns, by name and data type, in the
    /// same order.
    pub open spec fn spec_same_schema(self, other: MultiPointCollection) -> bool {
        &&& self.columns@.len() == other.columns@.len()
        &&& forall|j: int|
            0 <= j < self.columns@.len() ==> (#[trigger] self.columns@[j]).name@
                == other.columns@[j].name@ && self.columns@[j].data.spec_data_type()
                == other.columns@[j].data.spec_data_type()
    }

    /// View-level equality of two collections.
    pub open spec fn spec_eq(self, other: MultiPointCollection) -> bool {
        &&& self.spec_geometries() == other.spec_geometries()
        &&& self.spec_times() == other.spec_times()
        &&& self.spec_same_schema(other)
        &&& forall|j: int|
            0 <= j < self.columns@.len() ==> (#[trigger] self.columns@[j]).data.spec_cells()
                == other.columns@[j].data.spec_cells()
    }

    /// An empty collection without columns.
    pub fn empty() -> (r: MultiPointCollection)
        ensures
            r.spec_len() == 0,
            r.columns@.len() == 0,
            r.wf(),
    {
        MultiPointCollection {
            coordinates: Vec::new(),
            time_intervals: Vec::new(),
            columns: Vec::new(),
        }
    }

    /// Builds a collection from parallel geometry and time arrays, without
    /// attribute columns; rejects arrays of unequal length.
    pub fn from_data(coordinates: Vec<MultiPoint>, time_intervals: Vec<TimeInterval>) -> (r:
        Result<MultiPointCollection, CollectionError>)
        requires
            coordinates@.len() <= 0x100_0000,
            forall|i: int| 0 <= i < coordinates@.len() ==> (#[trigger] coordinates@[i])@.len() <= 0x10000,
            forall|i: int|
                0 <= i < time_intervals@.len() ==> (#[trigger] time_intervals@[i]).wf(),
        ensures
            r is Ok <==> coordinates@.len() == time_intervals@.len(),
            r matches Ok(c) ==> c.coordinates@ == coordinates@ && c.time_intervals@
                == time_intervals@ && c.columns@.len() == 0 && c.wf(),
    {
        if coordinates.len() == time_intervals.len() {
            Ok(MultiPointCollection { coordinates, time_intervals, columns: Vec::new() })
        } else {
            Err(CollectionError::UnequalLengths)
        }
    }

    pub fn len(&self) -> (r: usize)
        ensures
            r == self.spec_len(),
    {
        self.coordinates.len()
    }

    pub fn is_empty(&self) -> (r: bool)
        ensures
            r == (self.spec_len() == 0),
    {
        self.coordinates.len() == 0
    }

    /// The column of the given name, if the collection has one.
    pub fn data(&self, name: &String) -> (r: Option<&ColumnData>)
        ensures
            r is Some <==> exists|j: int|
                0 <= j < self.columns@.len() && (#[trigger] self.columns@[j]).name@ == name@,
            r matches Some(cd) ==> exists|j: int|
                0 <= j < self.columns@.len() && (#[trigger] self.columns@[j]).name@ == name@
                    && cd.spec_cells() == self.columns@[j].data.spec_cells()
                    && cd.spec_data_type() == self.columns@[j].data.spec_data_type(),
    {
        let mut j: usize = 0;
        while j < self.columns.len()
            invariant
                j <= self.columns@.len(),
                forall|i: int| 0 <= i < j ==> (#[trigger] self.columns@[i]).name@ != name@,
            decreases self.columns@.len() - j,
        {
            if self.columns[j].name.eq(name) {
                return Some(&self.columns[j].data);
            }
            j = j + 1;
        }
        None
    }

    /// Appends a new attribute column; rejects a length mismatch and a name
    /// that the collection already carries.
    pub fn add_column(&self, name: String, data: ColumnData) -> (r: Result<
        MultiPointCollection,
        CollectionError,
    >)
        requires
            self.wf(),
            self.columns@.len() < 0x100,
        ensures
            r is Ok <==> data.spec_len() == self.spec_len() && (forall|j: int|
                0 <= j < self.columns@.len() ==> (#[trigger] self.columns@[j]).name@ != name@),
            r matches Ok(c) ==> {
                &&& c.wf()
                &&& c.spec_geometries() == self.spec_geometries()
                &&& c.spec_times() == self.spec_times()
                &&& c.columns@.len() == self.columns@.len() + 1
                &&& forall|j: int|
                    0 <= j < self.columns@.len() ==> (#[trigger] c.columns@[j]).name@
                        == self.columns@[j].name@ && c.columns@[j].data.spec_cells()
                        == self.columns@[j].data.spec_cells()
                        && c.columns@[j].data.spec_data_type()
                        == self.columns@[j].data.spec_data_type()
                &&& c.columns@[self.columns@.len() as int].name@ == name@
                &&& c.columns@[self.columns@.len() as int].data.spec_cells() == data.spec_cells()
                &&& c.columns@[self.columns@.len() as int].data.spec_data_type()
                    == data.spec_data_type()
            },
    {
        if data.len() != self.len() {
            return Err(CollectionError::UnequalLengths);
        }
        let mut j: usize = 0;
        while j < self.columns.len()
            invariant
                j <= self.columns@.len(),
                forall|i: int| 0 <= i < j ==> (#[trigger] self.columns@[i]).name@ != name@,
            decreases self.columns@.len() - j,
        {
            if self.columns[j].name.eq(&name) {
                return Err(CollectionError::ColumnNameConflict);
            }
            j = j + 1;
        }
        let mut out = self.duplicate();
        out.columns.push(FeatureColumn { name, data });
        proof {
            assert(forall|i: int|
                0 <= i < self.columns@.len() ==> (#[trigger] out.columns@[i]).name@
                    == self.columns@[i].name@);
        }
        Ok(out)
    }

    /// A fresh collection with the same features and columns.
    pub fn duplicate(&self) -> (r: MultiPointCollection)
        ensures
            r.spec_geometries() == self.spec_geometries(),
            r.spec_times() == self.spec_times(),
            r.columns@.len() == self.columns@.len(),
            forall|j: int|
                0 <= j < self.columns@.len() ==> (#[trigger] r.columns@[j]).name@
                    == self.columns@[j].name@ && r.columns@[j].data.spec_cells()
                    == self.columns@[j].data.spec_cells() && r.columns@[j].data.spec_data_type()
                    == self.columns@[j].data.spec_data_type(),
            r.spec_len() == self.spec_len(),
            self.wf() ==> r.wf(),
    {
        let mut coordinates: Vec<MultiPoint> = Vec::new();
        let mut i: usize = 0;
        while i < self.coordinates.len()
            invariant
                i <= self.coordinates@.len(),
                coordinates@.len() == i,
                forall|j: int| 0 <= j < i ==> (#[trigger] coordinates@[j])@ == self.coordinates@[j]@,
            decreases self.coordinates@.len() - i,
        {
            coordinates.push(self.coordinates[i].duplicate());
            i = i + 1;
        }
        let mut time_intervals: Vec<TimeInterval> = Vec::new();
        let mut t: usize = 0;
        while t < self.time_intervals.len()
            invariant
                t <= self.time_intervals@.len(),
                time_intervals@.len() == t,
                forall|j: int| 0 <= j < t ==> time_intervals@[j] == self.time_intervals@[j],
            decreases self.time_intervals@.len() - t,
        {
            time_intervals.push(self.time_intervals[t]);
            t = t + 1;
        }
        let mut columns: Vec<FeatureColumn> = Vec::new();
        let mut c: usize = 0;
        while c < self.columns.len()
            invariant
                c <= self.columns@.len(),
                columns@.len() == c,
                forall|j: int|
                    0 <= j < c ==> (#[trigger] columns@[j]).name@ == self.columns@[j].name@
                        && columns@[j].data.spec_cells() == self.columns@[j].data.spec_cells()
                        && columns@[j].data.spec_data_type()
                        == self.columns@[j].data.spec_data_type(),
            decreases self.columns@.len() - c,
        {
            let col = &self.columns[c];
            let name = clone_string(&col.name);
            columns.push(FeatureColumn { name, data: col.data.duplicate() });
            c = c + 1;
        }
        let r = MultiPointCollection { coordinates, time_intervals, columns };
        proof {
            assert(r.spec_geometries() =~= self.spec_geometries());
            assert(r.spec_times() =~= self.spec_times());
        }
        r
    }
}

/// A fresh string with the same characters.
pub fn clone_string(s: &String) -> (r: String)
    ensures
        r@ == s@,
{
    let r = s.clone();
    r
}

/// Errors of collection construction and modification.
#[derive(Clone, Copy, Debug, PartialEq, Eq, Structural)]
pub enum CollectionError {
    /// Parallel arrays of a collection differ in length.
    UnequalLengths,
    /// The collection already carries a column of this name.
    ColumnNameConflict,
    /// A rational's denominator must be positive.
    NonPositiveDenominator,
}

} // verus!
