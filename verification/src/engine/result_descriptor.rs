//! Result descriptors: the static output schema of an operator, computed
//! once at initialization and immutable thereafter.

use vstd::prelude::*;
use crate::collections::FeatureDataType;
use crate::spatial_reference::{spec_decimal, u32_decimal_string, SpatialReferenceOption};

verus! {

/// The pixel data types a raster stream can carry. The verified pipeline
/// models every pixel as a 64-bit integer; the tag records the nominal type.
#[derive(Clone, Copy, Debug, PartialEq, Eq, Structural, Hash)]
pub enum RasterDataType {
    U8,
    U16,
    U32,
    U64,
    I8,
    I16,
    I32,
    I64,
    F32,
    F64,
}

impl RasterDataType {
    /// Whether the nominal pixel type is an integer type.
    pub open spec fn spec_is_integral(self) -> bool {
        !(self == RasterDataType::F32 || self == RasterDataType::F64)
    }

    pub fn is_integral(&self) -> (r: bool)
        ensures
            r == self.spec_is_integral(),
    {
        match self {
            RasterDataType::F32 | RasterDataType::F64 => false,
            _ => true,
        }
    }
}

/// The geometry types a vector stream can carry.
#[derive(Clone, Copy, Debug, PartialEq, Eq, Structural, Hash)]
pub enum VectorDataType {
    Data,
    MultiPoint,
    MultiLineString,
    MultiPolygon,
}

/// The resampling methods a source reader may be asked for.
#[derive(Clone, Copy, Debug, PartialEq, Eq, Structural)]
pub enum ResamplingMethod {
    Nearest,
    Average,
    Bilinear,
    Cubic,
    CubicSpline,
    Lanczos,
}

impl ResamplingMethod {
    /// The method's name on the wire.
    pub fn as_text(&self) -> (r: &'static str)
        ensures
            self is Nearest ==> r@ == "NEAREST"@,
            self is Average ==> r@ == "AVERAGE"@,
            self is Bilinear ==> r@ == "BILINEAR"@,
            self is Cubic ==> r@ == "CUBIC"@,
            self is CubicSpline ==> r@ == "CUBICSPLINE"@,
            self is Lanczos ==> r@ == "LANCZOS"@,
    {
        match self {
            ResamplingMethod::Nearest => "NEAREST",
            ResamplingMethod::Average => "AVERAGE",
            ResamplingMethod::Bilinear => "BILINEAR",
            ResamplingMethod::Cubic => "CUBIC",
            ResamplingMethod::CubicSpline => "CUBICSPLINE",
            ResamplingMethod::Lanczos => "LANCZOS",
        }
    }
}

/// A measurement with a unit on a continuous scale.
#[derive(Clone, Debug)]
pub struct ContinuousMeasurement {
    pub measurement: String,
    pub unit: Option<String>,
}

/// A classification: a measurement name and a class name per class number.
///
/// Invariant (`wf`): class numbers are distinct.
#[derive(Clone, Debug)]
pub struct ClassificationMeasurement {
    pub measurement: String,
    pub classes: Vec<(u8, String)>,
}

impl ClassificationMeasurement {
    pub open spec fn wf(self) -> bool {
        forall|i: int, j: int|
            0 <= i < j < self.classes@.len() ==> (#[trigger] self.classes@[i]).0 != (#[trigger]
            self.classes@[j]).0
    }
}

/// A classification in wire form: class numbers as decimal strings, since a
/// map's keys must be strings on the wire.
#[derive(Clone, Debug)]
pub struct SerializableClassificationMeasurement {
    pub measurement: String,
    pub classes: Vec<(String, String)>,
}

/// Turns a classification into its wire form: every class number becomes
/// its decimal string.
pub fn serializable_classification(m: &ClassificationMeasurement) -> (r:
    SerializableClassificationMeasurement)
    ensures
        r.measurement@ == m.measurement@,
        r.classes@.len() == m.classes@.len(),
        forall|i: int|
            0 <= i < m.classes@.len() ==> (#[trigger] r.classes@[i]).0@ == spec_decimal(
                m.classes@[i].0 as int,
            ) && r.classes@[i].1@ == m.classes@[i].1@,
{
    let mut classes: Vec<(String, String)> = Vec::new();
    let mut i: usize = 0;
    while i < m.classes.len()
        invariant
            i <= m.classes@.len(),
            classes@.len() == i,
            forall|j: int|
                0 <= j < i ==> (#[trigger] classes@[j]).0@ == spec_decimal(m.classes@[j].0 as int)
                    && classes@[j].1@ == m.classes@[j].1@,
        decreases m.classes@.len() - i,
    {
        let key = u32_decimal_string(m.classes[i].0 as u32);
        let name = crate::collections::clone_string(&m.classes[i].1);
        classes.push((key, name));
        i = i + 1;
    }
    SerializableClassificationMeasurement {
        measurement: crate::collections::clone_string(&m.measurement),
        classes,
    }
}

/// What a raster's pixel values measure.
#[derive(Clone, Debug)]
pub enum Measurement {
    Unitless,
    Continuous(ContinuousMeasurement),
    Classification(ClassificationMeasurement),
}

/// The view of a measurement: its strings as character sequences, for
/// specifications.
pub enum MeasurementView {
    Unitless,
    Continuous { measurement: Seq<char>, unit: Option<Seq<char>> },
    Classification { measurement: Seq<char>, classes: Seq<(u8, Seq<char>)> },
}

/// The view of a measurement value.
pub open spec fn spec_measurement_view(m: Measurement) -> MeasurementView {
    match m {
        Measurement::Unitless => MeasurementView::Unitless,
        Measurement::Continuous(c) => MeasurementView::Continuous {
            measurement: c.measurement@,
            unit: match c.unit {
                Option::Some(u) => Option::Some(u@),
                Option::None => Option::None,
            },
        },
        Measurement::Classification(c) => MeasurementView::Classification {
            measurement: c.measurement@,
            classes: c.classes@.map_values(|p: (u8, String)| (p.0, p.1@)),
        },
    }
}

/// A fresh measurement with the same view.
pub fn clone_measurement(m: &Measurement) -> (r: Measurement)
    ensures
        spec_measurement_view(r) == spec_measurement_view(*m),
{
    match m {
        Measurement::Unitless => Measurement::Unitless,
        Measurement::Continuous(c) => {
            let unit = match &c.unit {
                Option::Some(u) => Some(crate::collections::clone_string(u)),
                Option::None => None,
            };
            Measurement::Continuous(
                ContinuousMeasurement {
                    measurement: crate::collections::clone_string(&c.measurement),
                    unit,
                },
            )
        },
        Measurement::Classification(c) => {
            let mut classes: Vec<(u8, String)> = Vec::new();
            let mut i: usize = 0;
            while i < c.classes.len()
                invariant
                    i <= c.classes@.len(),
                    classes@.len() == i,
                    forall|j: int|
                        0 <= j < i ==> (#[trigger] classes@[j]).0 == c.classes@[j].0
                            && classes@[j].1@ == c.classes@[j].1@,
                decreases c.classes@.len() - i,
            {
                let name = crate::collections::clone_string(&c.classes[i].1);
                classes.push((c.classes[i].0, name));
                i = i + 1;
            }
            let out = ClassificationMeasurement {
                measurement: crate::collections::clone_string(&c.measurement),
                classes,
            };
            proof {
                assert(out.classes@.map_values(|p: (u8, String)| (p.0, p.1@))
                    =~= c.classes@.map_values(|p: (u8, String)| (p.0, p.1@)));
            }
            Measurement::Classification(out)
        },
    }
}

/// The static output schema of a raster operator.
#[derive(Clone, Debug)]
pub struct RasterResultDescriptor {
    pub data_type: RasterDataType,
    pub spatial_reference: SpatialReferenceOption,
    pub measurement: Measurement,
    pub no_data_value: Option<i64>,
}

/// The static output schema of a vector operator: geometry type, reference,
/// and the named attribute columns.
#[derive(Clone, Debug)]
pub struct VectorResultDescriptor {
    pub data_type: VectorDataType,
    pub spatial_reference: SpatialReferenceOption,
    pub columns: Vec<(String, FeatureDataType)>,
}

impl VectorResultDescriptor {
    /// The type of the named column, if the schema has it.
    pub open spec fn spec_column_type(self, name: Seq<char>) -> Option<FeatureDataType> {
        if exists|j: int| 0 <= j < self.columns@.len() && (#[trigger] self.columns@[j]).0@ == name {
            Some(
                self.columns@[choose|j: int|
                    0 <= j < self.columns@.len() && (#[trigger] self.columns@[j]).0@ == name].1,
            )
        } else {
            None
        }
    }

    /// Looks the named column up in the schema.
    pub fn column_type(&self, name: &String) -> (r: Option<FeatureDataType>)
        ensures
            r is Some <==> exists|j: int|
                0 <= j < self.columns@.len() && (#[trigger] self.columns@[j]).0@ == name@,
            r matches Some(t) ==> exists|j: int|
                0 <= j < self.columns@.len() && (#[trigger] self.columns@[j]).0@ == name@
                    && self.columns@[j].1 == t,
    {
        let mut j: usize = 0;
        while j < self.columns.len()
            invariant
                j <= self.columns@.len(),
                forall|i: int| 0 <= i < j ==> (#[trigger] self.columns@[i]).0@ != name@,
            decreases self.columns@.len() - j,
        {
            if self.columns[j].0.eq(name) {
                return Some(self.columns[j].1);
            }
            j = j + 1;
        }
        None
    }
}

/// The static output schema of a plot operator: plots carry their own
/// presentation, so nothing is recorded.
#[derive(Clone, Copy, Debug, PartialEq, Eq, Structural)]
pub struct PlotResultDescriptor {
}

} // verus!
