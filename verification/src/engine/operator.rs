//! The operator tree: a declarative, serializable tree of operator variants
//! is initialized, one-shot, into a tree of initialized operators carrying
//! resolved result descriptors. All arity and schema errors surface here,
//! never at query time.

use vstd::prelude::*;
use crate::collections::FeatureDataType;
use crate::engine::execution_context::{EngineError, MockExecutionContext};
use crate::engine::result_descriptor::{
    clone_measurement, spec_measurement_view, Measurement, MeasurementView, PlotResultDescriptor,
    RasterDataType, RasterResultDescriptor, VectorDataType, VectorResultDescriptor,
};
use crate::dataset::DatasetId;
use crate::plot::histogram::HistogramParams;
use crate::processing::raster_scaling::{PropertiesKeyOrValue, ScalingMode};
use crate::processing::raster_vector_join::{AggregationMethod, RasterVectorJoinParams};
use crate::processing::reprojection::ReprojectionParams;
use crate::raster::RasterTile;
use crate::spatial_reference::SpatialReferenceOption;

verus! {

/// The parameters of the mock raster source: the tiles it serves and their
/// schema.
#[derive(Clone, Debug)]
pub struct MockRasterSourceParams {
    pub data: Vec<RasterTile>,
    pub result_descriptor: RasterResultDescriptor,
}

/// The parameters of the mock point dataset source.
#[derive(Clone, Debug)]
pub struct MockDataSetDataSourceParams {
    pub data_set: DatasetId,
}

/// The parameters of the raster scaling operator: where slope and offset
/// come from — a property of the input raster or a constant — an optional
/// output measurement, and the direction.
#[derive(Clone, Debug)]
pub struct RasterScalingParams {
    pub slope: PropertiesKeyOrValue,
    pub offset: PropertiesKeyOrValue,
    pub output_measurement: Option<Measurement>,
    pub scaling_mode: ScalingMode,
}

/// A declarative raster operator.
#[derive(Debug)]
pub enum RasterOperator {
    MockRasterSource { params: MockRasterSourceParams },
    RasterScaling { params: RasterScalingParams, source: Box<RasterOperator> },
    Reprojection { params: ReprojectionParams, source: Box<RasterOperator> },
}

/// A declarative vector operator.
#[derive(Debug)]
pub enum VectorOperator {
    MockDataSetDataSource { params: MockDataSetDataSourceParams },
    RasterVectorJoin {
        params: RasterVectorJoinParams,
        vector_source: Box<VectorOperator>,
        raster_sources: Vec<RasterOperator>,
    },
    Reprojection { params: ReprojectionParams, source: Box<VectorOperator> },
}

/// A declarative plot operator.
#[derive(Debug)]
pub enum PlotOperator {
    Histogram {
        params: HistogramParams,
        raster_sources: Vec<RasterOperator>,
        vector_sources: Vec<VectorOperator>,
    },
}

/// An operator of any of the three kinds.
#[derive(Debug)]
pub enum TypedOperator {
    Vector(VectorOperator),
    Raster(RasterOperator),
    Plot(PlotOperator),
}

impl TypedOperator {
    /// The vector operator inside; fails on the other variants.
    pub fn get_vector(self) -> (r: Result<VectorOperator, EngineError>)
        ensures
            r is Ok <==> self is Vector,
            r matches Ok(o) ==> self == TypedOperator::Vector(o),
            r is Err ==> r == Result::<VectorOperator, EngineError>::Err(
                EngineError::InvalidOperatorType,
            ),
    {
        if let TypedOperator::Vector(o) = self {
            return Ok(o);
        }
        Err(EngineError::InvalidOperatorType)
    }

    /// The raster operator inside; fails on the other variants.
    pub fn get_raster(self) -> (r: Result<RasterOperator, EngineError>)
        ensures
            r is Ok <==> self is Raster,
            r matches Ok(o) ==> self == TypedOperator::Raster(o),
            r is Err ==> r == Result::<RasterOperator, EngineError>::Err(
                EngineError::InvalidOperatorType,
            ),
    {
        if let TypedOperator::Raster(o) = self {
            return Ok(o);
        }
        Err(EngineError::InvalidOperatorType)
    }

    /// The plot operator inside; fails on the other variants.
    pub fn get_plot(self) -> (r: Result<PlotOperator, EngineError>)
        ensures
            r is Ok <==> self is Plot,
            r matches Ok(o) ==> self == TypedOperator::Plot(o),
            r is Err ==> r == Result::<PlotOperator, EngineError>::Err(
                EngineError::InvalidOperatorType,
            ),
    {
        if let TypedOperator::Plot(o) = self {
            return Ok(o);
        }
        Err(EngineError::InvalidOperatorType)
    }
}

/// An initialized raster operator: the declarative node plus its resolved
/// descriptor fields.
#[derive(Debug)]
pub enum InitializedRasterOperator {
    MockRasterSource { params: MockRasterSourceParams },
    RasterScaling {
        params: RasterScalingParams,
        result_descriptor: RasterResultDescriptor,
        source: Box<InitializedRasterOperator>,
    },
    Reprojection {
        params: ReprojectionParams,
        result_descriptor: RasterResultDescriptor,
        source: Box<InitializedRasterOperator>,
    },
}

/// An initialized vector operator.
#[derive(Debug)]
pub enum InitializedVectorOperator {
    MockDataSetDataSource {
        params: MockDataSetDataSourceParams,
        result_descriptor: VectorResultDescriptor,
        points: Vec<crate::primitives::Coordinate2D>,
    },
    RasterVectorJoin {
        params: RasterVectorJoinParams,
        result_descriptor: VectorResultDescriptor,
        vector_source: Box<InitializedVectorOperator>,
        raster_sources: Vec<InitializedRasterOperator>,
    },
    Reprojection {
        params: ReprojectionParams,
        result_descriptor: VectorResultDescriptor,
        source: Box<InitializedVectorOperator>,
    },
}

/// An initialized plot operator.
#[derive(Debug)]
pub enum InitializedPlotOperator {
    Histogram {
        params: HistogramParams,
        result_descriptor: PlotResultDescriptor,
        raster_sources: Vec<InitializedRasterOperator>,
        vector_sources: Vec<InitializedVectorOperator>,
    },
}

/// An initialized operator of any of the three kinds.
pub enum TypedInitializedOperator {
    Vector(InitializedVectorOperator),
    Raster(InitializedRasterOperator),
    Plot(InitializedPlotOperator),
}

/// The nominal pixel type of a raster operator's output.
pub open spec fn spec_raster_out_data_type(op: RasterOperator) -> RasterDataType
    decreases op,
{
    match op {
        RasterOperator::MockRasterSource { params } => params.result_descriptor.data_type,
        RasterOperator::RasterScaling { source, .. } => spec_raster_out_data_type(*source),
        RasterOperator::Reprojection { source, .. } => spec_raster_out_data_type(*source),
    }
}

/// The spatial reference of a raster operator's output: reprojection
/// rewrites it to the target, everything else passes it through.
pub open spec fn spec_raster_out_srs(op: RasterOperator) -> SpatialReferenceOption
    decreases op,
{
    match op {
        RasterOperator::MockRasterSource { params } => params.result_descriptor.spatial_reference,
        RasterOperator::RasterScaling { source, .. } => spec_raster_out_srs(*source),
        RasterOperator::Reprojection { params, .. } => SpatialReferenceOption::SpatialReference(
            params.target_spatial_reference,
        ),
    }
}

/// The no-data value of a raster operator's output: reprojection forces
/// one, defaulting to zero, because it must fill uncovered pixels.
pub open spec fn spec_raster_out_no_data(op: RasterOperator) -> Option<i64>
    decreases op,
{
    match op {
        RasterOperator::MockRasterSource { params } => params.result_descriptor.no_data_value,
        RasterOperator::RasterScaling { source, .. } => spec_raster_out_no_data(*source),
        RasterOperator::Reprojection { source, .. } => match spec_raster_out_no_data(*source) {
            Option::Some(nd) => Option::Some(nd),
            Option::None => Option::Some(0),
        },
    }
}

/// What a raster operator's output measures: scaling may replace it with a
/// configured output measurement, everything else passes it through.
pub open spec fn spec_raster_out_measurement(op: RasterOperator) -> MeasurementView
    decreases op,
{
    match op {
        RasterOperator::MockRasterSource { params } => spec_measurement_view(
            params.result_descriptor.measurement,
        ),
        RasterOperator::RasterScaling { params, source } => match params.output_measurement {
            Option::Some(m) => spec_measurement_view(m),
            Option::None => spec_raster_out_measurement(*source),
        },
        RasterOperator::Reprojection { source, .. } => spec_raster_out_measurement(*source),
    }
}

/// Initializes a raster operator. Raster initialization cannot fail: the
/// mock source carries its data, and scaling and reprojection validate
/// nothing beyond their sources.
pub fn initialize_raster_operator(op: RasterOperator, context: &MockExecutionContext) -> (r:
    InitializedRasterOperator)
    ensures
        spec_init_raster_data_type(r) == spec_raster_out_data_type(op),
        spec_init_raster_srs(r) == spec_raster_out_srs(op),
        spec_init_raster_no_data(r) == spec_raster_out_no_data(op),
        spec_init_raster_measurement(r) == spec_raster_out_measurement(op),
    decreases op,
{
    match op {
        RasterOperator::MockRasterSource { params } => InitializedRasterOperator::MockRasterSource {
            params,
        },
        RasterOperator::RasterScaling { params, source } => {
            let initialized = initialize_raster_operator(*source, context);
            let descriptor = initialized_raster_descriptor(&initialized, &params.output_measurement);
            InitializedRasterOperator::RasterScaling {
                params,
                result_descriptor: descriptor,
                source: Box::new(initialized),
            }
        },
        RasterOperator::Reprojection { params, source } => {
            let initialized = initialize_raster_operator(*source, context);
            let mut descriptor = initialized_raster_descriptor(&initialized, &None);
            descriptor.spatial_reference = SpatialReferenceOption::SpatialReference(
                params.target_spatial_reference,
            );
            descriptor.no_data_value = match descriptor.no_data_value {
                Option::Some(nd) => Some(nd),
                Option::None => Some(0),
            };
            InitializedRasterOperator::Reprojection {
                params,
                result_descriptor: descriptor,
                source: Box::new(initialized),
            }
        },
    }
}

/// The nominal pixel type of an initialized raster operator.
pub open spec fn spec_init_raster_data_type(io: InitializedRasterOperator) -> RasterDataType
    decreases io,
{
    match io {
        InitializedRasterOperator::MockRasterSource { params } => params.result_descriptor.data_type,
        InitializedRasterOperator::RasterScaling { result_descriptor, .. } => result_descriptor.data_type,
        InitializedRasterOperator::Reprojection { result_descriptor, .. } => result_descriptor.data_type,
    }
}

/// The spatial reference of an initialized raster operator.
pub open spec fn spec_init_raster_srs(io: InitializedRasterOperator) -> SpatialReferenceOption
    decreases io,
{
    match io {
        InitializedRasterOperator::MockRasterSource { params } => params.result_descriptor.spatial_reference,
        InitializedRasterOperator::RasterScaling { result_descriptor, .. } => result_descriptor.spatial_reference,
        InitializedRasterOperator::Reprojection { result_descriptor, .. } => result_descriptor.spatial_reference,
    }
}

/// The no-data value of an initialized raster operator.
pub open spec fn spec_init_raster_no_data(io: InitializedRasterOperator) -> Option<i64>
    decreases io,
{
    match io {
        InitializedRasterOperator::MockRasterSource { params } => params.result_descriptor.no_data_value,
        InitializedRasterOperator::RasterScaling { result_descriptor, .. } => result_descriptor.no_data_value,
        InitializedRasterOperator::Reprojection { result_descriptor, .. } => result_descriptor.no_data_value,
    }
}

/// What an initialized raster operator's output measures: the view of its
/// stored descriptor's measurement.
pub open spec fn spec_init_raster_measurement(io: InitializedRasterOperator) -> MeasurementView
    decreases io,
{
    match io {
        InitializedRasterOperator::MockRasterSource { params } => spec_measurement_view(
            params.result_descriptor.measurement,
        ),
        InitializedRasterOperator::RasterScaling { result_descriptor, .. } => spec_measurement_view(
            result_descriptor.measurement,
        ),
        InitializedRasterOperator::Reprojection { result_descriptor, .. } => spec_measurement_view(
            result_descriptor.measurement,
        ),
    }
}

/// Reads the resolved descriptor of an initialized raster operator,
/// replacing the measurement where a scaling operator configures one.
fn initialized_raster_descriptor(
    io: &InitializedRasterOperator,
    output_measurement: &Option<Measurement>,
) -> (r: RasterResultDescriptor)
    ensures
        r.data_type == spec_init_raster_data_type(*io),
        r.spatial_reference == spec_init_raster_srs(*io),
        r.no_data_value == spec_init_raster_no_data(*io),
        spec_measurement_view(r.measurement) == (match *output_measurement {
            Option::Some(m) => spec_measurement_view(m),
            Option::None => spec_init_raster_measurement(*io),
        }),
{
    let base = result_descriptor_of_raster(io);
    match output_measurement {
        Option::Some(m) => RasterResultDescriptor {
            data_type: base.data_type,
            spatial_reference: base.spatial_reference,
            measurement: clone_measurement(m),
            no_data_value: base.no_data_value,
        },
        Option::None => base,
    }
}

/// The resolved descriptor of an initialized raster operator.
pub fn result_descriptor_of_raster(io: &InitializedRasterOperator) -> (r: RasterResultDescriptor)
    ensures
        r.data_type == spec_init_raster_data_type(*io),
        r.spatial_reference == spec_init_raster_srs(*io),
        r.no_data_value == spec_init_raster_no_data(*io),
        spec_measurement_view(r.measurement) == spec_init_raster_measurement(*io),
{
    match io {
        InitializedRasterOperator::MockRasterSource { params } => RasterResultDescriptor {
            data_type: params.result_descriptor.data_type,
            spatial_reference: params.result_descriptor.spatial_reference,
            measurement: clone_measurement(&params.result_descriptor.measurement),
            no_data_value: params.result_descriptor.no_data_value,
        },
        InitializedRasterOperator::RasterScaling { result_descriptor, .. } => RasterResultDescriptor {
            data_type: result_descriptor.data_type,
            spatial_reference: result_descriptor.spatial_reference,
            measurement: clone_measurement(&result_descriptor.measurement),
            no_data_value: result_descriptor.no_data_value,
        },
        InitializedRasterOperator::Reprojection { result_descriptor, .. } => RasterResultDescriptor {
            data_type: result_descriptor.data_type,
            spatial_reference: result_descriptor.spatial_reference,
            measurement: clone_measurement(&result_descriptor.measurement),
            no_data_value: result_descriptor.no_data_value,
        },
    }
}

/// The view of a column schema: names as character sequences.
pub open spec fn spec_columns_view(cols: Seq<(String, FeatureDataType)>) -> Seq<
    (Seq<char>, FeatureDataType),
> {
    cols.map_values(|p: (String, FeatureDataType)| (p.0@, p.1))
}

/// Whether a vector operator initializes without error against a context.
pub open spec fn spec_vector_init_ok(op: VectorOperator, context: MockExecutionContext) -> bool
    decreases op,
{
    match op {
        VectorOperator::MockDataSetDataSource { params } => context.spec_has_meta_data(
            params.data_set,
        ),
        VectorOperator::RasterVectorJoin { params, vector_source, raster_sources } => {
            &&& spec_vector_init_ok(*vector_source, context)
            &&& 1 <= raster_sources@.len() <= 8
            &&& params.names@.len() == raster_sources@.len()
            &&& spec_vector_out_data_type(*vector_source) != VectorDataType::Data
        },
        VectorOperator::Reprojection { source, .. } => spec_vector_init_ok(*source, context),
    }
}

/// The geometry type of a vector operator's output.
pub open spec fn spec_vector_out_data_type(op: VectorOperator) -> VectorDataType
    decreases op,
{
    match op {
        VectorOperator::MockDataSetDataSource { .. } => VectorDataType::MultiPoint,
        VectorOperator::RasterVectorJoin { vector_source, .. } => spec_vector_out_data_type(
            *vector_source,
        ),
        VectorOperator::Reprojection { source, .. } => spec_vector_out_data_type(*source),
    }
}

/// The spatial reference of a vector operator's output.
pub open spec fn spec_vector_out_srs(op: VectorOperator) -> SpatialReferenceOption
    decreases op,
{
    match op {
        VectorOperator::MockDataSetDataSource { .. } => SpatialReferenceOption::Unreferenced,
        VectorOperator::RasterVectorJoin { vector_source, .. } => spec_vector_out_srs(
            *vector_source,
        ),
        VectorOperator::Reprojection { params, .. } => SpatialReferenceOption::SpatialReference(
            params.target_spatial_reference,
        ),
    }
}

/// The column type the join appends for one raster input: an integer
/// column under first-value aggregation of an integral raster, a float
/// column otherwise.
pub open spec fn spec_join_column_type(
    aggregation: AggregationMethod,
    raster_type: RasterDataType,
) -> FeatureDataType {
    if aggregation is First && raster_type.spec_is_integral() {
        FeatureDataType::Int
    } else {
        FeatureDataType::Float
    }
}

/// The column schema of a vector operator's output: the join appends one
/// column per raster input, everything else passes the schema through.
pub open spec fn spec_vector_out_columns(op: VectorOperator) -> Seq<(Seq<char>, FeatureDataType)>
    decreases op,
{
    match op {
        VectorOperator::MockDataSetDataSource { .. } => Seq::empty(),
        VectorOperator::RasterVectorJoin { params, vector_source, raster_sources } => {
            spec_vector_out_columns(*vector_source) + Seq::new(
                params.names@.len(),
                |k: int|
                    (
                        params.names@[k]@,
                        spec_join_column_type(
                            params.aggregation,
                            spec_raster_out_data_type(raster_sources@[k]),
                        ),
                    ),
            )
        },
        VectorOperator::Reprojection { source, .. } => spec_vector_out_columns(*source),
    }
}

/// The typed error a failing vector initialization reports: the first
/// check that fails, in the order the initialization performs them.
pub open spec fn spec_vector_init_error(op: VectorOperator, context: MockExecutionContext)
    -> EngineError
    decreases op,
{
    match op {
        VectorOperator::MockDataSetDataSource { .. } => EngineError::UnknownDatasetId,
        VectorOperator::RasterVectorJoin { params, vector_source, raster_sources } => {
            if !spec_vector_init_ok(*vector_source, context) {
                spec_vector_init_error(*vector_source, context)
            } else if !(1 <= raster_sources@.len() <= 8) {
                EngineError::InvalidNumberOfRasterInputs
            } else if params.names@.len() != raster_sources@.len() {
                EngineError::InvalidOperatorSpec
            } else {
                EngineError::InvalidType
            }
        },
        VectorOperator::Reprojection { source, .. } => spec_vector_init_error(*source, context),
    }
}

/// The stored descriptor of an initialized vector operator.
pub open spec fn spec_init_vector_descriptor(io: InitializedVectorOperator)
    -> VectorResultDescriptor {
    match io {
        InitializedVectorOperator::MockDataSetDataSource { result_descriptor, .. } => result_descriptor,
        InitializedVectorOperator::RasterVectorJoin { result_descriptor, .. } => result_descriptor,
        InitializedVectorOperator::Reprojection { result_descriptor, .. } => result_descriptor,
    }
}

/// Initializes a vector operator against a context: the one-shot state
/// transition from the declarative tree to the initialized tree.
///
/// Succeeds exactly when every mock source's dataset is known, the join
/// has one to eight raster inputs with as many output column names, and
/// the join's vector input carries geometries.
#[verifier::rlimit(100)]
#[verifier::spinoff_prover]
pub fn initialize_vector_operator(op: VectorOperator, context: &MockExecutionContext) -> (r:
    Result<InitializedVectorOperator, EngineError>)
    ensures
        r is Ok <==> spec_vector_init_ok(op, *context),
        r is Err ==> r == Result::<InitializedVectorOperator, EngineError>::Err(
            spec_vector_init_error(op, *context),
        ),
        r matches Ok(io) ==> {
            &&& spec_init_vector_descriptor(io).data_type == spec_vector_out_data_type(op)
            &&& spec_init_vector_descriptor(io).spatial_reference == spec_vector_out_srs(op)
            &&& spec_columns_view(spec_init_vector_descriptor(io).columns@)
                == spec_vector_out_columns(op)
        },
    decreases op,
{
    match op {
        VectorOperator::MockDataSetDataSource { params } => {
            let info = match context.meta_data(&params.data_set) {
                Ok(info) => info,
                Err(e) => {
                    return Err(e);
                },
            };
            let mut points: Vec<crate::primitives::Coordinate2D> = Vec::new();
            let mut i: usize = 0;
            while i < info.points.len()
                invariant
                    i <= info.points@.len(),
                    points@.len() == i,
                    forall|j: int| 0 <= j < i ==> points@[j] == info.points@[j],
                decreases info.points@.len() - i,
            {
                points.push(info.points[i]);
                i = i + 1;
            }
            let result_descriptor = info.result_descriptor();
            proof {
                assert(spec_columns_view(result_descriptor.columns@) =~= Seq::<
                    (Seq<char>, FeatureDataType),
                >::empty());
            }
            Ok(
                InitializedVectorOperator::MockDataSetDataSource {
                    params,
                    result_descriptor,
                    points,
                },
            )
        },
        VectorOperator::RasterVectorJoin { params, vector_source, raster_sources } => {
            let ghost op0 = VectorOperator::RasterVectorJoin {
                params: params,
                vector_source: vector_source,
                raster_sources: raster_sources,
            };
            let initialized_vector = match initialize_vector_operator(*vector_source, context) {
                Ok(io) => io,
                Err(e) => {
                    return Err(e);
                },
            };
            if raster_sources.len() < 1 || raster_sources.len() > 8 {
                return Err(EngineError::InvalidNumberOfRasterInputs);
            }
            if params.names.len() != raster_sources.len() {
                return Err(EngineError::InvalidOperatorSpec);
            }
            let source_descriptor = result_descriptor_of_vector(&initialized_vector);
            match source_descriptor.data_type {
                VectorDataType::Data => {
                    return Err(EngineError::InvalidType);
                },
                _ => {},
            }
            let mut initialized_rasters: Vec<InitializedRasterOperator> = Vec::new();
            let mut columns = source_descriptor.columns;
            let ghost base_cols = columns@;
            let n = raster_sources.len();
            let mut k: usize = 0;
            let mut sources_left = raster_sources;
            // consume the raster sources front to back
            while k < n
                invariant
                    k <= n,
                    n == raster_sources@.len(),
                    sources_left@ == raster_sources@.subrange(k as int, n as int),
                    initialized_rasters@.len() == k,
                    params.names@.len() == n,
                    columns@.len() == base_cols.len() + k,
                    forall|j: int| 0 <= j < base_cols.len() ==> columns@[j] == base_cols[j],
                    forall|j: int|
                        0 <= j < k ==> (#[trigger] columns@[base_cols.len() + j]).0@
                            == params.names@[j]@ && columns@[base_cols.len() + j].1
                            == spec_join_column_type(
                            params.aggregation,
                            spec_raster_out_data_type(raster_sources@[j]),
                        ),
                decreases n - k,
    {
                let raster_op = sources_left.remove(0);
                proof {
                    assert(raster_op == raster_sources@[k as int]);
                    assert(sources_left@ =~= raster_sources@.subrange(k + 1, n as int));
                }
                let initialized_raster = initialize_raster_operator(raster_op, context);
                let column_type = match params.aggregation {
                    AggregationMethod::First => {
                        let dt = result_descriptor_of_raster(&initialized_raster).data_type;
                        if dt.is_integral() {
                            FeatureDataType::Int
                        } else {
                            FeatureDataType::Float
                        }
                    },
                    AggregationMethod::Mean => FeatureDataType::Float,
                };
                let name = crate::collections::clone_string(&params.names[k]);
                columns.push((name, column_type));
                initialized_rasters.push(initialized_raster);
                k = k + 1;
            }
            let ghost cols_final = columns@;
            let result_descriptor = VectorResultDescriptor {
                data_type: source_descriptor.data_type,
                spatial_reference: source_descriptor.spatial_reference,
                columns,
            };
            proof {
                assert(result_descriptor.columns@ == cols_final);
                let vw = spec_columns_view(cols_final);
                let target = spec_vector_out_columns(op0);
                let base_view = spec_columns_view(base_cols);
                assert(base_view == spec_vector_out_columns(*op0->RasterVectorJoin_vector_source));
                assert(vw.len() == target.len());
                assert forall|j: int| 0 <= j < vw.len() implies vw[j] == target[j] by {
                    assert(vw[j] == (cols_final[j].0@, cols_final[j].1));
                    if j < base_cols.len() {
                        assert(cols_final[j] == base_cols[j]);
                        assert(base_view[j] == (base_cols[j].0@, base_cols[j].1));
                        assert(target[j] == base_view[j]);
                    } else {
                        let k = j - base_cols.len();
                        assert(cols_final[base_cols.len() + k].0@ == params.names@[k]@
                            && cols_final[base_cols.len() + k].1 == spec_join_column_type(
                            params.aggregation,
                            spec_raster_out_data_type(raster_sources@[k]),
                        ));
                        assert(target[j] == (
                            params.names@[k]@,
                            spec_join_column_type(
                                params.aggregation,
                                spec_raster_out_data_type(raster_sources@[k]),
                            ),
                        ));
                    }
                }
                assert(vw =~= target);
            }
            Ok(
                InitializedVectorOperator::RasterVectorJoin {
                    params,
                    result_descriptor,
                    vector_source: Box::new(initialized_vector),
                    raster_sources: initialized_rasters,
                },
            )
        },
        VectorOperator::Reprojection { params, source } => {
            let initialized = match initialize_vector_operator(*source, context) {
                Ok(io) => io,
                Err(e) => {
                    return Err(e);
                },
            };
            let source_descriptor = result_descriptor_of_vector(&initialized);
            let result_descriptor = VectorResultDescriptor {
                data_type: source_descriptor.data_type,
                spatial_reference: SpatialReferenceOption::SpatialReference(
                    params.target_spatial_reference,
                ),
                columns: source_descriptor.columns,
            };
            Ok(
                InitializedVectorOperator::Reprojection {
                    params,
                    result_descriptor,
                    source: Box::new(initialized),
                },
            )
        },
    }
}

/// The resolved descriptor of an initialized vector operator.
pub fn result_descriptor_of_vector(io: &InitializedVectorOperator) -> (r: VectorResultDescriptor)
    ensures
        r.data_type == spec_init_vector_descriptor(*io).data_type,
        r.spatial_reference == spec_init_vector_descriptor(*io).spatial_reference,
        spec_columns_view(r.columns@) == spec_columns_view(
            spec_init_vector_descriptor(*io).columns@,
        ),
{
    let d = match io {
        InitializedVectorOperator::MockDataSetDataSource { result_descriptor, .. } => result_descriptor,
        InitializedVectorOperator::RasterVectorJoin { result_descriptor, .. } => result_descriptor,
        InitializedVectorOperator::Reprojection { result_descriptor, .. } => result_descriptor,
    };
    let mut columns: Vec<(String, FeatureDataType)> = Vec::new();
    let mut j: usize = 0;
    while j < d.columns.len()
        invariant
            j <= d.columns@.len(),
            columns@.len() == j,
            forall|i: int|
                0 <= i < j ==> (#[trigger] columns@[i]).0@ == d.columns@[i].0@ && columns@[i].1
                    == d.columns@[i].1,
        decreases d.columns@.len() - j,
    {
        let name = crate::collections::clone_string(&d.columns[j].0);
        columns.push((name, d.columns[j].1));
        j = j + 1;
    }
    let r = VectorResultDescriptor {
        data_type: d.data_type,
        spatial_reference: d.spatial_reference,
        columns,
    };
    proof {
        assert(spec_columns_view(r.columns@) =~= spec_columns_view(d.columns@));
    }
    r
}

/// Whether a plot operator initializes without error: the histogram takes
/// exactly one input, and a vector input must name an existing numeric
/// column.
pub open spec fn spec_plot_init_ok(op: PlotOperator, context: MockExecutionContext) -> bool {
    match op {
        PlotOperator::Histogram { params, raster_sources, vector_sources } => {
            &&& raster_sources@.len() + vector_sources@.len() == 1
            &&& (forall|k: int|
                0 <= k < vector_sources@.len() ==> spec_vector_init_ok(
                    #[trigger] vector_sources@[k],
                    context,
                ))
            &&& (vector_sources@.len() == 1 ==> {
                &&& params.column_name is Some
                &&& exists|j: int|
                    0 <= j < spec_vector_out_columns(vector_sources@[0]).len() && (#[trigger]
                    spec_vector_out_columns(vector_sources@[0])[j]).0
                        == params.column_name->Some_0@
                &&& forall|j: int|
                    0 <= j < spec_vector_out_columns(vector_sources@[0]).len() && (#[trigger]
                    spec_vector_out_columns(vector_sources@[0])[j]).0
                        == params.column_name->Some_0@ ==> (spec_vector_out_columns(
                        vector_sources@[0],
                    )[j].1 == FeatureDataType::Int || spec_vector_out_columns(vector_sources@[0])[j].1
                        == FeatureDataType::Float)
            })
        },
    }
}

/// The typed error a failing histogram initialization reports: the first
/// check that fails, in the order the initialization performs them.
pub open spec fn spec_plot_init_error(op: PlotOperator, context: MockExecutionContext)
    -> EngineError {
    match op {
        PlotOperator::Histogram { params, raster_sources, vector_sources } => {
            if raster_sources@.len() + vector_sources@.len() != 1 {
                EngineError::InvalidNumberOfVectorInputs
            } else if exists|k: int|
                0 <= k < vector_sources@.len() && !spec_vector_init_ok(
                    #[trigger] vector_sources@[k],
                    context,
                ) {
                spec_vector_init_error(
                    vector_sources@[choose|k: int|
                        0 <= k < vector_sources@.len() && !spec_vector_init_ok(
                            #[trigger] vector_sources@[k],
                            context,
                        )],
                    context,
                )
            } else if vector_sources@.len() == 1 && params.column_name is None {
                EngineError::InvalidOperatorSpec
            } else if vector_sources@.len() == 1 && !(exists|j: int|
                0 <= j < spec_vector_out_columns(vector_sources@[0]).len() && (#[trigger]
                spec_vector_out_columns(vector_sources@[0])[j]).0 == params.column_name->Some_0@) {
                EngineError::ColumnDoesNotExist
            } else {
                EngineError::InvalidOperatorSpec
            }
        },
    }
}

/// Initializes the histogram operator: exactly one source, and for a vector
/// source a named numeric column to count.
#[verifier::rlimit(100)]
#[verifier::spinoff_prover]
pub fn initialize_plot_operator(op: PlotOperator, context: &MockExecutionContext) -> (r: Result<
    InitializedPlotOperator,
    EngineError,
>)
    ensures
        r is Ok <==> spec_plot_init_ok(op, *context),
        r is Err ==> r == Result::<InitializedPlotOperator, EngineError>::Err(
            spec_plot_init_error(op, *context),
        ),
{
    match op {
        PlotOperator::Histogram { params, raster_sources, vector_sources } => {
            if !((raster_sources.len() == 1 && vector_sources.len() == 0) || (raster_sources.len()
                == 0 && vector_sources.len() == 1)) {
                return Err(EngineError::InvalidNumberOfVectorInputs);
            }
            let mut initialized_vectors: Vec<InitializedVectorOperator> = Vec::new();
            let n = vector_sources.len();
            let mut sources_left = vector_sources;
            let mut k: usize = 0;
            while k < n
                invariant
                    k <= n,
                    n == vector_sources@.len(),
                    sources_left@ == vector_sources@.subrange(k as int, n as int),
                    initialized_vectors@.len() == k,
                    forall|j: int|
                        0 <= j < k ==> spec_vector_init_ok(#[trigger] vector_sources@[j], *context),
                    forall|j: int|
                        0 <= j < k ==> spec_columns_view(
                            spec_init_vector_descriptor(#[trigger] initialized_vectors@[j]).columns@,
                        ) == spec_vector_out_columns(vector_sources@[j]),
                decreases n - k,
            {
                let source = sources_left.remove(0);
                proof {
                    assert(source == vector_sources@[k as int]);
                    assert(sources_left@ =~= vector_sources@.subrange(k + 1, n as int));
                }
                match initialize_vector_operator(source, context) {
                    Ok(io) => {
                        initialized_vectors.push(io);
                    },
                    Err(e) => {
                        return Err(e);
                    },
                }
                k = k + 1;
            }
            if initialized_vectors.len() > 0 {
                let column_name = match &params.column_name {
                    Option::Some(name) => name,
                    Option::None => {
                        return Err(EngineError::InvalidOperatorSpec);
                    },
                };
                let descriptor = result_descriptor_of_vector(&initialized_vectors[0]);
                let mut found = false;
                let mut all_numeric = true;
                let mut j: usize = 0;
                while j < descriptor.columns.len()
                    invariant
                        j <= descriptor.columns@.len(),
                        found == exists|i: int|
                            0 <= i < j && (#[trigger] descriptor.columns@[i]).0@ == column_name@,
                        all_numeric == forall|i: int|
                            0 <= i < j && (#[trigger] descriptor.columns@[i]).0@ == column_name@
                                ==> (descriptor.columns@[i].1 == FeatureDataType::Int
                                || descriptor.columns@[i].1 == FeatureDataType::Float),
                    decreases descriptor.columns@.len() - j,
                {
                    if descriptor.columns[j].0.eq(column_name) {
                        found = true;
                        match descriptor.columns[j].1 {
                            FeatureDataType::Int | FeatureDataType::Float => {},
                            _ => {
                                all_numeric = false;
                            },
                        }
                    }
                    j = j + 1;
                }
                proof {
                    lemma_column_view_lookup(
                        descriptor.columns@,
                        spec_vector_out_columns(vector_sources@[0]),
                        params.column_name->Some_0@,
                    );
                }
                if !found {
                    return Err(EngineError::ColumnDoesNotExist);
                }
                if !all_numeric {
                    return Err(EngineError::InvalidOperatorSpec);
                }
            }
            let mut initialized_rasters: Vec<InitializedRasterOperator> = Vec::new();
            let rn = raster_sources.len();
            let mut rasters_left = raster_sources;
            let mut rk: usize = 0;
            while rk < rn
                invariant
                    rk <= rn,
                    rn == raster_sources@.len(),
                    rasters_left@ == raster_sources@.subrange(rk as int, rn as int),
                    initialized_rasters@.len() == rk,
                decreases rn - rk,
            {
                let source = rasters_left.remove(0);
                proof {
                    assert(rasters_left@ =~= raster_sources@.subrange(rk + 1, rn as int));
                }
                initialized_rasters.push(initialize_raster_operator(source, context));
                rk = rk + 1;
            }
            Ok(
                InitializedPlotOperator::Histogram {
                    params,
                    result_descriptor: PlotResultDescriptor {  },
                    raster_sources: initialized_rasters,
                    vector_sources: initialized_vectors,
                },
            )
        },
    }
}

/// Looking a name up in a column schema and in its view find the same
/// entries.
pub proof fn lemma_column_view_lookup(
    cols: Seq<(String, FeatureDataType)>,
    view: Seq<(Seq<char>, FeatureDataType)>,
    name: Seq<char>,
)
    requires
        spec_columns_view(cols) == view,
    ensures
        (exists|j: int| 0 <= j < cols.len() && (#[trigger] cols[j]).0@ == name) <==> (exists|j: int|
            0 <= j < view.len() && (#[trigger] view[j]).0 == name),
        forall|j: int|
            0 <= j < cols.len() ==> ((#[trigger] cols[j]).0@ == name <==> view[j].0 == name)
                && cols[j].1 == view[j].1,
{
    assert(view.len() == cols.len());
    assert(forall|j: int| 0 <= j < cols.len() ==> (#[trigger] view[j]) == (cols[j].0@, cols[j].1));
    if exists|j: int| 0 <= j < cols.len() && (#[trigger] cols[j]).0@ == name {
        let j = choose|j: int| 0 <= j < cols.len() && (#[trigger] cols[j]).0@ == name;
        assert(view[j].0 == name);
    }
    if exists|j: int| 0 <= j < view.len() && (#[trigger] view[j]).0 == name {
        let j = choose|j: int| 0 <= j < view.len() && (#[trigger] view[j]).0 == name;
        assert(cols[j].0@ == name);
    }
}

} // verus!
