//! The execution context: what operators may use while they initialize — a
//! tiling specification shared by every raster operator, and per-dataset
//! metadata.

use vstd::prelude::*;
use crate::dataset::DatasetId;
use crate::engine::result_descriptor::{VectorDataType, VectorResultDescriptor};
use crate::primitives::Coordinate2D;
use crate::spatial_reference::SpatialReferenceOption;
use crate::tiling::TilingSpecification;

verus! {

/// Errors of the execution context and of operator initialization.
#[derive(Clone, Copy, Debug, PartialEq, Eq, Structural)]
pub enum EngineError {
    /// No metadata is registered for the dataset.
    UnknownDatasetId,
    /// The registered metadata is of another kind than asked for.
    DatasetLoadingInfoProviderMismatch,
    /// An operator of another variant was asked for.
    InvalidOperatorType,
    /// An operator got the wrong number of vector inputs.
    InvalidNumberOfVectorInputs,
    /// An operator got the wrong number of raster inputs.
    InvalidNumberOfRasterInputs,
    /// An operator's parameters are inconsistent.
    InvalidOperatorSpec,
    /// A named column does not exist in the input schema.
    ColumnDoesNotExist,
    /// A column or input has a type the operator cannot take.
    InvalidType,
    /// A pre-load hook reported failure.
    PreLoadHookFailed,
}

/// Per-dataset metadata: how to load the data, and the output schema of a
/// source reading it. The hook, if any, runs before loading.
pub trait MetaData<L, R>: Sized {
    /// The loading information for one query.
    fn loading_info(&self) -> (r: Result<&L, EngineError>);

    /// The static schema of the data.
    fn result_descriptor(&self) -> (r: Result<&R, EngineError>);
}

/// A hook run before a dataset is loaded.
pub trait PreLoadHook: Sized {
    /// Runs the hook.
    fn execute(&self) -> (r: Result<(), EngineError>);
}

/// Static metadata: loading information and descriptor known up front.
#[derive(Clone, Debug)]
pub struct StaticMetaData<L, R> {
    pub loading_info: L,
    pub result_descriptor: R,
}

impl<L, R> MetaData<L, R> for StaticMetaData<L, R> {
    fn loading_info(&self) -> (r: Result<&L, EngineError>)
        ensures
            r matches Ok(l) ==> l == &self.loading_info,
            r is Ok,
    {
        Ok(&self.loading_info)
    }

    fn result_descriptor(&self) -> (r: Result<&R, EngineError>)
        ensures
            r matches Ok(d) ==> d == &self.result_descriptor,
            r is Ok,
    {
        Ok(&self.result_descriptor)
    }
}

/// Static metadata with a pre-load hook.
#[derive(Clone, Debug)]
pub struct StaticMetaDataWithHook<L, R, H> {
    pub loading_info: L,
    pub result_descriptor: R,
    pub pre_load_hook: H,
}

impl<L, R, H> MetaData<L, R> for StaticMetaDataWithHook<L, R, H> {
    fn loading_info(&self) -> (r: Result<&L, EngineError>)
        ensures
            r matches Ok(l) ==> l == &self.loading_info,
            r is Ok,
    {
        Ok(&self.loading_info)
    }

    fn result_descriptor(&self) -> (r: Result<&R, EngineError>)
        ensures
            r matches Ok(d) ==> d == &self.result_descriptor,
            r is Ok,
    {
        Ok(&self.result_descriptor)
    }
}

/// The loading information of the mock point dataset source: the points it
/// serves.
#[derive(Clone, Debug)]
pub struct MockDataSetDataSourceLoadingInfo {
    pub points: Vec<Coordinate2D>,
}

impl MockDataSetDataSourceLoadingInfo {
    /// The schema this mock data satisfies: multi-points, unreferenced, no
    /// attribute columns.
    pub fn result_descriptor(&self) -> (r: VectorResultDescriptor)
        ensures
            r.data_type == VectorDataType::MultiPoint,
            r.spatial_reference == SpatialReferenceOption::Unreferenced,
            r.columns@.len() == 0,
    {
        VectorResultDescriptor {
            data_type: VectorDataType::MultiPoint,
            spatial_reference: SpatialReferenceOption::Unreferenced,
            columns: Vec::new(),
        }
    }
}

/// An execution context for tests and for in-process pipelines: a tiling
/// specification, and mock metadata per dataset.
pub struct MockExecutionContext {
    pub tiling_specification: TilingSpecification,
    pub meta_data: Vec<(DatasetId, MockDataSetDataSourceLoadingInfo)>,
}

impl MockExecutionContext {
    /// Whether metadata is registered for the dataset.
    pub open spec fn spec_has_meta_data(self, dataset: DatasetId) -> bool {
        exists|j: int| 0 <= j < self.meta_data@.len() && (#[trigger] self.meta_data@[j]).0 == dataset
    }

    /// Builds a context with the tiling specification and no metadata.
    pub fn new(tiling_specification: TilingSpecification) -> (r: MockExecutionContext)
        ensures
            r.tiling_specification == tiling_specification,
            r.meta_data@.len() == 0,
    {
        MockExecutionContext { tiling_specification, meta_data: Vec::new() }
    }

    pub fn tiling_specification(&self) -> (r: TilingSpecification)
        ensures
            r == self.tiling_specification,
    {
        self.tiling_specification
    }

    /// Registers metadata for a dataset.
    pub fn add_meta_data(&mut self, dataset: DatasetId, meta_data: MockDataSetDataSourceLoadingInfo)
        ensures
            final(self).tiling_specification == old(self).tiling_specification,
            final(self).meta_data@ == old(self).meta_data@.push((dataset, meta_data)),
            final(self).spec_has_meta_data(dataset),
    {
        self.meta_data.push((dataset, meta_data));
        proof {
            assert(self.meta_data@[self.meta_data@.len() - 1].0 == dataset);
        }
    }

    /// The metadata of a dataset; fails exactly when none is registered,
    /// with the unknown-dataset error. The store is monomorphic (it holds
    /// one kind of loading information), so the provider-kind mismatch of a
    /// heterogeneous catalog cannot arise here.
    pub fn meta_data(&self, dataset: &DatasetId) -> (r: Result<
        &MockDataSetDataSourceLoadingInfo,
        EngineError,
    >)
        ensures
            r is Ok <==> self.spec_has_meta_data(*dataset),
            r is Err ==> r == Result::<&MockDataSetDataSourceLoadingInfo, EngineError>::Err(
                EngineError::UnknownDatasetId,
            ),
            r matches Ok(m) ==> exists|j: int|
                0 <= j < self.meta_data@.len() && (#[trigger] self.meta_data@[j]).0 == dataset
                    && m.points@ == self.meta_data@[j].1.points@,
    {
        let mut j: usize = 0;
        while j < self.meta_data.len()
            invariant
                j <= self.meta_data@.len(),
                forall|i: int| 0 <= i < j ==> (#[trigger] self.meta_data@[i]).0 != dataset,
            decreases self.meta_data@.len() - j,
    {
            if self.meta_data[j].0 == *dataset {
                return Ok(&self.meta_data[j].1);
            }
            j = j + 1;
        }
        Err(EngineError::UnknownDatasetId)
    }
}

} // verus!
