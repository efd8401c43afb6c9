//! Identifiers for loadable data: internal datasets and the layers of
//! external data providers.

use vstd::prelude::*;

verus! {

/// The identifier of a data provider.
#[derive(Clone, Copy, Debug, PartialEq, Eq, Structural, Hash)]
pub struct DataProviderId {
    pub id: u128,
}

/// The identifier of a dataset managed by the engine itself.
#[derive(Clone, Copy, Debug, PartialEq, Eq, Structural, Hash)]
pub struct DatasetId {
    pub id: u128,
}

/// The identifier of a layer within an external provider.
#[derive(Clone, Debug, Hash)]
pub struct LayerId {
    pub id: String,
}

/// The identifier of externally provided data: a provider and a layer.
#[derive(Clone, Debug, Hash)]
pub struct ExternalDataId {
    pub provider_id: DataProviderId,
    pub layer_id: LayerId,
}

/// The identifier of loadable data: internal data is loaded from datasets,
/// external data through a provider.
#[derive(Clone, Debug, Hash)]
pub enum DataId {
    Internal { dataset_id: DatasetId },
    External(ExternalDataId),
}

impl DataId {
    /// The dataset identifier, for internal data.
    pub fn internal(&self) -> (r: Option<DatasetId>)
        ensures
            r is Some <==> self is Internal,
            r matches Some(d) ==> self matches DataId::Internal { dataset_id } && dataset_id == d,
    {
        if let DataId::Internal { dataset_id: dataset } = self {
            return Some(*dataset);
        }
        None
    }

    /// The external identifier, for externally provided data.
    pub fn external(&self) -> (r: Option<ExternalDataId>)
        ensures
            r is Some <==> self is External,
            r matches Some(e) ==> self matches DataId::External(id) && id.provider_id
                == e.provider_id && id.layer_id.id@ == e.layer_id.id@,
    {
        if let DataId::External(id) = self {
            return Some(
                ExternalDataId {
                    provider_id: id.provider_id,
                    layer_id: LayerId { id: crate::collections::clone_string(&id.layer_id.id) },
                },
            );
        }
        None
    }
}

} // verus!
