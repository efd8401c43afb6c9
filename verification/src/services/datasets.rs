//! Dataset catalogs: the in-memory store used by tests and in-process
//! pipelines, and the marker for the relational backend.

use vstd::prelude::*;
use crate::dataset::DatasetId;

verus! {

/// A stored dataset: its identifier, name, and description.
#[derive(Clone, Debug)]
pub struct Dataset {
    pub id: DatasetId,
    pub name: String,
    pub description: String,
}

/// An in-memory dataset catalog.
pub struct HashMapDatasetDb {
    pub datasets: Vec<Dataset>,
}

impl HashMapDatasetDb {
    /// An empty catalog.
    pub fn new() -> (r: HashMapDatasetDb)
        ensures
            r.datasets@.len() == 0,
    {
        HashMapDatasetDb { datasets: Vec::new() }
    }

    /// Whether the catalog holds a dataset under the identifier.
    pub open spec fn spec_has_dataset(self, id: DatasetId) -> bool {
        exists|j: int| 0 <= j < self.datasets@.len() && (#[trigger] self.datasets@[j]).id == id
    }

    /// Stores a dataset.
    pub fn add_dataset(&mut self, dataset: Dataset)
        ensures
            final(self).datasets@.len() == old(self).datasets@.len() + 1,
            final(self).datasets@[old(self).datasets@.len() as int].id == dataset.id,
            forall|j: int|
                0 <= j < old(self).datasets@.len() ==> final(self).datasets@[j] == old(
                    self,
                ).datasets@[j],
    {
        self.datasets.push(dataset);
    }

    /// Loads a dataset by its identifier; fails exactly when the catalog
    /// has none under it.
    pub fn load(&self, id: &DatasetId) -> (r: Option<&Dataset>)
        ensures
            r is Some <==> self.spec_has_dataset(*id),
            r matches Some(d) ==> exists|j: int|
                0 <= j < self.datasets@.len() && (#[trigger] self.datasets@[j]).id == id && d.id
                    == id,
    {
        let mut j: usize = 0;
        while j < self.datasets.len()
            invariant
                j <= self.datasets@.len(),
                forall|i: int| 0 <= i < j ==> (#[trigger] self.datasets@[i]).id != id,
            decreases self.datasets@.len() - j,
        {
            if self.datasets[j].id == *id {
                return Some(&self.datasets[j]);
            }
            j = j + 1;
        }
        None
    }
}

/// The marker for a dataset catalog backed by a relational database; its
/// operations perform I/O and live outside the verified core.
#[derive(Clone, Copy, Debug)]
pub struct PostgresDataSetDB {
}

} // verus!
