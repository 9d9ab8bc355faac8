//! The shared store: named read-only datasets available to every
//! simulation of the experiment.

use vstd::prelude::*;

use crate::metaversion::Metaversion;

verus! {

/// One shared dataset, already fetched and loaded into a shared batch.
#[derive(Debug, PartialEq, Eq)]
pub struct Dataset {
    pub shortname: String,
    pub batch_id: String,
    pub metaversion: Metaversion,
}

/// The named map of shared datasets. A later dataset under an
/// already-used shortname shadows the earlier one.
#[derive(Debug, PartialEq, Eq)]
pub struct SharedStore {
    pub datasets: Vec<Dataset>,
}

/// The position of the dataset a shortname resolves to: the last one
/// declared under it.
pub open spec fn resolves_at(ds: Seq<Dataset>, name: Seq<char>, i: int) -> bool {
    &&& 0 <= i < ds.len()
    &&& ds[i].shortname@ == name
    &&& forall|j: int| i < j < ds.len() ==> (#[trigger] ds[j].shortname@) != name
}

impl SharedStore {
    /// Build the shared store from the experiment's datasets, in their
    /// declaration order.
    pub fn new(datasets: Vec<Dataset>) -> (r: Result<SharedStore, crate::error::Error>)
        ensures
            r is Ok,
            r matches Ok(s) ==> s.datasets == datasets,
    {
        Ok(SharedStore { datasets })
    }

    pub fn len(&self) -> (r: usize)
        ensures
            r == self.datasets@.len(),
    {
        self.datasets.len()
    }

    /// The dataset a shortname resolves to, if any: the last one declared
    /// under that name.
    pub fn get(&self, name: &str) -> (r: Option<&Dataset>)
        ensures
            r is Some <==> exists|i: int|
                0 <= i < self.datasets@.len() && (#[trigger] self.datasets@[i].shortname@)
                    == name@,
            r matches Some(d) ==> exists|i: int|
                resolves_at(self.datasets@, name@, i) && *d == self.datasets@[i],
    {
        let n = self.datasets.len();
        let mut i: usize = n;
        while i > 0
            invariant
                0 <= i <= self.datasets@.len(),
                forall|j: int|
                    i <= j < self.datasets@.len() ==> (#[trigger] self.datasets@[j].shortname@)
                        != name@,
            decreases i,
        {
            i = i - 1;
            if crate::field::name_eq(self.datasets[i].shortname.as_str(), name) {
                proof {
                    assert(resolves_at(self.datasets@, name@, i as int));
                }
                return Some(&self.datasets[i]);
            }
        }
        None
    }
}

} // verus!
