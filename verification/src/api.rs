//! The values that cross the HTTP surface: requests and the inventory reply.

use vstd::prelude::*;

verus! {

/// One snapshot of the inventory, parted into pool, dataset and tag.
#[derive(Debug, PartialEq, Eq)]
pub struct Dataset {
    /// The pool: what stands before the first `/` of the snapshot's name.
    pub pool: String,
    /// The dataset: what stands between that `/` and the `@`.
    pub dataset: String,
    /// The tag: what stands after the `@`.
    pub snapshot: String,
}

/// What an inventory `Dataset` holds, as plain text.
pub struct DatasetView {
    pub pool: Seq<char>,
    pub dataset: Seq<char>,
    pub snapshot: Seq<char>,
}

impl View for Dataset {
    type V = DatasetView;

    open spec fn view(&self) -> DatasetView {
        DatasetView { pool: self.pool@, dataset: self.dataset@, snapshot: self.snapshot@ }
    }
}

impl Clone for Dataset {
    fn clone(&self) -> (out: Self)
        ensures
            out == *self,
    {
        Dataset {
            pool: self.pool.clone(),
            dataset: self.dataset.clone(),
            snapshot: self.snapshot.clone(),
        }
    }
}

/// The snapshots that one server holds.
#[derive(Debug, PartialEq, Eq)]
pub struct Datasets {
    /// The address of the server.
    pub server: String,
    /// Its snapshots, in the order in which the server listed them.
    pub datasets: Vec<Dataset>,
}

/// What a `Datasets` holds, as plain text.
pub struct DatasetsView {
    pub server: Seq<char>,
    pub datasets: Seq<DatasetView>,
}

impl View for Datasets {
    type V = DatasetsView;

    open spec fn view(&self) -> DatasetsView {
        DatasetsView {
            server: self.server@,
            datasets: self.datasets@.map_values(|d: Dataset| d@),
        }
    }
}

/// The body of a request to make `new_server` the owner of `dataset`.
#[derive(Debug, PartialEq, Eq)]
pub struct SwitchRequest {
    pub dataset: String,
    pub new_server: String,
}

/// The body of a request to replicate the datasets named.
#[derive(Debug, PartialEq, Eq)]
pub struct SyncRequest {
    pub datasets: Vec<String>,
}

} // verus!
