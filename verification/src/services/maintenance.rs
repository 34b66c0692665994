use vstd::prelude::*;
use crate::infrastructure::storage::CSVStorage;

verus! {

/// The days after which CSV files are removed by the cleanup.
pub const RETENTION_DAYS: i64 = 7i64;

/// Runs the periodic cleanup of the storage.
pub struct MaintenanceService {
    storage: std::sync::Arc<CSVStorage>,
}

impl MaintenanceService {
    pub fn new(storage: std::sync::Arc<CSVStorage>) -> (r: Self)
        ensures
            r.storage() == storage,
    {
        Self { storage }
    }

    pub closed spec fn storage(&self) -> std::sync::Arc<CSVStorage> {
        self.storage
    }

    pub fn storage_ref(&self) -> (r: &std::sync::Arc<CSVStorage>)
        ensures
            *r == self.storage(),
    {
        &self.storage
    }
}

} // verus!
