pub mod csv;

pub use csv::{CSVStorage, StorageFile};
