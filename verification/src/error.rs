use vstd::prelude::*;

verus! {

/// The errors of the library's own logic. Errors of I/O, of the node's
/// client and of CSV writing arise in the application around it.
#[derive(Debug)]
pub enum Error {
    DataSource(String),
    Storage(String),
    Config(String),
    Calculation(String),
    External(String),
}

impl Error {
    pub fn data_source(msg: String) -> (r: Self)
        ensures
            r == Error::DataSource(msg),
    {
        Error::DataSource(msg)
    }

    pub fn storage(msg: String) -> (r: Self)
        ensures
            r == Error::Storage(msg),
    {
        Error::Storage(msg)
    }

    pub fn calculation(msg: String) -> (r: Self)
        ensures
            r == Error::Calculation(msg),
    {
        Error::Calculation(msg)
    }
}

} // verus!
