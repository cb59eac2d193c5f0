//! The errors of the library.

use vstd::prelude::*;

verus! {

/// Why an operation on a table failed.
#[derive(Debug)]
pub enum DeltaTableError {
    /// The table was loaded without its files, which the named operation needs.
    NotInitializedWithFiles(String),
    /// A deletion vector could not be written or read.
    Io(std::io::Error),
    /// Any other failure, in words.
    Generic(String),
}

/// Why a batch of rows cannot be used, in words.
#[derive(Debug)]
pub struct SchemaError(pub String);

/// Why the place of a deletion vector cannot be told.
#[derive(Debug)]
pub enum LocationError {
    /// The path of its file is no path of an object store.
    Path(object_store::path::Error),
    /// It is inline, and no Z85 text.
    Inline(z85::DecodeError),
}

/// The result of an operation on a table.
pub type DeltaResult<T> = Result<T, DeltaTableError>;

} // verus!
