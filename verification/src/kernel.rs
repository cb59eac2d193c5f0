//! The actions of the transaction log that a delete reads and writes.

use vstd::prelude::*;

verus! {

/// Where a deletion vector is stored.
#[derive(Clone, Copy, Debug, PartialEq, Eq, Structural)]
pub enum StorageType {
    /// In a file of the table that a UUID names.
    UuidRelativePath,
    /// In the log itself.
    Inline,
    /// In a file that an absolute path names.
    AbsolutePath,
}

impl Default for StorageType {
    fn default() -> (storage_type: Self)
        ensures
            storage_type == StorageType::UuidRelativePath,
    {
        StorageType::UuidRelativePath
    }
}

/// Where the deletion vector of a data file is found.
#[derive(Debug, PartialEq, Eq)]
pub struct DeletionVectorDescriptor {
    /// How `path_or_inline_dv` is to be read
    pub storage_type: StorageType,
    /// The name of the file that holds the vector, or the vector itself
    pub path_or_inline_dv: String,
    /// Where in that file the vector starts
    pub offset: Option<i32>,
    /// Size of the serialized vector and of the magic number in front of it
    pub size_in_bytes: i32,
    /// Number of rows that the vector removes
    pub cardinality: i64,
}

impl Clone for DeletionVectorDescriptor {
    fn clone(&self) -> (copy: Self)
        ensures
            copy == *self,
    {
        DeletionVectorDescriptor {
            storage_type: self.storage_type,
            path_or_inline_dv: self.path_or_inline_dv.clone(),
            offset: self.offset,
            size_in_bytes: self.size_in_bytes,
            cardinality: self.cardinality,
        }
    }
}

/// A data file of the table.
#[derive(Debug, PartialEq, Eq)]
pub struct Add {
    /// Path of the file below the root of the table
    pub path: String,
    /// The partition that the file belongs to
    pub partition_values: Vec<(String, Option<String>)>,
    /// Size of the file in bytes
    pub size: i64,
    /// When the file was made, in milliseconds since the epoch
    pub modification_time: i64,
    /// Whether the file changes the data of the table
    pub data_change: bool,
    /// Statistics on the columns of the file
    pub stats: Option<String>,
    /// Metadata on the file
    pub tags: Option<Vec<(String, Option<String>)>>,
    /// The rows of the file that are gone
    pub deletion_vector: Option<DeletionVectorDescriptor>,
    /// Row id of the first row
    pub base_row_id: Option<i64>,
    /// First version of the log that held the path
    pub default_row_commit_version: Option<i64>,
    /// What clustered the file
    pub clustering_provider: Option<String>,
}

/// A data file that is no longer part of the table.
#[derive(Debug, PartialEq, Eq)]
pub struct Remove {
    /// Path of the file below the root of the table
    pub path: String,
    /// Whether the removal changes the data of the table
    pub data_change: bool,
    /// When the file was removed, in milliseconds since the epoch
    pub deletion_timestamp: Option<i64>,
    /// Whether partition values, size and tags are given
    pub extended_file_metadata: Option<bool>,
    /// The partition that the file belonged to
    pub partition_values: Option<Vec<(String, Option<String>)>>,
    /// Size of the file in bytes
    pub size: Option<i64>,
    /// Metadata on the file
    pub tags: Option<Vec<(String, Option<String>)>>,
    /// The rows of the file that were gone already
    pub deletion_vector: Option<DeletionVectorDescriptor>,
    /// Row id of the first row
    pub base_row_id: Option<i64>,
    /// First version of the log that held the path
    pub default_row_commit_version: Option<i64>,
}

/// A file with changes of the table's rows.
#[derive(Debug, PartialEq, Eq)]
pub struct AddCDCFile {
    /// Path of the file below the root of the table
    pub path: String,
    /// Size of the file in bytes
    pub size: i64,
    /// The partition that the file belongs to
    pub partition_values: Vec<(String, Option<String>)>,
    /// Whether the file changes the data of the table
    pub data_change: bool,
    /// Metadata on the file
    pub tags: Option<Vec<(String, Option<String>)>>,
}

/// An entry of the transaction log.
#[derive(Debug, PartialEq, Eq)]
pub enum Action {
    /// A data file is added.
    Add(Add),
    /// A data file is removed.
    Remove(Remove),
    /// A file with changes is added.
    Cdc(AddCDCFile),
}

} // verus!
