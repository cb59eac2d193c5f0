//! Deletion vectors for Delta tables: the file format, the rows that a delete marks in them,
//! and the decisions that a delete takes on the way from a predicate to a commit.

pub mod delete;
pub mod deletion_vectors;
pub mod errors;
pub mod external;
pub mod file_source;
pub mod format;
pub mod kernel;
pub mod laws;
pub mod name_map;
