//! Reading data files together with their deletion vectors.
//!
//! The rows of a data file come with a column that tells of each row whether it is deleted. The
//! data file does not have that column: it is made of the column with the row numbers and of the
//! deletion vector.

use roaring::RoaringTreemap;
use vstd::prelude::*;

use crate::deletion_vectors::reads_as;
use crate::errors::{LocationError, SchemaError};
use crate::external::{object_path, parse_object_path, treemap_rows, z85_decode, z85_decoded};
use crate::kernel::DeletionVectorDescriptor;

verus! {

/// The columns that are asked for: all of them where nothing is said.
pub open spec fn columns_asked_for(projection: Option<Seq<usize>>, num_columns: nat) -> Seq<usize> {
    match projection {
        Some(columns) => columns,
        None => Seq::new(num_columns, |i: int| i as usize),
    }
}

/// The columns that are read from a data file: those that are asked for, in the same order,
/// without the one that tells whether a row is deleted.
pub fn columns_of_data_file(
    projection: Option<&Vec<usize>>,
    num_columns: usize,
    is_deleted_column: usize,
) -> (columns: Vec<usize>)
    ensures
        columns@ == columns_asked_for(
            match projection {
                Some(projection) => Some(projection@),
                None => None,
            },
            num_columns as nat,
        ).filter(|column: usize| column != is_deleted_column),
{
    let ghost asked = columns_asked_for(
        match projection {
            Some(projection) => Some(projection@),
            None => None,
        },
        num_columns as nat,
    );
    let ghost keeps = |column: usize| column != is_deleted_column;
    let mut columns: Vec<usize> = Vec::new();
    let len: usize = match projection {
        Some(projection) => projection.len(),
        None => num_columns,
    };
    assert(asked.take(0).filter(keeps) =~= Seq::empty()) by {
        reveal(Seq::filter);
    }
    for i in 0..len
        invariant
            len == asked.len(),
            keeps == (|column: usize| column != is_deleted_column),
            match projection {
                Some(projection) => asked == projection@,
                None => asked == Seq::new(num_columns as nat, |i: int| i as usize),
            },
            columns@ == asked.take(i as int).filter(keeps),
    {
        let column: usize = match projection {
            Some(projection) => projection[i],
            None => i,
        };
        proof {
            assert(asked.take(i + 1).drop_last() =~= asked.take(i as int));
            reveal(Seq::filter);
        }
        if column != is_deleted_column {
            columns.push(column);
        }
    }
    assert(asked.take(len as int) =~= asked);
    columns
}

/// What is told of a row: whether it is deleted, and nothing where its number is missing.
pub open spec fn row_flag(deleted: Set<u64>, row_number: Option<u64>) -> Option<bool> {
    match row_number {
        Some(row_number) => Some(deleted.contains(row_number)),
        None => None,
    }
}

/// The column that tells of each row of a batch whether it is deleted. Without a deletion vector
/// no row is. With one, the batch must have the column with the row numbers; `column` says which
/// one that is.
pub fn deleted_flags(
    deletion_vector: Option<&RoaringTreemap>,
    row_numbers: Option<&Vec<Option<u64>>>,
    num_rows: usize,
    column: &str,
) -> (flags: Result<Vec<Option<bool>>, SchemaError>)
    ensures
        match (deletion_vector, row_numbers) {
            (None, _) => flags matches Ok(flags) && flags@ == Seq::new(
                num_rows as nat,
                |i: int| Some(false),
            ),
            (Some(deletion_vector), Some(row_numbers)) => flags matches Ok(flags) && flags@
                == row_numbers@.map_values(
                |row_number: Option<u64>| row_flag(treemap_rows(*deletion_vector), row_number),
            ),
            (Some(_), None) => flags matches Err(SchemaError(message)) && message@
                == "Row number column '"@ + column@ + "' with type Uint64 not found in batch"@,
        },
{
    let mut flags: Vec<Option<bool>> = Vec::new();
    match deletion_vector {
        Some(deletion_vector) => {
            let row_numbers = match row_numbers {
                Some(row_numbers) => row_numbers,
                None => {
                    let mut message: String = "Row number column '".to_owned();
                    message.append(column);
                    message.append("' with type Uint64 not found in batch");
                    return Err(SchemaError(message));
                },
            };
            for i in 0..row_numbers.len()
                invariant
                    flags@.len() == i,
                    forall|j: int|
                        0 <= j < i ==> #[trigger] flags@[j] == row_flag(
                            treemap_rows(*deletion_vector),
                            row_numbers@[j],
                        ),
            {
                match row_numbers[i] {
                    Some(row_number) => flags.push(Some(deletion_vector.contains(row_number))),
                    None => flags.push(None),
                }
            }
        },
        None => {
            for i in 0..num_rows
                invariant
                    flags@.len() == i,
                    forall|j: int| 0 <= j < i ==> #[trigger] flags@[j] == Some(false),
            {
                flags.push(Some(false));
            }
        },
    }
    Ok(flags)
}

/// Where a file holds a set of rows for a descriptor, the rows that are told to be deleted are
/// those: whatever is read for the descriptor says the same of every row.
pub proof fn lemma_written_rows_are_flagged(
    bytes: Seq<u8>,
    descriptor: DeletionVectorDescriptor,
    written: Set<u64>,
    read: Set<u64>,
    row_number: Option<u64>,
)
    requires
        reads_as(bytes, descriptor, written),
        reads_as(bytes, descriptor, read),
    ensures
        row_flag(read, row_number) == row_flag(written, row_number),
{
}

/// Where the bytes of a deletion vector are.
#[derive(Debug, PartialEq, Eq)]
pub enum DeletionVectorLocation {
    /// In the object of this path
    Object(String),
    /// These are the bytes
    Inline(Vec<u8>),
}

/// Finds the bytes of a deletion vector: in the object of its path, where it has one, and
/// otherwise in the descriptor itself, as Z85 text.
pub fn locate_deletion_vector(absolute_path: Option<&str>, path_or_inline_dv: &str) -> (location:
    Result<DeletionVectorLocation, LocationError>)
    ensures
        match absolute_path {
            Some(absolute_path) => match object_path(absolute_path@) {
                Some(path) => location matches Ok(DeletionVectorLocation::Object(found)) && found@
                    == path,
                None => location matches Err(LocationError::Path(_)),
            },
            None => match z85_decoded(path_or_inline_dv@) {
                Some(bytes) => location matches Ok(DeletionVectorLocation::Inline(found)) && found@
                    == bytes,
                None => location matches Err(LocationError::Inline(_)),
            },
        },
{
    match absolute_path {
        Some(absolute_path) => match parse_object_path(absolute_path) {
            Ok(path) => Ok(DeletionVectorLocation::Object(path)),
            Err(err) => Err(LocationError::Path(err)),
        },
        None => match z85_decode(path_or_inline_dv) {
            Ok(bytes) => Ok(DeletionVectorLocation::Inline(bytes)),
            Err(err) => Err(LocationError::Inline(err)),
        },
    }
}

} // verus!
