//! Laws of reading data files with their deletion vectors.

use roaring::RoaringTreemap;
use vstd::prelude::*;

use crate::errors::{LocationError, SchemaError};
use crate::external::{object_path, treemap_rows, z85_decoded};
use crate::file_source::{
    columns_of_data_file, deleted_flags, locate_deletion_vector, DeletionVectorLocation,
};

verus! {

/// Every row is told to be deleted just where its number is in the deletion vector, the first row
/// of a file like any other. There is one flag for each row, in the order of the rows, and it is
/// missing just where the number is.
pub proof fn law_flag_is_membership(
    deletion_vector: &RoaringTreemap,
    row_numbers: &Vec<Option<u64>>,
    num_rows: usize,
    column: &str,
    flags: Result<Vec<Option<bool>>, SchemaError>,
    i: int,
)
    requires
        call_ensures(
            deleted_flags,
            (Some(deletion_vector), Some(row_numbers), num_rows, column),
            flags,
        ),
        0 <= i < row_numbers@.len(),
    ensures
        flags matches Ok(flags) && {
            &&& flags@.len() == row_numbers@.len()
            &&& flags@[i] is None <==> row_numbers@[i] is None
            &&& row_numbers@[i] matches Some(row) ==> (flags@[i] == Some(true) <==> treemap_rows(
                *deletion_vector,
            ).contains(row))
            &&& row_numbers@[i] matches Some(row) ==> (flags@[i] == Some(false) <==> !treemap_rows(
                *deletion_vector,
            ).contains(row))
        },
{
}

/// Where there are no rows there are no flags.
pub proof fn law_no_rows_no_flags(
    deletion_vector: &RoaringTreemap,
    row_numbers: &Vec<Option<u64>>,
    num_rows: usize,
    column: &str,
    flags: Result<Vec<Option<bool>>, SchemaError>,
)
    requires
        call_ensures(
            deleted_flags,
            (Some(deletion_vector), Some(row_numbers), num_rows, column),
            flags,
        ),
    ensures
        flags matches Ok(flags) && flags@.len() == row_numbers@.len(),
{
}

/// Without a deletion vector no row is told to be deleted, whatever the row numbers are.
pub proof fn law_without_a_vector_nothing_is_deleted(
    row_numbers: Option<&Vec<Option<u64>>>,
    num_rows: usize,
    column: &str,
    flags: Result<Vec<Option<bool>>, SchemaError>,
    i: int,
)
    requires
        call_ensures(deleted_flags, (None, row_numbers, num_rows, column), flags),
    ensures
        flags matches Ok(flags) && flags@.len() == num_rows && (0 <= i < num_rows ==> flags@[i]
            == Some(false)),
{
}

/// With a deletion vector and without row numbers there is an error that names the column.
pub proof fn law_row_numbers_are_needed(
    deletion_vector: &RoaringTreemap,
    num_rows: usize,
    column: &str,
    flags: Result<Vec<Option<bool>>, SchemaError>,
)
    requires
        call_ensures(deleted_flags, (Some(deletion_vector), None, num_rows, column), flags),
    ensures
        flags matches Err(SchemaError(message)) && message@ == "Row number column '"@ + column@
            + "' with type Uint64 not found in batch"@,
{
}

/// Of the columns that are asked for, just the one that tells whether a row is deleted is not read
/// from the data file. The others are read in their order, and as often as they are asked for.
pub proof fn law_columns_asked_for_are_read(
    projection: &Vec<usize>,
    num_columns: usize,
    is_deleted_column: usize,
    columns: Vec<usize>,
    i: int,
)
    requires
        call_ensures(
            columns_of_data_file,
            (Some(projection), num_columns, is_deleted_column),
            columns,
        ),
    ensures
        !columns@.contains(is_deleted_column),
        columns@.len() == num_others(projection@, is_deleted_column),
        0 <= i < projection@.len() && projection@[i] != is_deleted_column ==> num_others(
            projection@.take(i),
            is_deleted_column,
        ) < columns@.len() && columns@[num_others(projection@.take(i), is_deleted_column)]
            == projection@[i],
{
    if 0 <= i < projection@.len() {
        lemma_others(projection@, is_deleted_column, i);
    }
    let keeps = |column: usize| column != is_deleted_column;
    assert(columns@ == projection@.filter(keeps));
    lemma_same_filter(projection@, is_deleted_column, keeps);
    lemma_deleted_is_not_among_others(projection@, is_deleted_column);
}

/// Where nothing is asked for in particular, all columns of the data file are read in their order,
/// except for the one that tells whether a row is deleted.
pub proof fn law_all_columns_are_read(
    num_columns: usize,
    is_deleted_column: usize,
    columns: Vec<usize>,
    i: int,
)
    requires
        call_ensures(columns_of_data_file, (None, num_columns, is_deleted_column), columns),
    ensures
        !columns@.contains(is_deleted_column),
        columns@.len() == (if is_deleted_column < num_columns {
            num_columns - 1
        } else {
            num_columns as int
        }),
        0 <= i < num_columns && i < is_deleted_column ==> columns@[i] == i,
        is_deleted_column < i < num_columns ==> columns@[i - 1] == i,
{
    let all = Seq::new(num_columns as nat, |i: int| i as usize);
    let keeps = |column: usize| column != is_deleted_column;
    assert(columns@ == all.filter(keeps));
    lemma_same_filter(all, is_deleted_column, keeps);
    lemma_deleted_is_not_among_others(all, is_deleted_column);
    lemma_others_of_range(num_columns as nat, is_deleted_column);
    if 0 <= i < num_columns {
        lemma_others_of_range(i as nat, is_deleted_column);
        lemma_others(all, is_deleted_column, i);
        assert(all.take(i) =~= Seq::new(i as nat, |i: int| i as usize));
        assert(all[i] == i as usize);
    }
}

/// The columns other than one.
pub open spec fn others(columns: Seq<usize>, column: usize) -> Seq<usize> {
    columns.filter(|other: usize| other != column)
}

/// The number of columns other than one.
pub open spec fn num_others(columns: Seq<usize>, column: usize) -> int {
    others(columns, column).len() as int
}

proof fn lemma_same_filter(columns: Seq<usize>, column: usize, keeps: spec_fn(usize) -> bool)
    requires
        forall|other: usize| #[trigger] keeps(other) <==> other != column,
    ensures
        columns.filter(keeps) == others(columns, column),
    decreases columns.len(),
{
    reveal(Seq::filter);
    if columns.len() > 0 {
        lemma_same_filter(columns.drop_last(), column, keeps);
    }
}

proof fn lemma_others(columns: Seq<usize>, column: usize, i: int)
    requires
        0 <= i < columns.len(),
    ensures
        columns[i] != column ==> num_others(columns.take(i), column) < num_others(columns, column)
            && others(columns, column)[num_others(columns.take(i), column)] == columns[i],
{
    let keeps = |other: usize| other != column;
    lemma_same_filter(columns, column, keeps);
    lemma_same_filter(columns.take(i), column, keeps);
    let front = columns.take(i);
    let back = columns.skip(i);
    assert(columns =~= front + back);
    Seq::filter_distributes_over_add(front, back, keeps);
    if columns[i] != column {
        let rest = back.skip(1);
        assert(back =~= seq![columns[i]] + rest);
        Seq::filter_distributes_over_add(seq![columns[i]], rest, keeps);
        assert(seq![columns[i]].filter(keeps) =~= seq![columns[i]]) by {
            reveal_with_fuel(Seq::filter, 2);
            assert(seq![columns[i]].drop_last() =~= Seq::empty());
        }
    }
}

proof fn lemma_deleted_is_not_among_others(columns: Seq<usize>, column: usize)
    ensures
        !others(columns, column).contains(column),
{
    broadcast use vstd::seq_lib::group_filter_ensures;

    let keeps = |other: usize| other != column;
    lemma_same_filter(columns, column, keeps);
    let kept = columns.filter(keeps);
    if kept.contains(column) {
        let k = kept.index_of(column);
        assert(keeps(kept[k]));
    }
}

proof fn lemma_others_of_range(len: nat, column: usize)
    requires
        len <= usize::MAX,
    ensures
        num_others(Seq::new(len, |i: int| i as usize), column) == (if column < len {
            len - 1
        } else {
            len as int
        }),
    decreases len,
{
    reveal(Seq::filter);
    let range = Seq::new(len, |i: int| i as usize);
    if len > 0 {
        let shorter = Seq::new((len - 1) as nat, |i: int| i as usize);
        lemma_others_of_range((len - 1) as nat, column);
        assert(range.drop_last() =~= shorter);
        assert(range.last() == (len - 1) as usize);
    }
}

/// The bytes of a vector that has a path are in the object of that path, and those of any other
/// vector are what its text stands for.
pub proof fn law_location(
    absolute_path: Option<&str>,
    path_or_inline_dv: &str,
    location: Result<DeletionVectorLocation, LocationError>,
)
    requires
        call_ensures(locate_deletion_vector, (absolute_path, path_or_inline_dv), location),
    ensures
        location matches Ok(DeletionVectorLocation::Object(path)) ==> (absolute_path matches Some(
            text,
        ) && object_path(text@) == Some(path@)),
        location matches Ok(DeletionVectorLocation::Inline(bytes)) ==> absolute_path is None
            && z85_decoded(path_or_inline_dv@) == Some(bytes@),
        location matches Err(LocationError::Path(_)) ==> (absolute_path matches Some(text)
            && object_path(text@) is None),
        location matches Err(LocationError::Inline(_)) ==> absolute_path is None && z85_decoded(
            path_or_inline_dv@,
        ) is None,
{
}

} // verus!
