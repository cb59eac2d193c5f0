//! Laws of marking rows.

use roaring::RoaringBitmap;
use vstd::prelude::*;

use crate::delete::marking::{
    all_collected, all_merged, collect_partitions, is_error_of, marks_of_parts, marks_of_results,
    marks_of_rows, marks_wf, merge_partitions, merge_results, rows_in, DeletedRows,
    DeletionVectorMap, DeletionVectorWriter, PartitionResult,
};
use crate::errors::{DeltaResult, DeltaTableError};
use crate::external::bitmap_rows;
use crate::name_map::NameMap;

verus! {

/// Whether a batch has a row of a number in a data file.
pub open spec fn has_row(
    row_numbers: Seq<Option<u64>>,
    file_names: Seq<Option<String>>,
    i: int,
    name: Seq<char>,
    number: int,
) -> bool {
    &&& 0 <= i < row_numbers.len()
    &&& i < file_names.len()
    &&& file_names[i] matches Some(file_name)
    &&& file_name@ == name
    &&& row_numbers[i] matches Some(row_number)
    &&& row_number as int == number
}

/// A writer starts with nothing marked.
pub proof fn law_new_writer_marks_nothing(writer: DeletionVectorWriter, name: Seq<char>)
    requires
        call_ensures(DeletionVectorWriter::new, (), writer),
    ensures
        writer.wf(),
        !writer.marks().contains_key(name),
{
}

/// A batch marks each of its rows, in the data file of the row. The row is marked under its own
/// number, where that is below 2^32, and else under the remainder.
pub proof fn law_batch_marks_its_rows(
    writer: &mut DeletionVectorWriter,
    batch: DeletedRows,
    written: DeltaResult<()>,
    row_numbers: Vec<Option<u64>>,
    file_names: Vec<Option<String>>,
    i: int,
    name: Seq<char>,
    number: int,
)
    requires
        call_ensures(DeletionVectorWriter::write, (writer, batch), written),
        batch.row_numbers == Some(row_numbers),
        batch.file_names == Ok::<Vec<Option<String>>, DeltaTableError>(file_names),
        has_row(row_numbers@, file_names@, i, name, number),
    ensures
        written is Ok,
        final(writer).marks().contains_key(name),
        exists|row: u32| #[trigger]
            final(writer).marks()[name].contains(row) && row as int == number % 0x1_0000_0000,
        number <= u32::MAX ==> final(writer).marks()[name].contains(number as u32),
{
    let marks = marks_of_rows(row_numbers@, file_names@);
    let row = row_numbers@[i]->0;
    lemma_remainder(row);
    assert(marks[i].contains_key(name));
    assert(rows_in(marks[i], name).contains(row as u32));
    assert(rows_in(all_merged(marks), name).contains(row as u32));
    assert(final(writer).marks()[name].contains(row as u32));
}

/// A batch marks no other row, and no other data file.
pub proof fn law_batch_marks_nothing_else(
    writer: &mut DeletionVectorWriter,
    batch: DeletedRows,
    written: DeltaResult<()>,
    row_numbers: Vec<Option<u64>>,
    file_names: Vec<Option<String>>,
    name: Seq<char>,
    row: u32,
)
    requires
        call_ensures(DeletionVectorWriter::write, (writer, batch), written),
        batch.row_numbers == Some(row_numbers),
        batch.file_names == Ok::<Vec<Option<String>>, DeltaTableError>(file_names),
        forall|i: int|
            0 <= i < row_numbers@.len() && i < file_names@.len() ==> (
            #[trigger] row_numbers@[i]) is Some && file_names@[i] is Some,
    ensures
        final(writer).marks().contains_key(name) && !old(writer).marks().contains_key(name)
            ==> exists|i: int, number: int| #[trigger]
            has_row(row_numbers@, file_names@, i, name, number),
        final(writer).marks().contains_key(name) && final(writer).marks()[name].contains(row) && !(
        old(writer).marks().contains_key(name) && old(writer).marks()[name].contains(row))
            ==> exists|i: int, number: int| #[trigger]
            has_row(row_numbers@, file_names@, i, name, number) && number % 0x1_0000_0000
                == row as int,
{
    let marks = marks_of_rows(row_numbers@, file_names@);
    let after = final(writer).marks();
    let before = old(writer).marks();
    if after.contains_key(name) && !before.contains_key(name) {
        assert(all_merged(marks).contains_key(name));
        let i = choose|i: int| 0 <= i < marks.len() && (#[trigger] marks[i]).contains_key(name);
        assert(row_numbers@[i] is Some);
        assert(has_row(row_numbers@, file_names@, i, name, row_numbers@[i]->0 as int));
    }
    if after.contains_key(name) && after[name].contains(row) && !(before.contains_key(name)
        && before[name].contains(row)) {
        assert(rows_in(all_merged(marks), name).contains(row));
        let i = choose|i: int|
            0 <= i < marks.len() && rows_in(#[trigger] marks[i], name).contains(row);
        assert(row_numbers@[i] is Some);
        lemma_remainder(row_numbers@[i]->0);
        assert(has_row(row_numbers@, file_names@, i, name, row_numbers@[i]->0 as int));
    }
}

/// What was marked stays marked, whatever comes of a batch. A batch without one of its columns
/// marks nothing.
pub proof fn law_marks_stay(
    writer: &mut DeletionVectorWriter,
    batch: DeletedRows,
    written: DeltaResult<()>,
    name: Seq<char>,
    row: u32,
)
    requires
        call_ensures(DeletionVectorWriter::write, (writer, batch), written),
    ensures
        written is Ok <==> batch.row_numbers is Some && batch.file_names is Ok,
        written is Err ==> final(writer).marks() == old(writer).marks(),
        old(writer).marks().contains_key(name) ==> final(writer).marks().contains_key(name),
        old(writer).marks().contains_key(name) && old(writer).marks()[name].contains(row)
            ==> final(writer).marks()[name].contains(row),
{
}

/// A batch without row numbers is an error that names their column, and one without paths is the
/// error that was met.
pub proof fn law_missing_columns_are_errors(
    writer: &mut DeletionVectorWriter,
    batch: DeletedRows,
    written: DeltaResult<()>,
)
    requires
        call_ensures(DeletionVectorWriter::write, (writer, batch), written),
    ensures
        batch.row_numbers is None ==> (written matches Err(DeltaTableError::Generic(message))
            && message@ == "Column '__delta_rs_row_number' not found in record batch"@),
        batch.row_numbers is Some ==> (batch.file_names matches Err(err) ==> (written matches Err(
            returned,
        ) && returned == err)),
{
}

/// Two rows of one data file with different numbers below 2^32 are marked as different rows, and
/// rows of different data files are marked in different data files.
pub proof fn law_rows_are_told_apart(
    writer: &mut DeletionVectorWriter,
    batch: DeletedRows,
    written: DeltaResult<()>,
    row_numbers: Vec<Option<u64>>,
    file_names: Vec<Option<String>>,
    name: Seq<char>,
    number: u32,
)
    requires
        call_ensures(DeletionVectorWriter::write, (writer, batch), written),
        batch.row_numbers == Some(row_numbers),
        batch.file_names == Ok::<Vec<Option<String>>, DeltaTableError>(file_names),
        forall|i: int|
            0 <= i < row_numbers@.len() && i < file_names@.len() ==> (
            #[trigger] row_numbers@[i]) is Some && file_names@[i] is Some,
        forall|i: int|
            0 <= i < row_numbers@.len() ==> (#[trigger] row_numbers@[i] matches Some(row)
                ==> row <= u32::MAX),
        !(old(writer).marks().contains_key(name) && old(writer).marks()[name].contains(number)),
        forall|i: int| !has_row(row_numbers@, file_names@, i, name, number as int),
    ensures
        !(final(writer).marks().contains_key(name) && final(writer).marks()[name].contains(number)),
{
    let after = final(writer).marks();
    if after.contains_key(name) && after[name].contains(number) {
        law_batch_marks_nothing_else(
            writer,
            batch,
            written,
            row_numbers,
            file_names,
            name,
            number,
        );
        let (i, found) = choose|i: int, found: int| #[trigger]
            has_row(row_numbers@, file_names@, i, name, found) && found % 0x1_0000_0000
                == number as int;
        assert(row_numbers@[i] is Some);
        assert(has_row(row_numbers@, file_names@, i, name, number as int));
    }
}

/// A closed writer gives out just what it has marked.
pub proof fn law_close_gives_the_marks(
    writer: DeletionVectorWriter,
    closed: DeltaResult<DeletionVectorMap>,
    name: Seq<char>,
)
    requires
        call_ensures(DeletionVectorWriter::close, (writer,), closed),
    ensures
        closed matches Ok(deletion_vectors) && marks_wf(deletion_vectors) && (
        deletion_vectors@.contains_key(name) <==> writer.marks().contains_key(name)) && (
        writer.marks().contains_key(name) ==> bitmap_rows(deletion_vectors@[name])
            == writer.marks()[name]),
{
}

/// Whether a map marks a row of a data file.
pub open spec fn marks_row(
    deletion_vectors: Map<Seq<char>, RoaringBitmap>,
    name: Seq<char>,
    row: u32,
) -> bool {
    deletion_vectors.contains_key(name) && bitmap_rows(deletion_vectors[name]).contains(row)
}

/// Merging marks a row just where some part has marked it, and has a data file just where some
/// part has it.
pub proof fn law_merge_marks_what_a_part_marks(
    parts: Vec<DeletionVectorMap>,
    whole: Option<DeletionVectorMap>,
    name: Seq<char>,
    row: u32,
)
    requires
        call_ensures(merge_partitions, (parts,), whole),
    ensures
        whole is None <==> parts@.len() == 0,
        whole matches Some(whole) ==> {
            &&& marks_wf(whole)
            &&& whole@.contains_key(name) <==> exists|i: int|
                0 <= i < parts@.len() && (#[trigger] parts@[i])@.contains_key(name)
            &&& marks_row(whole@, name, row) <==> exists|i: int|
                0 <= i < parts@.len() && marks_row((#[trigger] parts@[i])@, name, row)
        },
{
    if let Some(whole) = whole {
        let marks = marks_of_parts(parts@);
        assert forall|i: int| 0 <= i < parts@.len() implies marks[i].contains_key(name)
            == (#[trigger] parts@[i])@.contains_key(name) && rows_in(marks[i], name).contains(row)
            == marks_row(parts@[i]@, name, row) by {}
        if whole@.contains_key(name) {
            assert(all_merged(marks).contains_key(name));
            let i = choose|i: int| 0 <= i < marks.len() && (#[trigger] marks[i]).contains_key(name);
            assert(parts@[i]@.contains_key(name));
        }
        if exists|i: int| 0 <= i < parts@.len() && (#[trigger] parts@[i])@.contains_key(name) {
            let i = choose|i: int|
                0 <= i < parts@.len() && (#[trigger] parts@[i])@.contains_key(name);
            assert(marks[i].contains_key(name));
            assert(all_merged(marks).contains_key(name));
        }
        if marks_row(whole@, name, row) {
            assert(all_merged(marks)[name].contains(row));
            let i = choose|i: int|
                0 <= i < marks.len() && rows_in(#[trigger] marks[i], name).contains(row);
            assert(marks_row(parts@[i]@, name, row));
        }
        if exists|i: int| 0 <= i < parts@.len() && marks_row((#[trigger] parts@[i])@, name, row) {
            let i = choose|i: int|
                0 <= i < parts@.len() && marks_row((#[trigger] parts@[i])@, name, row);
            assert(rows_in(marks[i], name).contains(row));
            assert(marks[i].contains_key(name));
            assert(all_merged(marks).contains_key(name));
            assert(all_merged(marks)[name].contains(row));
        }
    }
}

/// The parts are collected in their order where none has failed, and the first failure is the
/// error otherwise.
pub proof fn law_first_failure_is_the_error(
    results: Vec<PartitionResult>,
    collected: DeltaResult<Vec<DeletionVectorMap>>,
    i: int,
)
    requires
        call_ensures(collect_partitions, (results,), collected),
        0 <= i < results@.len(),
        forall|j: int| 0 <= j < i ==> (#[trigger] results@[j] matches Ok(Ok(_))),
    ensures
        match results@[i] {
            Err(reason) => collected == Err::<Vec<DeletionVectorMap>, DeltaTableError>(
                DeltaTableError::Generic(reason),
            ),
            Ok(Err(err)) => collected == Err::<Vec<DeletionVectorMap>, DeltaTableError>(err),
            Ok(Ok(part)) => collected matches Ok(parts) ==> parts@.len() == results@.len()
                && parts@[i] == part,
        },
        (forall|j: int| 0 <= j < results@.len() ==> (#[trigger] results@[j] matches Ok(Ok(_))))
            ==> collected is Ok,
{
    if let Err(err) = collected {
        let k = choose|k: int|
            {
                &&& 0 <= k < results@.len()
                &&& is_error_of(err, #[trigger] results@[k])
                &&& all_collected(results@.take(k))
            };
        assert(!(results@[k] matches Ok(Ok(_))));
        if i < k {
            assert(results@.take(k)[i] == results@[i]);
        }
    }
}

/// What comes of the parts of a scan marks a row just where some part has marked it.
pub proof fn law_results_mark_what_a_part_marks(
    results: Vec<PartitionResult>,
    merged: DeltaResult<Option<DeletionVectorMap>>,
    name: Seq<char>,
    row: u32,
)
    requires
        call_ensures(merge_results, (results,), merged),
    ensures
        merged is Ok <==> forall|i: int|
            0 <= i < results@.len() ==> (#[trigger] results@[i] matches Ok(Ok(_))),
        merged == Ok::<Option<DeletionVectorMap>, DeltaTableError>(None) ==> results@.len() == 0,
        merged matches Ok(Some(whole)) ==> results@.len() > 0 && marks_wf(whole) && (marks_row(
            whole@,
            name,
            row,
        ) <==> exists|i: int|
            0 <= i < results@.len() && (#[trigger] results@[i] matches Ok(Ok(part)) && marks_row(
                part@,
                name,
                row,
            ))),
{
    match merged {
        Ok(Some(whole)) => {
            let marks = marks_of_results(results@);
            assert(all_collected(results@));
            assert forall|i: int| 0 <= i < results@.len() implies (#[trigger] results@[i] matches
                Ok(Ok(part)) && rows_in(marks[i], name).contains(row) == marks_row(
                part@,
                name,
                row,
            )) by {}
            if marks_row(whole@, name, row) {
                assert(all_merged(marks).contains_key(name));
                assert(all_merged(marks)[name].contains(row));
                let i = choose|i: int|
                    0 <= i < marks.len() && rows_in(#[trigger] marks[i], name).contains(row);
                assert(results@[i] is Ok);
            }
            if exists|i: int|
                0 <= i < results@.len() && (#[trigger] results@[i] matches Ok(Ok(part))
                    && marks_row(part@, name, row)) {
                let i = choose|i: int|
                    0 <= i < results@.len() && (#[trigger] results@[i] matches Ok(Ok(part))
                        && marks_row(part@, name, row));
                assert(rows_in(marks[i], name).contains(row));
                assert(marks[i].contains_key(name));
                assert(all_merged(marks).contains_key(name));
                assert(all_merged(marks)[name].contains(row));
            }
        },
        Ok(None) => {},
        Err(err) => {
            let k = choose|k: int|
                {
                    &&& 0 <= k < results@.len()
                    &&& is_error_of(err, #[trigger] results@[k])
                    &&& all_collected(results@.take(k))
                };
            assert(!(results@[k] matches Ok(Ok(_))));
        },
    }
}

/// What was put into a map is found in it under its name, and all else is found as before.
pub proof fn law_map_finds_what_was_put<V>(
    map: &mut NameMap<V>,
    name: String,
    value: V,
    other: &str,
    before: Option<&V>,
    after: Option<&V>,
    len_before: usize,
    len_after: usize,
)
    requires
        call_ensures(NameMap::<V>::get, (&*old(map), other), before),
        call_ensures(NameMap::<V>::len, (&*old(map),), len_before),
        call_ensures(NameMap::<V>::push, (map, name, value), ()),
        call_ensures(NameMap::<V>::get, (&*final(map), other), after),
        call_ensures(NameMap::<V>::len, (&*final(map),), len_after),
    ensures
        other@ == name@ ==> (after matches Some(found) && *found == value),
        other@ != name@ ==> (after is Some <==> before is Some),
        other@ != name@ ==> (after matches Some(found) ==> *found == *before->0),
        len_after == len_before + 1,
{
}

/// A new map finds nothing, and has no entry.
pub proof fn law_new_map_is_empty<V>(
    map: NameMap<V>,
    name: &str,
    slot: Option<usize>,
    value: Option<&V>,
    len: usize,
    entries: Vec<(String, V)>,
)
    requires
        call_ensures(NameMap::<V>::new, (), map),
        call_ensures(NameMap::<V>::position, (&map, name), slot),
        call_ensures(NameMap::<V>::get, (&map, name), value),
        call_ensures(NameMap::<V>::len, (&map,), len),
        call_ensures(NameMap::<V>::into_entries, (map,), entries),
    ensures
        slot is None,
        value is None,
        len == 0,
        entries@.len() == 0,
{
}

/// The slot of a name is that of its entry, and the value found under a name is that of the entry
/// in its slot. Where there is no slot there is no value.
pub proof fn law_slot_is_that_of_the_entry<V>(
    map: NameMap<V>,
    name: &str,
    slot: Option<usize>,
    value: Option<&V>,
    len: usize,
    entries: Vec<(String, V)>,
)
    requires
        call_ensures(NameMap::<V>::position, (&map, name), slot),
        call_ensures(NameMap::<V>::get, (&map, name), value),
        call_ensures(NameMap::<V>::len, (&map,), len),
        call_ensures(NameMap::<V>::into_entries, (map,), entries),
    ensures
        len == entries@.len(),
        slot is Some <==> value is Some,
        slot matches Some(slot) ==> {
            &&& slot < entries@.len()
            &&& entries@[slot as int].0@ == name@
            &&& entries@[slot as int].1 == *value->0
        },
{
}

/// What is written through a slot is found under the name of its entry, and all else is found as
/// before.
pub proof fn law_map_finds_what_was_written<V>(
    map: &mut NameMap<V>,
    name: &str,
    slot: usize,
    value: &mut V,
    other: &str,
    before: Option<&V>,
    after: Option<&V>,
)
    requires
        call_ensures(NameMap::<V>::position, (&*old(map), name), Some(slot)),
        call_ensures(NameMap::<V>::get, (&*old(map), other), before),
        call_ensures(NameMap::<V>::value_mut, (map, slot), value),
        call_ensures(NameMap::<V>::get, (&*final(map), other), after),
    ensures
        other@ == name@ ==> (before matches Some(found) && *found == *old(value)),
        other@ == name@ ==> (after matches Some(found) && *found == *final(value)),
        other@ != name@ ==> (after is Some <==> before is Some),
        other@ != name@ ==> (after matches Some(found) ==> *found == *before->0),
{
}

proof fn lemma_remainder(number: u64)
    ensures
        (number as u32) as int == number as int % 0x1_0000_0000,
        number <= u32::MAX ==> (number as u32) as int == number as int,
{
    assert((number as u32) as u64 == number % 0x1_0000_0000u64) by (bit_vector);
}

} // verus!
