//! Laws of the file with the rows that a delete has marked.

use vstd::prelude::*;

use crate::delete::marking::{
    all_collected, all_merged, is_error_of, is_whole_of, marks_of_results, marks_wf, rows_in,
    DeletionVectorMap, PartitionResult,
};
use crate::delete::vector_file::{
    bitmap_vectors, deletion_vectors_file, deletion_vectors_path, is_file_of, is_random_uuid,
    new_deletion_vectors_file, new_deletion_vectors_file_of_partitions, DeletionVectorsFile,
    PartitionsFile,
};
use crate::errors::DeltaResult;
use crate::external::{
    bitmap_decoded, bitmap_rows, frozen_bytes, hex_digit, uuid_text, z85_decoded,
};
use crate::format::{
    file_bytes, is_addressable, is_last_of_name, lemma_record_len, lemma_record_position,
};
use crate::kernel::DeletionVectorDescriptor;
use crate::laws::files::{bitmap_payloads, lemma_layout, place};
use crate::laws::marking::marks_row;

verus! {

/// The path of a file is that of its UUID: the hyphenated text between a fixed start and a fixed
/// end.
pub proof fn law_path(uuid: &[u8; 16], path: String)
    requires
        call_ensures(deletion_vectors_path, (uuid,), path),
    ensures
        path@.len() == 56,
        path@.take(16) == "deletion_vector_"@,
        path@.subrange(16, 52) == uuid_text(uuid@),
        path@.skip(52) == ".bin"@,
{
    reveal_strlit("deletion_vector_");
    reveal_strlit(".bin");
    assert(path@.take(16) =~= "deletion_vector_"@);
    assert(path@.subrange(16, 52) =~= uuid_text(uuid@));
    assert(path@.skip(52) =~= ".bin"@);
}

/// Files of different UUIDs have different paths.
pub proof fn law_paths_are_told_apart(a: &[u8; 16], b: &[u8; 16], path_a: String, path_b: String)
    requires
        call_ensures(deletion_vectors_path, (a,), path_a),
        call_ensures(deletion_vectors_path, (b,), path_b),
        path_a@ == path_b@,
    ensures
        a@ == b@,
{
    law_path(a, path_a);
    law_path(b, path_b);
    assert(uuid_text(a@) == uuid_text(b@));
    assert forall|k: int| 0 <= k < 16 implies a@[k] == b@[k] by {
        let first = digit_index(2 * k);
        let second = digit_index(2 * k + 1);
        assert(uuid_text(a@)[first] == uuid_text(b@)[first]);
        assert(uuid_text(a@)[second] == uuid_text(b@)[second]);
        assert(uuid_text(a@)[first] == hex_digit(a@[k] as int / 16));
        assert(uuid_text(b@)[first] == hex_digit(b@[k] as int / 16));
        assert(uuid_text(a@)[second] == hex_digit(a@[k] as int % 16));
        assert(uuid_text(b@)[second] == hex_digit(b@[k] as int % 16));
        lemma_hex_digit(a@[k] as int / 16, b@[k] as int / 16);
        lemma_hex_digit(a@[k] as int % 16, b@[k] as int % 16);
    }
    assert(a@ =~= b@);
}

/// Where in the text of a UUID a hexadecimal digit stands.
spec fn digit_index(digit: int) -> int {
    if digit < 8 {
        digit
    } else if digit < 12 {
        digit + 1
    } else if digit < 16 {
        digit + 2
    } else if digit < 20 {
        digit + 3
    } else {
        digit + 4
    }
}

proof fn lemma_hex_digit(a: int, b: int)
    requires
        0 <= a < 16,
        0 <= b < 16,
        hex_digit(a) == hex_digit(b),
    ensures
        a == b,
{
    assert(hex_digit(a) as int == (if a < 10 {
        48 + a
    } else {
        87 + a
    }));
    assert(hex_digit(b) as int == (if b < 10 {
        48 + b
    } else {
        87 + b
    }));
}

/// Whether a file holds the rows of a set at the place that a descriptor tells.
pub open spec fn holds_rows(
    bytes: Seq<u8>,
    descriptor: DeletionVectorDescriptor,
    rows: Set<u32>,
) -> bool {
    &&& descriptor.offset matches Some(offset) && {
        &&& offset >= 0
        &&& descriptor.size_in_bytes >= 4
        &&& offset + 8 + descriptor.size_in_bytes <= bytes.len()
        &&& bitmap_decoded(
            bytes.subrange(offset + 8, offset + 4 + descriptor.size_in_bytes),
        ) == Some(rows)
    }
}

/// The file of a UUID with the rows that a delete has marked: its path tells the UUID, and so does
/// every descriptor. There is a descriptor for each data file with marks, and for no other. It
/// leads to the rows that are marked in that data file, and tells their number.
pub proof fn law_file_holds_the_marks(
    uuid: &[u8; 16],
    deletion_vectors: DeletionVectorMap,
    prepared: Option<DeltaResult<DeletionVectorsFile>>,
    name: Seq<char>,
)
    requires
        marks_wf(deletion_vectors),
        call_ensures(deletion_vectors_file, (uuid, deletion_vectors), prepared),
    ensures
        prepared is Some <==> place(
            bitmap_payloads(deletion_vectors.entries()),
            deletion_vectors.entries().len() as int,
        ) <= isize::MAX,
        prepared matches Some(prepared) ==> (prepared matches Ok(file) && {
            &&& file.path@.subrange(16, 52) == uuid_text(uuid@)
            &&& file.path@.len() == 56
            &&& file.path@.take(16) == "deletion_vector_"@
            &&& file.path@.skip(52) == ".bin"@
            &&& file.descriptors@.contains_key(name) <==> deletion_vectors@.contains_key(name)
            &&& deletion_vectors@.contains_key(name) ==> {
                &&& file.descriptors@[name].storage_type is UuidRelativePath
                &&& z85_decoded(file.descriptors@[name].path_or_inline_dv@) == Some(uuid@)
                &&& file.descriptors@[name].cardinality == bitmap_rows(
                    deletion_vectors@[name],
                ).len()
                &&& frozen_bytes(file.bytes).len() <= i32::MAX ==> holds_rows(
                    frozen_bytes(file.bytes),
                    file.descriptors@[name],
                    bitmap_rows(deletion_vectors@[name]),
                )
            }
        }),
{
    let vectors = bitmap_vectors(deletion_vectors.entries());
    lemma_layout(
        vectors,
        bitmap_payloads(deletion_vectors.entries()),
        vectors.len() as int,
    );
    assert(vectors.take(vectors.len() as int) =~= vectors);
    if prepared is Some {
        let file = prepared->0->Ok_0;
        lemma_file_of(file, uuid@, deletion_vectors, name);
    }
}

proof fn lemma_file_of(
    file: DeletionVectorsFile,
    uuid: Seq<u8>,
    deletion_vectors: DeletionVectorMap,
    name: Seq<char>,
)
    requires
        marks_wf(deletion_vectors),
        is_file_of(file, uuid, deletion_vectors),
    ensures
        uuid.len() == 16 ==> file.path@.len() == 56,
        file.path@.take(16) == "deletion_vector_"@,
        file.path@.subrange(16, 52) == uuid_text(uuid),
        file.path@.skip(52) == ".bin"@,
        file.descriptors@.contains_key(name) <==> deletion_vectors@.contains_key(name),
        deletion_vectors@.contains_key(name) ==> {
            &&& file.descriptors@[name].storage_type is UuidRelativePath
            &&& z85_decoded(file.descriptors@[name].path_or_inline_dv@) == Some(uuid)
            &&& file.descriptors@[name].cardinality == bitmap_rows(deletion_vectors@[name]).len()
            &&& frozen_bytes(file.bytes).len() <= i32::MAX ==> holds_rows(
                frozen_bytes(file.bytes),
                file.descriptors@[name],
                bitmap_rows(deletion_vectors@[name]),
            )
        },
{
    let entries = deletion_vectors.entries();
    let vectors = bitmap_vectors(entries);
    reveal_strlit("deletion_vector_");
    reveal_strlit(".bin");
    assert(file.path@.take(16) =~= "deletion_vector_"@);
    assert(file.path@.subrange(16, 52) =~= uuid_text(uuid));
    assert(file.path@.skip(52) =~= ".bin"@);
    deletion_vectors.lemma_entries();
    assert(file.descriptors@.dom().contains(name) <==> deletion_vectors@.contains_key(name));
    if deletion_vectors@.contains_key(name) {
        let i = choose|i: int| 0 <= i < entries.len() && (#[trigger] entries[i]).0@ == name;
        assert(vectors[i].name == name);
        assert forall|j: int| i < j < vectors.len() implies (#[trigger] vectors[j]).name
            != vectors[i].name by {
            assert(entries[j].0@ != entries[i].0@);
        }
        assert(is_last_of_name(vectors, i));
        if frozen_bytes(file.bytes).len() <= i32::MAX {
            lemma_record_position(vectors, i);
            lemma_record_len(vectors[i].payload);
            assert(is_addressable(vectors, i));
            assert(entries[i].0@ == name);
        }
    }
}

/// The same holds of a file that is named by a random UUID.
pub proof fn law_new_file_holds_the_marks(
    deletion_vectors: DeletionVectorMap,
    prepared: Option<DeltaResult<DeletionVectorsFile>>,
    name: Seq<char>,
)
    requires
        marks_wf(deletion_vectors),
        call_ensures(new_deletion_vectors_file, (deletion_vectors,), prepared),
    ensures
        prepared is Some <==> place(
            bitmap_payloads(deletion_vectors.entries()),
            deletion_vectors.entries().len() as int,
        ) <= isize::MAX,
        prepared matches Some(prepared) ==> (prepared matches Ok(file) && {
            &&& file.path@.len() == 56
            &&& file.descriptors@.contains_key(name) <==> deletion_vectors@.contains_key(name)
            &&& deletion_vectors@.contains_key(name) ==> {
                &&& z85_decoded(file.descriptors@[name].path_or_inline_dv@) matches Some(uuid)
                    && file.path@.subrange(16, 52) == uuid_text(uuid)
                &&& file.descriptors@[name].cardinality == bitmap_rows(
                    deletion_vectors@[name],
                ).len()
                &&& frozen_bytes(file.bytes).len() <= i32::MAX ==> holds_rows(
                    frozen_bytes(file.bytes),
                    file.descriptors@[name],
                    bitmap_rows(deletion_vectors@[name]),
                )
            }
        }),
{
    let vectors = bitmap_vectors(deletion_vectors.entries());
    lemma_layout(
        vectors,
        bitmap_payloads(deletion_vectors.entries()),
        vectors.len() as int,
    );
    assert(vectors.take(vectors.len() as int) =~= vectors);
    if prepared is Some {
        let file = prepared->0->Ok_0;
        let uuid = choose|uuid: Seq<u8>|
            is_random_uuid(uuid) && #[trigger] is_file_of(file, uuid, deletion_vectors);
        lemma_file_of(file, uuid, deletion_vectors, name);
    }
}

/// A row is marked in the whole just where it is marked in some part.
pub open spec fn marks_what_a_part_marks(
    whole: DeletionVectorMap,
    results: Seq<PartitionResult>,
) -> bool {
    forall|name: Seq<char>, row: u32| #[trigger]
        marks_row(whole@, name, row) <==> exists|i: int|
            0 <= i < results.len() && (#[trigger] results[i] matches Ok(Ok(part)) && marks_row(
                part@,
                name,
                row,
            ))
}

/// From end to end: what comes of the parts of a scan is a file in which a row of a data file is
/// found just where some part has marked it. It is an error just where some part has failed, and
/// nothing just where there is no part. It is too large only where no allocation can have the
/// length of a file with these marks.
pub proof fn law_file_of_partitions_holds_the_marks(
    results: Vec<PartitionResult>,
    prepared: DeltaResult<PartitionsFile>,
    name: Seq<char>,
    row: u32,
)
    requires
        call_ensures(new_deletion_vectors_file_of_partitions, (results,), prepared),
    ensures
        prepared is Ok <==> forall|i: int|
            0 <= i < results@.len() ==> (#[trigger] results@[i] matches Ok(Ok(_))),
        prepared matches Ok(prepared) ==> (prepared is NoPartitions <==> results@.len() == 0),
        prepared matches Ok(PartitionsFile::TooLarge) ==> exists|whole: DeletionVectorMap|
            {
                &&& #[trigger] marks_wf(whole)
                &&& place(bitmap_payloads(whole.entries()), whole.entries().len() as int)
                    > isize::MAX
                &&& marks_what_a_part_marks(whole, results@)
            },
        prepared matches Ok(PartitionsFile::File(file)) ==> {
            &&& file.descriptors@.contains_key(name) <==> exists|i: int|
                0 <= i < results@.len() && (#[trigger] results@[i] matches Ok(Ok(part))
                    && part@.contains_key(name))
            &&& file.descriptors@.contains_key(name) && frozen_bytes(file.bytes).len() <= i32::MAX
                ==> exists|rows: Set<u32>| #[trigger]
                holds_rows(frozen_bytes(file.bytes), file.descriptors@[name], rows) && (
                rows.contains(row) <==> exists|i: int|
                    0 <= i < results@.len() && (#[trigger] results@[i] matches Ok(Ok(part))
                        && marks_row(part@, name, row)))
        },
{
    match prepared {
        Ok(PartitionsFile::File(file)) => {
            let (whole, uuid) = choose|whole: DeletionVectorMap, uuid: Seq<u8>|
                is_whole_of(whole, results@) && is_random_uuid(uuid) && #[trigger] is_file_of(
                    file,
                    uuid,
                    whole,
                );
            lemma_file_of(file, uuid, whole, name);
            lemma_whole(whole, results@, name, row);
            if file.descriptors@.contains_key(name) && frozen_bytes(file.bytes).len() <= i32::MAX {
                assert(holds_rows(
                    frozen_bytes(file.bytes),
                    file.descriptors@[name],
                    bitmap_rows(whole@[name]),
                ));
            }
        },
        Ok(PartitionsFile::TooLarge) => {
            let whole = choose|whole: DeletionVectorMap| #[trigger]
                is_whole_of(whole, results@) && file_bytes(bitmap_vectors(whole.entries())).len()
                    > isize::MAX;
            let vectors = bitmap_vectors(whole.entries());
            lemma_layout(vectors, bitmap_payloads(whole.entries()), vectors.len() as int);
            assert(vectors.take(vectors.len() as int) =~= vectors);
            assert forall|name: Seq<char>, row: u32| #[trigger]
                marks_row(whole@, name, row) <==> exists|i: int|
                    0 <= i < results@.len() && (#[trigger] results@[i] matches Ok(Ok(part))
                        && marks_row(part@, name, row)) by {
                lemma_whole(whole, results@, name, row);
            }
            assert(marks_wf(whole));
        },
        Ok(PartitionsFile::NoPartitions) => {},
        Err(err) => {
            let k = choose|k: int|
                {
                    &&& 0 <= k < results@.len()
                    &&& is_error_of(err, #[trigger] results@[k])
                    &&& all_collected(results@.take(k))
                };
            assert(!(results@[k] matches Ok(Ok(_))));
        },
    }
}

proof fn lemma_whole(
    whole: DeletionVectorMap,
    results: Seq<PartitionResult>,
    name: Seq<char>,
    row: u32,
)
    requires
        is_whole_of(whole, results),
        forall|i: int| 0 <= i < results.len() ==> (#[trigger] results[i] matches Ok(Ok(_))),
    ensures
        whole@.contains_key(name) <==> exists|i: int|
            0 <= i < results.len() && (#[trigger] results[i] matches Ok(Ok(part))
                && part@.contains_key(name)),
        marks_row(whole@, name, row) <==> exists|i: int|
            0 <= i < results.len() && (#[trigger] results[i] matches Ok(Ok(part)) && marks_row(
                part@,
                name,
                row,
            )),
{
    let marks = marks_of_results(results);
    assert forall|i: int| 0 <= i < results.len() implies (#[trigger] results[i] matches Ok(Ok(part))
        && marks[i].contains_key(name) == part@.contains_key(name) && rows_in(
        marks[i],
        name,
    ).contains(row) == marks_row(part@, name, row)) by {}
    if whole@.contains_key(name) {
        assert(all_merged(marks).contains_key(name));
        let i = choose|i: int| 0 <= i < marks.len() && (#[trigger] marks[i]).contains_key(name);
        assert(results[i] is Ok);
    }
    if exists|i: int|
        0 <= i < results.len() && (#[trigger] results[i] matches Ok(Ok(part))
            && part@.contains_key(name)) {
        let i = choose|i: int|
            0 <= i < results.len() && (#[trigger] results[i] matches Ok(Ok(part))
                && part@.contains_key(name));
        assert(marks[i].contains_key(name));
        assert(all_merged(marks).contains_key(name));
    }
    if marks_row(whole@, name, row) {
        assert(all_merged(marks).contains_key(name));
        assert(all_merged(marks)[name].contains(row));
        let i = choose|i: int|
            0 <= i < marks.len() && rows_in(#[trigger] marks[i], name).contains(row);
        assert(results[i] is Ok);
    }
    if exists|i: int|
        0 <= i < results.len() && (#[trigger] results[i] matches Ok(Ok(part)) && marks_row(
            part@,
            name,
            row,
        )) {
        let i = choose|i: int|
            0 <= i < results.len() && (#[trigger] results[i] matches Ok(Ok(part)) && marks_row(
                part@,
                name,
                row,
            ));
        assert(rows_in(marks[i], name).contains(row));
        assert(marks[i].contains_key(name));
        assert(all_merged(marks).contains_key(name));
        assert(all_merged(marks)[name].contains(row));
    }
}

} // verus!
