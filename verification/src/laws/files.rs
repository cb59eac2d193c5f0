//! Laws of deletion vector files.

use bytes::{Bytes, BytesMut};
use roaring::{RoaringBitmap, RoaringTreemap};
use vstd::hash_map::StringHashMap;
use vstd::prelude::*;

use crate::delete::vector_file;
use crate::deletion_vectors;
use crate::errors::{DeltaResult, SchemaError};
use crate::external::{
    be32, bitmap_canonical, bitmap_decoded, bitmap_portable, bitmap_rows, buffer_bytes, crc32,
    frozen_bytes, treemap_canonical, treemap_decoded, treemap_portable, treemap_rows, z85_decoded,
};
use crate::file_source::deleted_flags;
use crate::format::{
    describe_file, describes, file_bytes, has_vector, is_addressable, is_last_of_name,
    lemma_file_step, lemma_parts, lemma_record_len, lemma_record_position, record, record_start,
    vector_descriptor, NamedVector, PartialDeletionVectorDescriptor,
};
use crate::kernel::DeletionVectorDescriptor;

verus! {

/// Where in a file the record of a vector starts: behind the version byte and, for each vector
/// before it, twelve bytes and the serialized vector.
pub open spec fn place(payloads: Seq<Seq<u8>>, i: int) -> int
    decreases i,
{
    if i <= 0 {
        1
    } else {
        place(payloads, i - 1) + 12 + payloads[i - 1].len()
    }
}

/// Whether a record stands at a place: the size of the serialized vector and of the magic number,
/// the magic number, the serialized vector, and the checksum of the latter two.
pub open spec fn record_is_at(bytes: Seq<u8>, start: int, payload: Seq<u8>) -> bool {
    let end = start + 8 + payload.len();
    &&& end + 4 <= bytes.len()
    &&& payload.len() + 4 <= u32::MAX ==> bytes[start] * 0x100_0000 + bytes[start + 1] * 0x1_0000
        + bytes[start + 2] * 0x100 + bytes[start + 3] == payload.len() + 4
    &&& bytes[start + 4] == 0x64
    &&& bytes[start + 5] == 0x39
    &&& bytes[start + 6] == 0xd3
    &&& bytes[start + 7] == 0xd1
    &&& bytes.subrange(start + 8, end) == payload
    &&& bytes.subrange(end, end + 4) == be32(crc32(bytes.subrange(start + 4, end)))
}

/// Whether a descriptor tells where a record is, in the file of a UUID, and how many rows it
/// holds.
pub open spec fn tells(
    descriptor: DeletionVectorDescriptor,
    uuid: Seq<u8>,
    start: int,
    payload: Seq<u8>,
    num_rows: nat,
) -> bool {
    &&& descriptor.storage_type is UuidRelativePath
    &&& z85_decoded(descriptor.path_or_inline_dv@) == Some(uuid)
    &&& descriptor.offset is Some
    &&& start <= i32::MAX ==> descriptor.offset->0 == start
    &&& payload.len() + 4 <= i32::MAX ==> descriptor.size_in_bytes == payload.len() + 4
    &&& num_rows <= i64::MAX ==> descriptor.cardinality == num_rows
    &&& start <= u64::MAX ==> (start - descriptor.offset->0) % 0x1_0000_0000 == 0
    &&& payload.len() + 4 <= u64::MAX ==> (payload.len() + 4 - descriptor.size_in_bytes)
        % 0x1_0000_0000 == 0
}

/// Whether no later entry has the name of an entry.
pub open spec fn is_last<V>(entries: Seq<(String, V)>, i: int) -> bool {
    &&& 0 <= i < entries.len()
    &&& forall|j: int| i < j < entries.len() ==> (#[trigger] entries[j]).0@ != entries[i].0@
}

/// The serialized treemaps.
pub open spec fn treemap_payloads(entries: Seq<(String, RoaringTreemap)>) -> Seq<Seq<u8>> {
    Seq::new(entries.len(), |i: int| treemap_portable(treemap_rows(entries[i].1)))
}

/// The serialized bitmaps.
pub open spec fn bitmap_payloads(entries: Seq<(String, RoaringBitmap)>) -> Seq<Seq<u8>> {
    Seq::new(entries.len(), |i: int| bitmap_portable(bitmap_rows(entries[i].1)))
}

/// A file of treemaps holds a version byte and one record for each vector, in their order and with
/// nothing in between or behind.
pub proof fn law_treemap_file_layout(
    uuid: &[u8; 16],
    entries: Vec<(String, RoaringTreemap)>,
    written: DeltaResult<(StringHashMap<DeletionVectorDescriptor>, Bytes)>,
    i: int,
)
    requires
        call_ensures(deletion_vectors::write_deletion_vectors_file, (uuid, entries), written),
    ensures
        written matches Ok((descriptors, bytes)) && {
            let payloads = treemap_payloads(entries@);
            &&& frozen_bytes(bytes).len() == place(payloads, entries@.len() as int)
            &&& frozen_bytes(bytes)[0] == 1
            &&& 0 <= i < entries@.len() ==> record_is_at(
                frozen_bytes(bytes),
                place(payloads, i),
                payloads[i],
            )
        },
{
    let vectors = deletion_vectors::treemap_vectors(entries@);
    let payloads = treemap_payloads(entries@);
    let bytes = written->Ok_0.1;
    assert(frozen_bytes(bytes) == file_bytes(vectors));
    lemma_layout(vectors, payloads, vectors.len() as int);
    assert(vectors.take(vectors.len() as int) =~= vectors);
    if 0 <= i < entries@.len() {
        lemma_layout(vectors, payloads, i);
        lemma_record_is_at(vectors, i);
    }
}

/// For each data file there is a descriptor, and for no other. It tells where the last treemap of
/// that name is.
pub proof fn law_treemap_file_descriptors(
    uuid: &[u8; 16],
    entries: Vec<(String, RoaringTreemap)>,
    written: DeltaResult<(StringHashMap<DeletionVectorDescriptor>, Bytes)>,
    i: int,
    name: Seq<char>,
)
    requires
        call_ensures(deletion_vectors::write_deletion_vectors_file, (uuid, entries), written),
    ensures
        written matches Ok((descriptors, bytes)) && {
            let payloads = treemap_payloads(entries@);
            &&& descriptors@.contains_key(name) <==> exists|k: int|
                0 <= k < entries@.len() && (#[trigger] entries@[k]).0@ == name
            &&& is_last(entries@, i) ==> descriptors@.contains_key(entries@[i].0@) && tells(
                descriptors@[entries@[i].0@],
                uuid@,
                place(payloads, i),
                payloads[i],
                treemap_rows(entries@[i].1).len(),
            )
        },
{
    let descriptors = written->Ok_0.0@;
    lemma_descriptors(
        descriptors,
        uuid@,
        deletion_vectors::treemap_vectors(entries@),
        entries@,
        treemap_payloads(entries@),
        i,
        name,
    );
}

/// A file of bitmaps holds a version byte and one record for each vector, in their order and with
/// nothing in between or behind.
pub proof fn law_bitmap_file_layout(
    uuid: &[u8; 16],
    entries: Vec<(String, RoaringBitmap)>,
    written: DeltaResult<(StringHashMap<DeletionVectorDescriptor>, Bytes)>,
    i: int,
)
    requires
        call_ensures(vector_file::write_deletion_vectors_file, (uuid, entries), written),
    ensures
        written matches Ok((descriptors, bytes)) && {
            let payloads = bitmap_payloads(entries@);
            &&& frozen_bytes(bytes).len() == place(payloads, entries@.len() as int)
            &&& frozen_bytes(bytes)[0] == 1
            &&& 0 <= i < entries@.len() ==> record_is_at(
                frozen_bytes(bytes),
                place(payloads, i),
                payloads[i],
            )
        },
{
    let vectors = vector_file::bitmap_vectors(entries@);
    let payloads = bitmap_payloads(entries@);
    let bytes = written->Ok_0.1;
    assert(frozen_bytes(bytes) == file_bytes(vectors));
    lemma_layout(vectors, payloads, vectors.len() as int);
    assert(vectors.take(vectors.len() as int) =~= vectors);
    if 0 <= i < entries@.len() {
        lemma_layout(vectors, payloads, i);
        lemma_record_is_at(vectors, i);
    }
}

/// For each data file there is a descriptor, and for no other. It tells where the last bitmap of
/// that name is.
pub proof fn law_bitmap_file_descriptors(
    uuid: &[u8; 16],
    entries: Vec<(String, RoaringBitmap)>,
    written: DeltaResult<(StringHashMap<DeletionVectorDescriptor>, Bytes)>,
    i: int,
    name: Seq<char>,
)
    requires
        call_ensures(vector_file::write_deletion_vectors_file, (uuid, entries), written),
    ensures
        written matches Ok((descriptors, bytes)) && {
            let payloads = bitmap_payloads(entries@);
            &&& descriptors@.contains_key(name) <==> exists|k: int|
                0 <= k < entries@.len() && (#[trigger] entries@[k]).0@ == name
            &&& is_last(entries@, i) ==> descriptors@.contains_key(entries@[i].0@) && tells(
                descriptors@[entries@[i].0@],
                uuid@,
                place(payloads, i),
                payloads[i],
                bitmap_rows(entries@[i].1).len(),
            )
        },
{
    let descriptors = written->Ok_0.0@;
    lemma_descriptors(
        descriptors,
        uuid@,
        vector_file::bitmap_vectors(entries@),
        entries@,
        bitmap_payloads(entries@),
        i,
        name,
    );
}

/// Every treemap that roaring's own operations have made can be written, as long as an allocation
/// can have the length of the file.
pub proof fn law_treemap_file_can_be_written(
    uuid: &[u8; 16],
    entries: Vec<(String, RoaringTreemap)>,
)
    requires
        forall|k: int|
            0 <= k < entries@.len() ==> treemap_canonical((#[trigger] entries@[k]).1),
        place(treemap_payloads(entries@), entries@.len() as int) <= isize::MAX,
    ensures
        call_requires(deletion_vectors::write_deletion_vectors_file, (uuid, entries)),
{
    let vectors = deletion_vectors::treemap_vectors(entries@);
    lemma_layout(vectors, treemap_payloads(entries@), vectors.len() as int);
    assert(vectors.take(vectors.len() as int) =~= vectors);
}

/// A treemap is read back: the reader accepts the descriptor that the writer gave out, and gives
/// the rows of the vector that was written, in a form that can be written again.
pub proof fn law_treemap_is_read_back(
    uuid: &[u8; 16],
    entries: Vec<(String, RoaringTreemap)>,
    written: DeltaResult<(StringHashMap<DeletionVectorDescriptor>, Bytes)>,
    i: int,
    bytes: &[u8],
    descriptor: &DeletionVectorDescriptor,
    read: Result<RoaringTreemap, std::io::Error>,
)
    requires
        call_ensures(deletion_vectors::write_deletion_vectors_file, (uuid, entries), written),
        is_last(entries@, i),
        place(treemap_payloads(entries@), i) <= i32::MAX,
        treemap_portable(treemap_rows(entries@[i].1)).len() + 4 <= i32::MAX,
        written matches Ok((descriptors, file)) && bytes@ == frozen_bytes(file) && *descriptor
            == descriptors@[entries@[i].0@],
        call_ensures(deletion_vectors::deserialize_deletion_vector, (bytes, descriptor), read),
    ensures
        call_requires(deletion_vectors::deserialize_deletion_vector, (bytes, descriptor)),
        read matches Ok(treemap) && treemap_rows(treemap) == treemap_rows(entries@[i].1)
            && treemap_canonical(treemap),
{
    let vectors = deletion_vectors::treemap_vectors(entries@);
    lemma_layout(vectors, treemap_payloads(entries@), i);
    lemma_last(vectors, entries@, i);
    lemma_record_len(vectors[i].payload);
    assert(entries@[i].0@ == vectors[i].name);
    assert(is_addressable(vectors, i));
}

/// Every bitmap that roaring's own operations have made can be written, as long as an allocation
/// can have the length of the file.
pub proof fn law_bitmap_file_can_be_written(uuid: &[u8; 16], entries: Vec<(String, RoaringBitmap)>)
    requires
        forall|k: int|
            0 <= k < entries@.len() ==> bitmap_canonical((#[trigger] entries@[k]).1),
        place(bitmap_payloads(entries@), entries@.len() as int) <= isize::MAX,
    ensures
        call_requires(vector_file::write_deletion_vectors_file, (uuid, entries)),
{
    let vectors = vector_file::bitmap_vectors(entries@);
    lemma_layout(vectors, bitmap_payloads(entries@), vectors.len() as int);
    assert(vectors.take(vectors.len() as int) =~= vectors);
}

/// A bitmap is read back: the reader accepts the descriptor that the writer gave out, and gives
/// the rows of the vector that was written, in a form that can be written again.
pub proof fn law_bitmap_is_read_back(
    uuid: &[u8; 16],
    entries: Vec<(String, RoaringBitmap)>,
    written: DeltaResult<(StringHashMap<DeletionVectorDescriptor>, Bytes)>,
    i: int,
    bytes: &[u8],
    descriptor: &DeletionVectorDescriptor,
    read: Result<RoaringBitmap, std::io::Error>,
)
    requires
        call_ensures(vector_file::write_deletion_vectors_file, (uuid, entries), written),
        is_last(entries@, i),
        place(bitmap_payloads(entries@), i) <= i32::MAX,
        bitmap_portable(bitmap_rows(entries@[i].1)).len() + 4 <= i32::MAX,
        written matches Ok((descriptors, file)) && bytes@ == frozen_bytes(file) && *descriptor
            == descriptors@[entries@[i].0@],
        call_ensures(vector_file::deserialize_deletion_vector, (bytes, descriptor), read),
    ensures
        call_requires(vector_file::deserialize_deletion_vector, (bytes, descriptor)),
        read matches Ok(bitmap) && bitmap_rows(bitmap) == bitmap_rows(entries@[i].1)
            && bitmap_canonical(bitmap),
{
    let vectors = vector_file::bitmap_vectors(entries@);
    lemma_layout(vectors, bitmap_payloads(entries@), i);
    lemma_last(vectors, entries@, i);
    lemma_record_len(vectors[i].payload);
    assert(entries@[i].0@ == vectors[i].name);
    assert(is_addressable(vectors, i));
}

/// One more treemap is appended to a buffer as a record, and what was in the buffer stays. It is
/// told where the record starts, how large its content is, and how many rows it holds.
pub proof fn law_treemap_is_appended(
    buffer: &mut BytesMut,
    vector: &RoaringTreemap,
    written: Result<PartialDeletionVectorDescriptor, std::io::Error>,
)
    requires
        call_ensures(deletion_vectors::write_deletion_vector, (buffer, vector), written),
    ensures
        written matches Ok(partial) && {
            let before = buffer_bytes(*old(buffer));
            let after = buffer_bytes(*final(buffer));
            let payload = treemap_portable(treemap_rows(*vector));
            &&& after.len() == before.len() + 12 + payload.len()
            &&& after.take(before.len() as int) == before
            &&& record_is_at(after, before.len() as int, payload)
            &&& before.len() <= i32::MAX ==> partial.offset == before.len()
            &&& before.len() <= u64::MAX ==> (before.len() - partial.offset) % 0x1_0000_0000 == 0
            &&& payload.len() + 4 <= u64::MAX ==> (payload.len() + 4 - partial.size_in_bytes)
                % 0x1_0000_0000 == 0
            &&& payload.len() + 4 <= i32::MAX ==> partial.size_in_bytes == payload.len() + 4
            &&& treemap_rows(*vector).len() <= i64::MAX ==> partial.cardinality == treemap_rows(
                *vector,
            ).len()
        },
{
    let before = buffer_bytes(*old(buffer));
    let after = buffer_bytes(*final(buffer));
    let payload = treemap_portable(treemap_rows(*vector));
    lemma_record_len(payload);
    assert(after == before + record(payload));
    assert(after.take(before.len() as int) =~= before);
    assert(after.subrange(before.len() as int, after.len() as int) =~= record(payload));
    lemma_record_parts(after, before.len() as int, payload);
    if before.len() <= u64::MAX {
        lemma_low_bits(before.len() as u64);
    }
    if payload.len() + 4 <= u64::MAX {
        lemma_low_bits((payload.len() + 4) as u64);
    }
}

/// One more bitmap is appended to a buffer as a record, and what was in the buffer stays. It is
/// told where the record starts, how large its content is, and how many rows it holds.
pub proof fn law_bitmap_is_appended(
    buffer: &mut BytesMut,
    vector: &RoaringBitmap,
    written: Result<PartialDeletionVectorDescriptor, std::io::Error>,
)
    requires
        call_ensures(vector_file::write_deletion_vector, (buffer, vector), written),
    ensures
        written matches Ok(partial) && {
            let before = buffer_bytes(*old(buffer));
            let after = buffer_bytes(*final(buffer));
            let payload = bitmap_portable(bitmap_rows(*vector));
            &&& after.len() == before.len() + 12 + payload.len()
            &&& after.take(before.len() as int) == before
            &&& record_is_at(after, before.len() as int, payload)
            &&& before.len() <= i32::MAX ==> partial.offset == before.len()
            &&& before.len() <= u64::MAX ==> (before.len() - partial.offset) % 0x1_0000_0000 == 0
            &&& payload.len() + 4 <= u64::MAX ==> (payload.len() + 4 - partial.size_in_bytes)
                % 0x1_0000_0000 == 0
            &&& payload.len() + 4 <= i32::MAX ==> partial.size_in_bytes == payload.len() + 4
            &&& bitmap_rows(*vector).len() <= i64::MAX ==> partial.cardinality == bitmap_rows(
                *vector,
            ).len()
        },
{
    let before = buffer_bytes(*old(buffer));
    let after = buffer_bytes(*final(buffer));
    let payload = bitmap_portable(bitmap_rows(*vector));
    lemma_record_len(payload);
    assert(after == before + record(payload));
    assert(after.take(before.len() as int) =~= before);
    assert(after.subrange(before.len() as int, after.len() as int) =~= record(payload));
    lemma_record_parts(after, before.len() as int, payload);
    if before.len() <= u64::MAX {
        lemma_low_bits(before.len() as u64);
    }
    if payload.len() + 4 <= u64::MAX {
        lemma_low_bits((payload.len() + 4) as u64);
    }
}

/// Where a descriptor says that a vector starts.
pub open spec fn said_offset(descriptor: DeletionVectorDescriptor) -> int {
    match descriptor.offset {
        Some(offset) => offset as int,
        None => 0,
    }
}

/// A treemap is read from behind the size and the magic number of its record.
pub proof fn law_treemap_is_read_at_its_place(
    bytes: &[u8],
    descriptor: &DeletionVectorDescriptor,
    read: Result<RoaringTreemap, std::io::Error>,
)
    requires
        call_ensures(deletion_vectors::deserialize_deletion_vector, (bytes, descriptor), read),
    ensures
        ({
            let start = said_offset(*descriptor) + 8;
            let decoded = treemap_decoded(
                bytes@.subrange(start, start + descriptor.size_in_bytes),
            );
            match read {
                Ok(treemap) => decoded == Some(treemap_rows(treemap)),
                Err(_) => decoded is None,
            }
        }),
{
}

/// A bitmap is read from behind the size and the magic number of its record.
pub proof fn law_bitmap_is_read_at_its_place(
    bytes: &[u8],
    descriptor: &DeletionVectorDescriptor,
    read: Result<RoaringBitmap, std::io::Error>,
)
    requires
        call_ensures(vector_file::deserialize_deletion_vector, (bytes, descriptor), read),
    ensures
        ({
            let start = said_offset(*descriptor) + 8;
            let decoded = bitmap_decoded(
                bytes@.subrange(start, start + descriptor.size_in_bytes - 4),
            );
            match read {
                Ok(bitmap) => decoded == Some(bitmap_rows(bitmap)),
                Err(_) => decoded is None,
            }
        }),
{
}

/// A vector can be read just where all that its descriptor speaks of is there.
pub proof fn law_vector_lies_within(
    descriptor: &DeletionVectorDescriptor,
    len: usize,
    within: bool,
    bytes: &[u8],
)
    requires
        call_ensures(deletion_vectors::deletion_vector_lies_within, (descriptor, len), within),
        bytes@.len() == len,
    ensures
        within <==> said_offset(*descriptor) >= 0 && descriptor.size_in_bytes >= 0 && said_offset(
            *descriptor,
        ) + 8 + descriptor.size_in_bytes <= len,
        within ==> call_requires(
            deletion_vectors::deserialize_deletion_vector,
            (bytes, descriptor),
        ),
{
}

/// A deletion vector holds just the row numbers that it is made of, and can be written.
pub proof fn law_vector_of_rows(rows: Vec<u64>, vector: RoaringTreemap, row: u64)
    requires
        call_ensures(deletion_vectors::deletion_vector_from_rows, (rows,), vector),
    ensures
        treemap_rows(vector).contains(row) <==> exists|i: int|
            0 <= i < rows@.len() && #[trigger] rows@[i] == row,
        treemap_canonical(vector),
{
    if treemap_rows(vector).contains(row) {
        let i = rows@.index_of(row);
        assert(rows@[i] == row);
    }
    if exists|i: int| 0 <= i < rows@.len() && #[trigger] rows@[i] == row {
        assert(rows@.contains(row));
    }
}

/// The serialized sets of rows.
pub open spec fn row_payloads(entries: Seq<(String, Vec<u64>)>) -> Seq<Seq<u8>> {
    Seq::new(entries.len(), |i: int| treemap_portable(entries[i].1@.to_set()))
}

/// There is a file of deleted rows just where an allocation can have its length, and then it holds
/// a record for each set of rows.
pub proof fn law_deleted_rows_file_layout(
    uuid: &[u8; 16],
    entries: Vec<(String, Vec<u64>)>,
    written: Option<DeltaResult<(StringHashMap<DeletionVectorDescriptor>, Bytes)>>,
    i: int,
)
    requires
        call_ensures(deletion_vectors::write_deleted_rows_file, (uuid, entries), written),
    ensures
        written is Some <==> place(row_payloads(entries@), entries@.len() as int) <= isize::MAX,
        written matches Some(written) ==> (written matches Ok((descriptors, bytes)) && {
            let payloads = row_payloads(entries@);
            &&& frozen_bytes(bytes).len() == place(payloads, entries@.len() as int)
            &&& frozen_bytes(bytes)[0] == 1
            &&& 0 <= i < entries@.len() ==> record_is_at(
                frozen_bytes(bytes),
                place(payloads, i),
                payloads[i],
            )
        }),
{
    let vectors = deletion_vectors::row_vectors(entries@);
    let payloads = row_payloads(entries@);
    lemma_layout(vectors, payloads, vectors.len() as int);
    assert(vectors.take(vectors.len() as int) =~= vectors);
    if 0 <= i < entries@.len() {
        lemma_layout(vectors, payloads, i);
        lemma_record_is_at(vectors, i);
    }
}

/// For each data file with deleted rows there is a descriptor, and for no other. It tells where
/// the last set of rows of that name is.
pub proof fn law_deleted_rows_file_descriptors(
    uuid: &[u8; 16],
    entries: Vec<(String, Vec<u64>)>,
    written: Option<DeltaResult<(StringHashMap<DeletionVectorDescriptor>, Bytes)>>,
    i: int,
    name: Seq<char>,
)
    requires
        call_ensures(deletion_vectors::write_deleted_rows_file, (uuid, entries), written),
    ensures
        written matches Some(written) ==> (written matches Ok((descriptors, bytes)) && {
            let payloads = row_payloads(entries@);
            &&& descriptors@.contains_key(name) <==> exists|k: int|
                0 <= k < entries@.len() && (#[trigger] entries@[k]).0@ == name
            &&& is_last(entries@, i) ==> descriptors@.contains_key(entries@[i].0@) && tells(
                descriptors@[entries@[i].0@],
                uuid@,
                place(payloads, i),
                payloads[i],
                entries@[i].1@.to_set().len(),
            )
        }),
{
    if written is Some {
        let descriptors = written->0->Ok_0.0@;
        lemma_descriptors(
            descriptors,
            uuid@,
            deletion_vectors::row_vectors(entries@),
            entries@,
            row_payloads(entries@),
            i,
            name,
        );
    }
}

/// From end to end: rows of a data file are written, the vector is read back by its descriptor,
/// and of each row that is read it is told whether it is deleted. It is told to be just where its
/// number is among the rows that were written.
pub proof fn law_written_rows_are_told_to_be_deleted(
    uuid: &[u8; 16],
    entries: Vec<(String, Vec<u64>)>,
    written: Option<DeltaResult<(StringHashMap<DeletionVectorDescriptor>, Bytes)>>,
    i: int,
    bytes: &[u8],
    descriptor: &DeletionVectorDescriptor,
    read: Result<RoaringTreemap, std::io::Error>,
    vector: &RoaringTreemap,
    row_numbers: &Vec<Option<u64>>,
    num_rows: usize,
    column: &str,
    flags: Result<Vec<Option<bool>>, SchemaError>,
    k: int,
)
    requires
        call_ensures(deletion_vectors::write_deleted_rows_file, (uuid, entries), written),
        is_last(entries@, i),
        place(row_payloads(entries@), i) <= i32::MAX,
        treemap_portable(entries@[i].1@.to_set()).len() + 4 <= i32::MAX,
        written matches Some(Ok((descriptors, file))) && bytes@ == frozen_bytes(file)
            && *descriptor == descriptors@[entries@[i].0@],
        call_ensures(deletion_vectors::deserialize_deletion_vector, (bytes, descriptor), read),
        read matches Ok(treemap) ==> treemap == *vector,
        call_ensures(
            deleted_flags,
            (Some(vector), Some(row_numbers), num_rows, column),
            flags,
        ),
        0 <= k < row_numbers@.len(),
    ensures
        call_requires(deletion_vectors::deserialize_deletion_vector, (bytes, descriptor)),
        read is Ok,
        flags matches Ok(flags) && (flags@[k] == Some(true) <==> (row_numbers@[k] matches Some(row)
            && entries@[i].1@.contains(row))),
{
    let vectors = deletion_vectors::row_vectors(entries@);
    lemma_layout(vectors, row_payloads(entries@), i);
    lemma_last(vectors, entries@, i);
    lemma_record_len(vectors[i].payload);
    assert(entries@[i].0@ == vectors[i].name);
    assert(is_addressable(vectors, i));
    let rows = entries@[i].1@;
    assert(treemap_rows(*vector) == rows.to_set());
}

proof fn lemma_tells(
    descriptor: DeletionVectorDescriptor,
    uuid: Seq<u8>,
    vectors: Seq<NamedVector>,
    i: int,
)
    requires
        0 <= i < vectors.len(),
        describes(descriptor, uuid, vector_descriptor(vectors, i)),
        z85_decoded(descriptor.path_or_inline_dv@) == Some(uuid),
    ensures
        tells(
            descriptor,
            uuid,
            record_start(vectors, i) as int,
            vectors[i].payload,
            vectors[i].cardinality,
        ),
{
    lemma_record_len(vectors[i].payload);
    let start = record_start(vectors, i);
    let size = vectors[i].payload.len() + 4;
    if start <= u64::MAX {
        lemma_low_bits(start as u64);
    }
    if size <= u64::MAX {
        lemma_low_bits(size as u64);
    }
}

/// What is left of a number in 32 bits differs from it by a multiple of 2^32.
proof fn lemma_low_bits(number: u64)
    ensures
        (number as int - (number as i32) as int) % 0x1_0000_0000 == 0,
{
    let low = number as i32;
    assert((low as u32) as u64 == number % 0x1_0000_0000u64) by (bit_vector)
        requires
            low == number as i32,
    ;
    assert(low < 0 ==> (low as u32) as int == low + 0x1_0000_0000) by (bit_vector);
    assert(low >= 0 ==> (low as u32) as int == low) by (bit_vector);
}

proof fn lemma_descriptors<V>(
    descriptors: Map<Seq<char>, DeletionVectorDescriptor>,
    uuid: Seq<u8>,
    vectors: Seq<NamedVector>,
    entries: Seq<(String, V)>,
    payloads: Seq<Seq<u8>>,
    i: int,
    name: Seq<char>,
)
    requires
        describe_file(descriptors, uuid, vectors),
        forall|name: Seq<char>| #[trigger]
            descriptors.contains_key(name) ==> z85_decoded(descriptors[name].path_or_inline_dv@)
                == Some(uuid),
        vectors.len() == entries.len(),
        vectors.len() == payloads.len(),
        forall|k: int| 0 <= k < vectors.len() ==> (#[trigger] vectors[k]).name == entries[k].0@,
        forall|k: int| 0 <= k < vectors.len() ==> (#[trigger] vectors[k]).payload == payloads[k],
    ensures
        descriptors.contains_key(name) <==> exists|k: int|
            0 <= k < entries.len() && (#[trigger] entries[k]).0@ == name,
        is_last(entries, i) ==> descriptors.contains_key(entries[i].0@) && tells(
            descriptors[entries[i].0@],
            uuid,
            place(payloads, i),
            payloads[i],
            vectors[i].cardinality,
        ),
{
    lemma_names(vectors, entries, name);
    if is_last(entries, i) {
        lemma_last(vectors, entries, i);
        lemma_layout(vectors, payloads, i);
        assert(entries[i].0@ == vectors[i].name);
        assert(has_vector(vectors, vectors[i].name));
        assert(descriptors.contains_key(vectors[i].name));
        lemma_tells(descriptors[vectors[i].name], uuid, vectors, i);
    }
}

pub(crate) proof fn lemma_layout(vectors: Seq<NamedVector>, payloads: Seq<Seq<u8>>, i: int)
    requires
        vectors.len() == payloads.len(),
        forall|k: int| 0 <= k < vectors.len() ==> (#[trigger] vectors[k]).payload == payloads[k],
        0 <= i <= vectors.len(),
    ensures
        file_bytes(vectors.take(i)).len() == place(payloads, i),
        file_bytes(vectors.take(i))[0] == 1,
        file_bytes(vectors.take(i)).len() >= 1,
    decreases i,
{
    if i == 0 {
        assert(vectors.take(0) =~= Seq::empty());
    } else {
        lemma_layout(vectors, payloads, i - 1);
        lemma_file_step(vectors, i - 1);
        lemma_record_len(vectors[i - 1].payload);
    }
}

proof fn lemma_record_is_at(vectors: Seq<NamedVector>, i: int)
    requires
        0 <= i < vectors.len(),
    ensures
        record_is_at(file_bytes(vectors), record_start(vectors, i) as int, vectors[i].payload),
{
    let payload = vectors[i].payload;
    let start = record_start(vectors, i) as int;
    let bytes = file_bytes(vectors);
    lemma_record_position(vectors, i);
    lemma_record_len(payload);
    lemma_record_parts(bytes, start, payload);
}

proof fn lemma_record_parts(bytes: Seq<u8>, start: int, payload: Seq<u8>)
    requires
        0 <= start,
        start + record(payload).len() <= bytes.len(),
        bytes.subrange(start, start + record(payload).len()) == record(payload),
    ensures
        record_is_at(bytes, start, payload),
{
    lemma_record_len(payload);
    let size = be32((payload.len() + 4) as u32);
    let magic = be32(1681511377);
    lemma_parts(bytes, start, size, magic, payload, be32(crc32(magic + payload)));
    assert forall|k: int| 0 <= k < 4 implies bytes[start + k] == #[trigger] size[k] by {
        assert(bytes.subrange(start, start + 4)[k] == size[k]);
    }
    assert forall|k: int| 0 <= k < 4 implies bytes[start + 4 + k] == #[trigger] magic[k] by {
        assert(bytes.subrange(start + 4, start + 8)[k] == magic[k]);
    }
    assert(bytes[start] == size[0] && bytes[start + 1] == size[1] && bytes[start + 2] == size[2]
        && bytes[start + 3] == size[3]);
    assert(bytes[start + 4] == magic[0] && bytes[start + 5] == magic[1] && bytes[start + 6]
        == magic[2] && bytes[start + 7] == magic[3]);
    lemma_be32((payload.len() + 4) as u32);
}

proof fn lemma_be32(n: u32)
    ensures
        be32(n)[0] * 0x100_0000 + be32(n)[1] * 0x1_0000 + be32(n)[2] * 0x100 + be32(n)[3] == n,
{
}

proof fn lemma_names<V>(vectors: Seq<NamedVector>, entries: Seq<(String, V)>, name: Seq<char>)
    requires
        vectors.len() == entries.len(),
        forall|k: int| 0 <= k < vectors.len() ==> (#[trigger] vectors[k]).name == entries[k].0@,
    ensures
        has_vector(vectors, name) <==> exists|k: int|
            0 <= k < entries.len() && (#[trigger] entries[k]).0@ == name,
{
    if has_vector(vectors, name) {
        let k = choose|k: int| 0 <= k < vectors.len() && (#[trigger] vectors[k]).name == name;
        assert(entries[k].0@ == name);
    }
    if exists|k: int| 0 <= k < entries.len() && (#[trigger] entries[k]).0@ == name {
        let k = choose|k: int| 0 <= k < entries.len() && (#[trigger] entries[k]).0@ == name;
        assert(vectors[k].name == name);
    }
}

proof fn lemma_last<V>(vectors: Seq<NamedVector>, entries: Seq<(String, V)>, i: int)
    requires
        vectors.len() == entries.len(),
        forall|k: int| 0 <= k < vectors.len() ==> (#[trigger] vectors[k]).name == entries[k].0@,
        is_last(entries, i),
    ensures
        is_last_of_name(vectors, i),
{
    assert forall|j: int| i < j < vectors.len() implies (#[trigger] vectors[j]).name
        != vectors[i].name by {
        assert(entries[j].0@ != entries[i].0@);
    }
}

} // verus!
