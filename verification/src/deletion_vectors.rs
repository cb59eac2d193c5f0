//! Deletion vectors over 64-bit row numbers: writing them to a file and reading them back.

use bytes::{Bytes, BytesMut};
use roaring::RoaringTreemap;
use vstd::hash_map::StringHashMap;
use vstd::prelude::*;
use vstd::slice::slice_subrange;

use crate::errors::{DeltaResult, DeltaTableError};
use crate::external::{
    buffer_bytes, frozen_bytes, put_u8, treemap_canonical, treemap_decoded, treemap_deserialize,
    treemap_from_rows, treemap_portable, treemap_reads_back, treemap_rows, treemap_serialize,
    z85_decoded,
};
use crate::format::{
    begin_record, content, describe_file, described_bytes, described_payload, descriptor_in_file,
    end_record, file_bytes, grown_file_len, holds_record, holds_vectors, is_addressable,
    is_last_of_name, lemma_describe_file_step, lemma_descriptor_leads_to_record,
    lemma_descriptor_leads_to_vector, lemma_file_holds_vectors, lemma_file_step, lemma_record_len,
    lies_within, partial_descriptor, points_at, record, vector_descriptor, NamedVector,
    PartialDeletionVectorDescriptor, CHECKSUM_SIZE, DATA_SIZE_SIZE,
    DELETION_VECTOR_FILE_FORMAT_VERSION_1, MAGIC_SIZE, VERSION_SIZE,
};
use crate::kernel::DeletionVectorDescriptor;

verus! {

/// A set of rows as a file holds it for a data file.
pub open spec fn rows_vector(name: Seq<char>, rows: Set<u64>) -> NamedVector {
    NamedVector { name, payload: treemap_portable(rows), cardinality: rows.len() }
}

/// The deletion vectors as a file holds them.
pub open spec fn treemap_vectors(deletion_vectors: Seq<(String, RoaringTreemap)>) -> Seq<
    NamedVector,
> {
    deletion_vectors.map_values(
        |entry: (String, RoaringTreemap)| rows_vector(entry.0@, treemap_rows(entry.1)),
    )
}

/// Whether a file holds these rows where a descriptor says.
pub open spec fn reads_as(
    bytes: Seq<u8>,
    descriptor: DeletionVectorDescriptor,
    rows: Set<u64>,
) -> bool {
    &&& lies_within(descriptor, bytes.len())
    &&& treemap_decoded(described_bytes(bytes, descriptor)) == Some(rows)
}

/// What is written is read back: where a vector's descriptor can tell where in the file the
/// vector is, it leads to the rows that the vector was made of.
pub proof fn lemma_written_vector_is_read_back(
    vectors: Seq<NamedVector>,
    i: int,
    descriptor: DeletionVectorDescriptor,
    rows: Set<u64>,
)
    requires
        0 <= i < vectors.len(),
        vectors[i].payload == treemap_portable(rows),
        treemap_reads_back(rows),
        points_at(descriptor, vector_descriptor(vectors, i)),
        is_addressable(vectors, i),
    ensures
        reads_as(file_bytes(vectors), descriptor, rows),
{
    lemma_descriptor_leads_to_vector(vectors, i, descriptor);
}

/// A deletion vector of row numbers, in any order and with any repetitions.
pub fn deletion_vector_from_rows(rows: Vec<u64>) -> (deletion_vector: RoaringTreemap)
    ensures
        treemap_rows(deletion_vector) == rows@.to_set(),
        treemap_canonical(deletion_vector),
{
    treemap_from_rows(rows)
}

/// Appends a record with a deletion vector to a buffer.
pub fn write_deletion_vector(buffer: &mut BytesMut, deletion_vector: &RoaringTreemap) -> (written:
    Result<PartialDeletionVectorDescriptor, std::io::Error>)
    requires
        treemap_canonical(*deletion_vector),
        buffer_bytes(*old(buffer)).len() + record(
            treemap_portable(treemap_rows(*deletion_vector)),
        ).len() <= isize::MAX,
    ensures
        written == Ok::<PartialDeletionVectorDescriptor, std::io::Error>(
            partial_descriptor(
                buffer_bytes(*old(buffer)).len(),
                treemap_portable(treemap_rows(*deletion_vector)),
                treemap_rows(*deletion_vector).len(),
            ),
        ),
        buffer_bytes(*final(buffer)) == buffer_bytes(*old(buffer)) + record(
            treemap_portable(treemap_rows(*deletion_vector)),
        ),
        treemap_reads_back(treemap_rows(*deletion_vector)),
        forall|descriptor: DeletionVectorDescriptor|
            points_at(descriptor, written->Ok_0) && buffer_bytes(*old(buffer)).len() <= i32::MAX
                && content(treemap_portable(treemap_rows(*deletion_vector))).len()
                <= i32::MAX ==> #[trigger] reads_as(
                buffer_bytes(*final(buffer)),
                descriptor,
                treemap_rows(*deletion_vector),
            ),
        forall|descriptor: DeletionVectorDescriptor|
            points_at(descriptor, written->Ok_0) && buffer_bytes(*old(buffer)).len() <= i32::MAX
                && content(treemap_portable(treemap_rows(*deletion_vector))).len()
                <= i32::MAX ==> #[trigger] holds_record(
                buffer_bytes(*final(buffer)),
                descriptor,
                treemap_portable(treemap_rows(*deletion_vector)),
            ),
{
    let ghost before = buffer_bytes(*buffer);
    let ghost payload = treemap_portable(treemap_rows(*deletion_vector));
    proof {
        lemma_record_len(payload);
    }
    let offset: usize = buffer.len();
    let cardinality: u64 = deletion_vector.len();
    let size: usize = deletion_vector.serialized_size();
    begin_record(buffer, size);
    match treemap_serialize(deletion_vector, buffer) {
        Ok(()) => {},
        Err(err) => return Err(err),
    }
    let partial = end_record(buffer, offset, size, cardinality, Ghost(before), Ghost(payload));
    proof {
        let after = buffer_bytes(*buffer);
        assert(after.subrange(before.len() as int, after.len() as int) =~= record(payload));
        assert forall|descriptor: DeletionVectorDescriptor|
            points_at(descriptor, partial) && before.len() <= i32::MAX && content(payload).len()
                <= i32::MAX implies #[trigger] holds_record(after, descriptor, payload) && reads_as(
            after,
            descriptor,
            treemap_rows(*deletion_vector),
        ) by {
            lemma_descriptor_leads_to_record(
                after,
                before.len(),
                payload,
                treemap_rows(*deletion_vector).len(),
                descriptor,
            );
        }
        assert forall|descriptor: DeletionVectorDescriptor|
            points_at(descriptor, partial) && before.len() <= i32::MAX && content(payload).len()
                <= i32::MAX implies #[trigger] reads_as(
            after,
            descriptor,
            treemap_rows(*deletion_vector),
        ) by {
            assert(holds_record(after, descriptor, payload));
        }
    }
    Ok(partial)
}

/// Writes deletion vectors to the file of a UUID. Of several vectors for one data file the last
/// one is described.
pub fn write_deletion_vectors_file(
    uuid: &[u8; 16],
    deletion_vectors: Vec<(String, RoaringTreemap)>,
) -> (written: DeltaResult<(StringHashMap<DeletionVectorDescriptor>, Bytes)>)
    requires
        forall|i: int|
            0 <= i < deletion_vectors@.len() ==> treemap_canonical(
                (#[trigger] deletion_vectors@[i]).1,
            ),
        file_bytes(treemap_vectors(deletion_vectors@)).len() <= isize::MAX,
    ensures
        written matches Ok((descriptors, bytes)) && {
            &&& frozen_bytes(bytes) == file_bytes(treemap_vectors(deletion_vectors@))
            &&& describe_file(descriptors@, uuid@, treemap_vectors(deletion_vectors@))
            &&& holds_vectors(
                frozen_bytes(bytes),
                descriptors@,
                treemap_vectors(deletion_vectors@),
            )
            &&& forall|name: Seq<char>| #[trigger]
                descriptors@.contains_key(name) ==> z85_decoded(
                    descriptors@[name].path_or_inline_dv@,
                ) == Some(uuid@)
            &&& forall|i: int|
                is_last_of_name(treemap_vectors(deletion_vectors@), i) && is_addressable(
                    treemap_vectors(deletion_vectors@),
                    i,
                ) ==> reads_as(
                    frozen_bytes(bytes),
                    descriptors@[(#[trigger] deletion_vectors@[i]).0@],
                    treemap_rows(deletion_vectors@[i].1),
                )
        },
{
    let ghost vectors = treemap_vectors(deletion_vectors@);
    let ghost entries = deletion_vectors@;
    let mut buffer_size: usize = VERSION_SIZE;
    assert(vectors.take(0) =~= Seq::empty());
    for i in 0..deletion_vectors.len()
        invariant
            entries == deletion_vectors@,
            vectors == treemap_vectors(entries),
            forall|j: int| 0 <= j < entries.len() ==> treemap_canonical((#[trigger] entries[j]).1),
            file_bytes(vectors).len() <= isize::MAX,
            buffer_size == file_bytes(vectors.take(i as int)).len(),
    {
        proof {
            lemma_file_step(vectors, i as int);
            lemma_record_len(vectors[i as int].payload);
        }
        let size: usize = deletion_vectors[i].1.serialized_size();
        buffer_size = buffer_size + (DATA_SIZE_SIZE + MAGIC_SIZE + CHECKSUM_SIZE) + size;
    }
    assert(vectors.take(vectors.len() as int) =~= vectors);
    let mut descriptors: StringHashMap<DeletionVectorDescriptor> = StringHashMap::new();
    let mut buffer = BytesMut::with_capacity(buffer_size);
    put_u8(&mut buffer, DELETION_VECTOR_FILE_FORMAT_VERSION_1);
    assert(buffer_bytes(buffer) =~= file_bytes(vectors.take(0)));
    for entry in iter: deletion_vectors
        invariant
            iter.seq() == entries,
            vectors == treemap_vectors(entries),
            forall|j: int| 0 <= j < entries.len() ==> treemap_canonical((#[trigger] entries[j]).1),
            forall|j: int|
                0 <= j < iter.index() ==> treemap_reads_back(
                    treemap_rows((#[trigger] entries[j]).1),
                ),
            file_bytes(vectors).len() <= isize::MAX,
            buffer_bytes(buffer) == file_bytes(vectors.take(iter.index())),
            describe_file(descriptors@, uuid@, vectors.take(iter.index())),
            forall|name: Seq<char>| #[trigger]
                descriptors@.contains_key(name) ==> z85_decoded(
                    descriptors@[name].path_or_inline_dv@,
                ) == Some(uuid@),
    {
        let ghost i = iter.index();
        let (file_name, deletion_vector) = entry;
        proof {
            lemma_file_step(vectors, i);
        }
        let partial = match write_deletion_vector(&mut buffer, &deletion_vector) {
            Ok(partial) => partial,
            Err(err) => return Err(DeltaTableError::Io(err)),
        };
        let ghost before = descriptors@;
        let descriptor = descriptor_in_file(uuid, partial);
        let ghost described = descriptor;
        descriptors.insert(file_name, descriptor);
        proof {
            lemma_describe_file_step(before, uuid@, vectors, i, described);
        }
    }
    assert(vectors.take(vectors.len() as int) =~= vectors);
    let ghost described = descriptors@;
    proof {
        lemma_file_holds_vectors(described, uuid@, vectors);
        assert forall|i: int|
            is_last_of_name(vectors, i) && is_addressable(vectors, i) implies reads_as(
            file_bytes(vectors),
            described[(#[trigger] entries[i]).0@],
            treemap_rows(entries[i].1),
        ) by {
            assert(vectors[i].name == entries[i].0@);
            lemma_written_vector_is_read_back(
                vectors,
                i,
                described[vectors[i].name],
                treemap_rows(entries[i].1),
            );
        }
    }
    Ok((descriptors, buffer.freeze()))
}

/// The sets of rows as a file holds them for the data files.
pub open spec fn row_vectors(deleted_rows: Seq<(String, Vec<u64>)>) -> Seq<NamedVector> {
    deleted_rows.map_values(
        |entry: (String, Vec<u64>)| rows_vector(entry.0@, entry.1@.to_set()),
    )
}

/// Writes the deleted rows of each data file to the file of a UUID, as
/// [`write_deletion_vectors_file`] does. There is no such file where an allocation cannot have
/// its length.
pub fn write_deleted_rows_file(
    uuid: &[u8; 16],
    deleted_rows: Vec<(String, Vec<u64>)>,
) -> (written: Option<DeltaResult<(StringHashMap<DeletionVectorDescriptor>, Bytes)>>)
    ensures
        written is Some <==> file_bytes(row_vectors(deleted_rows@)).len() <= isize::MAX,
        written matches Some(written) ==> (written matches Ok((descriptors, bytes)) && {
            &&& frozen_bytes(bytes) == file_bytes(row_vectors(deleted_rows@))
            &&& describe_file(descriptors@, uuid@, row_vectors(deleted_rows@))
            &&& holds_vectors(frozen_bytes(bytes), descriptors@, row_vectors(deleted_rows@))
            &&& forall|name: Seq<char>| #[trigger]
                descriptors@.contains_key(name) ==> z85_decoded(
                    descriptors@[name].path_or_inline_dv@,
                ) == Some(uuid@)
            &&& forall|i: int|
                is_last_of_name(row_vectors(deleted_rows@), i) && is_addressable(
                    row_vectors(deleted_rows@),
                    i,
                ) ==> reads_as(
                    frozen_bytes(bytes),
                    descriptors@[(#[trigger] deleted_rows@[i]).0@],
                    deleted_rows@[i].1@.to_set(),
                )
        }),
{
    let ghost entries = deleted_rows@;
    let ghost vectors = row_vectors(entries);
    let mut deletion_vectors: Vec<(String, RoaringTreemap)> = Vec::new();
    let mut len: usize = VERSION_SIZE;
    assert(vectors.take(0) =~= Seq::empty());
    for entry in iter: deleted_rows
        invariant
            iter.seq() == entries,
            vectors == row_vectors(entries),
            deletion_vectors@.len() == iter.index(),
            forall|j: int|
                0 <= j < iter.index() ==> {
                    &&& treemap_canonical((#[trigger] deletion_vectors@[j]).1)
                    &&& deletion_vectors@[j].0@ == entries[j].0@
                    &&& treemap_rows(deletion_vectors@[j].1) == entries[j].1@.to_set()
                },
            len == file_bytes(vectors.take(iter.index())).len(),
            len <= isize::MAX,
    {
        let ghost i = iter.index();
        let (file_name, rows) = entry;
        let deletion_vector = deletion_vector_from_rows(rows);
        let size: usize = deletion_vector.serialized_size();
        proof {
            lemma_file_step(vectors, i);
            lemma_record_len(vectors[i].payload);
        }
        match grown_file_len(len, size) {
            Some(grown) => {
                len = grown;
            },
            None => return None,
        }
        deletion_vectors.push((file_name, deletion_vector));
    }
    assert(vectors.take(vectors.len() as int) =~= vectors);
    assert(treemap_vectors(deletion_vectors@) =~= vectors);
    proof {
        assert forall|i: int| 0 <= i < entries.len() implies (#[trigger] entries[i]).0@
            == deletion_vectors@[i].0@ && entries[i].1@.to_set() == treemap_rows(
            deletion_vectors@[i].1,
        ) by {}
    }
    Some(write_deletion_vectors_file(uuid, deletion_vectors))
}

/// Whether the bytes that a descriptor speaks of are there, in a file of the given length.
pub fn deletion_vector_lies_within(descriptor: &DeletionVectorDescriptor, len: usize) -> (within:
    bool)
    ensures
        within == lies_within(*descriptor, len as nat),
{
    let offset: i32 = match descriptor.offset {
        Some(offset) => offset,
        None => 0,
    };
    if offset < 0 || descriptor.size_in_bytes < 0 {
        return false;
    }
    let end: u64 = offset as u64 + (DATA_SIZE_SIZE + MAGIC_SIZE) as u64
        + descriptor.size_in_bytes as u64;
    end <= len as u64
}

/// Reads the deletion vector that a descriptor speaks of from the bytes of its file. One that was
/// written by this module can be written again.
pub fn deserialize_deletion_vector(bytes: &[u8], descriptor: &DeletionVectorDescriptor) -> (read:
    Result<RoaringTreemap, std::io::Error>)
    requires
        lies_within(*descriptor, bytes@.len()),
    ensures
        match read {
            Ok(treemap) => {
                &&& reads_as(bytes@, *descriptor, treemap_rows(treemap))
                &&& holds_record(bytes@, *descriptor, treemap_portable(treemap_rows(treemap)))
                    ==> treemap_canonical(treemap)
            },
            Err(_) => treemap_decoded(described_bytes(bytes@, *descriptor)) is None,
        },
{
    let offset: usize = descriptor.offset.unwrap_or(0) as usize + MAGIC_SIZE
        + DATA_SIZE_SIZE;
    let length: usize = descriptor.size_in_bytes as usize;
    assert(bytes@.len() == bytes.len());
    let described = slice_subrange(bytes, offset, offset + length);
    proof {
        assert forall|payload: Seq<u8>| #[trigger]
            holds_record(bytes@, *descriptor, payload) implies payload.is_prefix_of(described@) by {
            assert(described@.subrange(0, payload.len() as int) =~= described_payload(
                bytes@,
                *descriptor,
            ));
        }
    }
    treemap_deserialize(described)
}

} // verus!
