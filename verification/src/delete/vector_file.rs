//! The deletion vector file that a delete writes, and what it says of it in the log.

use bytes::{Bytes, BytesMut};
use roaring::RoaringBitmap;
use vstd::hash_map::StringHashMap;
use vstd::prelude::*;
use vstd::set_lib::{lemma_len_subset, range_set_properties};
use vstd::slice::slice_subrange;

use crate::delete::marking::{
    all_collected, collected_wf, is_first_error, is_whole_of, marked_rows, marks_wf, merge_results,
    DeletionVectorMap, PartitionResult,
};
use crate::errors::{DeltaResult, DeltaTableError};
use crate::external::{
    bitmap_canonical, bitmap_decoded, bitmap_deserialize, bitmap_portable, bitmap_reads_back,
    bitmap_rows, bitmap_serialize, buffer_bytes, frozen_bytes, is_path_segment, is_valid_segment,
    object_path, parse_object_path, put_u8, random_uuid, uuid_text, uuid_to_string, z85_decoded,
};
use crate::format::{
    begin_record, content, describe_file, described_payload, descriptor_in_file, end_record,
    file_bytes, grown_file_len, has_vector, holds_record, holds_vectors, is_addressable,
    is_last_of_name, lemma_describe_file_step, lemma_descriptor_leads_to_record,
    lemma_file_holds_vectors, lemma_file_step, lemma_record_len, lies_within, partial_descriptor,
    points_at, record, NamedVector, PartialDeletionVectorDescriptor, CHECKSUM_SIZE, DATA_SIZE_SIZE,
    DELETION_VECTOR_FILE_FORMAT_VERSION_1, MAGIC_SIZE, VERSION_SIZE,
};
use crate::kernel::{Action, Add, DeletionVectorDescriptor, Remove};

verus! {

/// The deletion vectors as a file holds them.
pub open spec fn bitmap_vectors(deletion_vectors: Seq<(String, RoaringBitmap)>) -> Seq<
    NamedVector,
> {
    deletion_vectors.map_values(
        |entry: (String, RoaringBitmap)|
            NamedVector {
                name: entry.0@,
                payload: bitmap_portable(bitmap_rows(entry.1)),
                cardinality: bitmap_rows(entry.1).len(),
            },
    )
}

/// Whether a file holds these rows where a descriptor says.
pub open spec fn reads_as(
    bytes: Seq<u8>,
    descriptor: DeletionVectorDescriptor,
    rows: Set<u32>,
) -> bool {
    &&& lies_within(descriptor, bytes.len())
    &&& descriptor.size_in_bytes >= MAGIC_SIZE
    &&& bitmap_decoded(described_payload(bytes, descriptor)) == Some(rows)
}

/// What is written is read back: where a file holds a record with the serialization of some rows,
/// those rows are read from it.
pub proof fn lemma_written_vector_is_read_back(
    bytes: Seq<u8>,
    descriptor: DeletionVectorDescriptor,
    rows: Set<u32>,
)
    requires
        holds_record(bytes, descriptor, bitmap_portable(rows)),
        bitmap_reads_back(rows),
    ensures
        reads_as(bytes, descriptor, rows),
{
    assert(bitmap_portable(rows) + Seq::empty() =~= bitmap_portable(rows));
}

/// Appends a record with a deletion vector to a buffer.
pub fn write_deletion_vector(buffer: &mut BytesMut, deletion_vector: &RoaringBitmap) -> (written:
    Result<PartialDeletionVectorDescriptor, std::io::Error>)
    requires
        bitmap_canonical(*deletion_vector),
        buffer_bytes(*old(buffer)).len() + record(
            bitmap_portable(bitmap_rows(*deletion_vector)),
        ).len() <= isize::MAX,
    ensures
        written == Ok::<PartialDeletionVectorDescriptor, std::io::Error>(
            partial_descriptor(
                buffer_bytes(*old(buffer)).len(),
                bitmap_portable(bitmap_rows(*deletion_vector)),
                bitmap_rows(*deletion_vector).len(),
            ),
        ),
        buffer_bytes(*final(buffer)) == buffer_bytes(*old(buffer)) + record(
            bitmap_portable(bitmap_rows(*deletion_vector)),
        ),
        bitmap_reads_back(bitmap_rows(*deletion_vector)),
        forall|descriptor: DeletionVectorDescriptor|
            points_at(descriptor, written->Ok_0) && buffer_bytes(*old(buffer)).len() <= i32::MAX
                && content(bitmap_portable(bitmap_rows(*deletion_vector))).len()
                <= i32::MAX ==> #[trigger] reads_as(
                buffer_bytes(*final(buffer)),
                descriptor,
                bitmap_rows(*deletion_vector),
            ),
        forall|descriptor: DeletionVectorDescriptor|
            points_at(descriptor, written->Ok_0) && buffer_bytes(*old(buffer)).len() <= i32::MAX
                && content(bitmap_portable(bitmap_rows(*deletion_vector))).len()
                <= i32::MAX ==> #[trigger] holds_record(
                buffer_bytes(*final(buffer)),
                descriptor,
                bitmap_portable(bitmap_rows(*deletion_vector)),
            ),
{
    let ghost before = buffer_bytes(*buffer);
    let ghost payload = bitmap_portable(bitmap_rows(*deletion_vector));
    proof {
        lemma_record_len(payload);
    }
    let offset: usize = buffer.len();
    let cardinality: u64 = deletion_vector.len();
    let size: usize = deletion_vector.serialized_size();
    begin_record(buffer, size);
    match bitmap_serialize(deletion_vector, buffer) {
        Ok(()) => {},
        Err(err) => return Err(err),
    }
    let partial = end_record(buffer, offset, size, cardinality, Ghost(before), Ghost(payload));
    proof {
        let after = buffer_bytes(*buffer);
        let rows = bitmap_rows(*deletion_vector);
        assert(after.subrange(before.len() as int, after.len() as int) =~= record(payload));
        assert forall|descriptor: DeletionVectorDescriptor|
            points_at(descriptor, partial) && before.len() <= i32::MAX && content(payload).len()
                <= i32::MAX implies #[trigger] holds_record(after, descriptor, payload) by {
            lemma_descriptor_leads_to_record(
                after,
                before.len(),
                payload,
                rows.len(),
                descriptor,
            );
        }
        assert forall|descriptor: DeletionVectorDescriptor|
            points_at(descriptor, partial) && before.len() <= i32::MAX && content(payload).len()
                <= i32::MAX implies #[trigger] reads_as(after, descriptor, rows) by {
            assert(holds_record(after, descriptor, payload));
            lemma_written_vector_is_read_back(after, descriptor, rows);
        }
    }
    Ok(partial)
}

/// Writes deletion vectors to the file of a UUID. Of several vectors for one data file the last
/// one is described.
pub fn write_deletion_vectors_file(
    uuid: &[u8; 16],
    deletion_vectors: Vec<(String, RoaringBitmap)>,
) -> (written: DeltaResult<(StringHashMap<DeletionVectorDescriptor>, Bytes)>)
    requires
        forall|i: int|
            0 <= i < deletion_vectors@.len() ==> bitmap_canonical(
                (#[trigger] deletion_vectors@[i]).1,
            ),
        file_bytes(bitmap_vectors(deletion_vectors@)).len() <= isize::MAX,
    ensures
        written matches Ok((descriptors, bytes)) && {
            &&& frozen_bytes(bytes) == file_bytes(bitmap_vectors(deletion_vectors@))
            &&& describe_file(descriptors@, uuid@, bitmap_vectors(deletion_vectors@))
            &&& holds_vectors(
                frozen_bytes(bytes),
                descriptors@,
                bitmap_vectors(deletion_vectors@),
            )
            &&& forall|name: Seq<char>| #[trigger]
                descriptors@.contains_key(name) ==> z85_decoded(
                    descriptors@[name].path_or_inline_dv@,
                ) == Some(uuid@)
            &&& forall|i: int|
                is_last_of_name(bitmap_vectors(deletion_vectors@), i) && is_addressable(
                    bitmap_vectors(deletion_vectors@),
                    i,
                ) ==> reads_as(
                    frozen_bytes(bytes),
                    descriptors@[(#[trigger] deletion_vectors@[i]).0@],
                    bitmap_rows(deletion_vectors@[i].1),
                )
        },
{
    let ghost vectors = bitmap_vectors(deletion_vectors@);
    let ghost entries = deletion_vectors@;
    let mut buffer_size: usize = VERSION_SIZE;
    assert(vectors.take(0) =~= Seq::empty());
    for i in 0..deletion_vectors.len()
        invariant
            entries == deletion_vectors@,
            vectors == bitmap_vectors(entries),
            forall|j: int| 0 <= j < entries.len() ==> bitmap_canonical((#[trigger] entries[j]).1),
            file_bytes(vectors).len() <= isize::MAX,
            buffer_size == file_bytes(vectors.take(i as int)).len(),
    {
        proof {
            lemma_file_step(vectors, i as int);
            lemma_record_len(vectors[i as int].payload);
        }
        let size: usize = deletion_vectors[i].1.serialized_size();
        buffer_size = buffer_size + (DATA_SIZE_SIZE + MAGIC_SIZE + CHECKSUM_SIZE) + size;
    }
    assert(vectors.take(vectors.len() as int) =~= vectors);
    let mut descriptors: StringHashMap<DeletionVectorDescriptor> = StringHashMap::new();
    let mut buffer = BytesMut::with_capacity(buffer_size);
    put_u8(&mut buffer, DELETION_VECTOR_FILE_FORMAT_VERSION_1);
    assert(buffer_bytes(buffer) =~= file_bytes(vectors.take(0)));
    for entry in iter: deletion_vectors
        invariant
            iter.seq() == entries,
            vectors == bitmap_vectors(entries),
            forall|j: int| 0 <= j < entries.len() ==> bitmap_canonical((#[trigger] entries[j]).1),
            forall|j: int|
                0 <= j < iter.index() ==> bitmap_reads_back(bitmap_rows((#[trigger] entries[j]).1)),
            file_bytes(vectors).len() <= isize::MAX,
            buffer_bytes(buffer) == file_bytes(vectors.take(iter.index())),
            describe_file(descriptors@, uuid@, vectors.take(iter.index())),
            forall|name: Seq<char>| #[trigger]
                descriptors@.contains_key(name) ==> z85_decoded(
                    descriptors@[name].path_or_inline_dv@,
                ) == Some(uuid@),
    {
        let ghost i = iter.index();
        let (file_name, deletion_vector) = entry;
        proof {
            lemma_file_step(vectors, i);
        }
        let partial = match write_deletion_vector(&mut buffer, &deletion_vector) {
            Ok(partial) => partial,
            Err(err) => return Err(DeltaTableError::Io(err)),
        };
        let ghost before = descriptors@;
        let descriptor = descriptor_in_file(uuid, partial);
        let ghost described = descriptor;
        descriptors.insert(file_name, descriptor);
        proof {
            lemma_describe_file_step(before, uuid@, vectors, i, described);
        }
    }
    assert(vectors.take(vectors.len() as int) =~= vectors);
    let ghost described = descriptors@;
    proof {
        lemma_file_holds_vectors(described, uuid@, vectors);
        assert forall|i: int|
            is_last_of_name(vectors, i) && is_addressable(vectors, i) implies reads_as(
            file_bytes(vectors),
            described[(#[trigger] entries[i]).0@],
            bitmap_rows(entries[i].1),
        ) by {
            assert(vectors[i].name == entries[i].0@);
            lemma_written_vector_is_read_back(
                file_bytes(vectors),
                described[vectors[i].name],
                bitmap_rows(entries[i].1),
            );
        }
    }
    Ok((descriptors, buffer.freeze()))
}

/// Reads the deletion vector that a descriptor speaks of from the bytes of its file. One that was
/// written by this module can be written again.
pub fn deserialize_deletion_vector(bytes: &[u8], descriptor: &DeletionVectorDescriptor) -> (read:
    Result<RoaringBitmap, std::io::Error>)
    requires
        lies_within(*descriptor, bytes@.len()),
        descriptor.size_in_bytes >= MAGIC_SIZE,
    ensures
        match read {
            Ok(bitmap) => {
                &&& reads_as(bytes@, *descriptor, bitmap_rows(bitmap))
                &&& holds_record(bytes@, *descriptor, bitmap_portable(bitmap_rows(bitmap)))
                    ==> bitmap_canonical(bitmap)
            },
            Err(_) => bitmap_decoded(described_payload(bytes@, *descriptor)) is None,
        },
{
    let offset: usize = descriptor.offset.unwrap_or(0) as usize + DATA_SIZE_SIZE + MAGIC_SIZE;
    let length: usize = descriptor.size_in_bytes as usize - MAGIC_SIZE;
    assert(bytes@.len() == bytes.len());
    let described = slice_subrange(bytes, offset, offset + length);
    assert(described@.subrange(0, described@.len() as int) =~= described@);
    bitmap_deserialize(described)
}

/// The name of the file of a UUID.
pub open spec fn file_name(uuid: Seq<u8>) -> Seq<char> {
    "deletion_vector_"@ + uuid_text(uuid) + ".bin"@
}

/// The name of the file of a UUID is a path of one segment.
proof fn lemma_file_name_is_path(uuid: Seq<u8>)
    requires
        uuid.len() == 16,
    ensures
        object_path(file_name(uuid)) == Some(file_name(uuid)),
{
    let name = file_name(uuid);
    reveal_strlit("deletion_vector_");
    reveal_strlit(".bin");
    assert forall|i: int| 0 <= i < name.len() implies #[trigger] name[i] != '/' && name[i] as int
        >= 32 && name[i] as int != 127 by {
        if 16 <= i < 52 {
            assert(name[i] == uuid_text(uuid)[i - 16]);
        }
    }
    assert forall|start: int, end: int| #[trigger]
        is_path_segment(name, start, end) implies is_valid_segment(name.subrange(start, end)) by {
        assert(name.subrange(start, end) =~= name);
        assert(name[0] == 'd');
    }
    assert(name.last() == 'n');
}

/// The path of the file of a UUID: its name, which is a valid path.
pub fn deletion_vectors_path(uuid: &[u8; 16]) -> (path: String)
    ensures
        path@ == file_name(uuid@),
{
    let mut name: String = "deletion_vector_".to_owned();
    name.append(uuid_to_string(uuid).as_str());
    name.append(".bin");
    proof {
        lemma_file_name_is_path(uuid@);
    }
    parse_object_path(name.as_str()).unwrap()
}

/// A deletion vector file that is ready to be stored.
pub struct DeletionVectorsFile {
    /// Where to store it
    pub path: String,
    /// What to store
    pub bytes: Bytes,
    /// What the log says of it, by data file
    pub descriptors: StringHashMap<DeletionVectorDescriptor>,
}

/// Whether a file is that of a UUID, with the deletion vectors given.
pub open spec fn is_file_of(
    file: DeletionVectorsFile,
    uuid: Seq<u8>,
    deletion_vectors: DeletionVectorMap,
) -> bool {
    &&& file.path@ == file_name(uuid)
    &&& frozen_bytes(file.bytes) == file_bytes(bitmap_vectors(deletion_vectors.entries()))
    &&& describe_file(file.descriptors@, uuid, bitmap_vectors(deletion_vectors.entries()))
    &&& holds_vectors(
        frozen_bytes(file.bytes),
        file.descriptors@,
        bitmap_vectors(deletion_vectors.entries()),
    )
    &&& forall|i: int|
        is_last_of_name(bitmap_vectors(deletion_vectors.entries()), i) && is_addressable(
            bitmap_vectors(deletion_vectors.entries()),
            i,
        ) ==> reads_as(
            frozen_bytes(file.bytes),
            file.descriptors@[(#[trigger] deletion_vectors.entries()[i]).0@],
            bitmap_rows(deletion_vectors.entries()[i].1),
        )
    &&& file.descriptors@.dom() == marked_rows(deletion_vectors).dom()
    &&& forall|name: Seq<char>| #[trigger]
        file.descriptors@.contains_key(name) ==> {
            &&& z85_decoded(file.descriptors@[name].path_or_inline_dv@) == Some(uuid)
            &&& file.descriptors@[name].cardinality == marked_rows(deletion_vectors)[name].len()
        }
}

/// Whether an allocation can have the length of a file with the deletion vectors given.
fn fits_in_file(deletion_vectors: &Vec<(String, RoaringBitmap)>) -> (fits: bool)
    requires
        forall|i: int|
            0 <= i < deletion_vectors@.len() ==> bitmap_canonical(
                (#[trigger] deletion_vectors@[i]).1,
            ),
    ensures
        fits == (file_bytes(bitmap_vectors(deletion_vectors@)).len() <= isize::MAX),
{
    let ghost vectors = bitmap_vectors(deletion_vectors@);
    assert(vectors.take(0) =~= Seq::empty());
    let mut len: usize = VERSION_SIZE;
    for i in 0..deletion_vectors.len()
        invariant
            vectors == bitmap_vectors(deletion_vectors@),
            forall|j: int|
                0 <= j < deletion_vectors@.len() ==> bitmap_canonical(
                    (#[trigger] deletion_vectors@[j]).1,
                ),
            len == file_bytes(vectors.take(i as int)).len(),
            len <= isize::MAX,
    {
        proof {
            lemma_file_step(vectors, i as int);
            lemma_record_len(vectors[i as int].payload);
        }
        let size: usize = deletion_vectors[i].1.serialized_size();
        match grown_file_len(len, size) {
            Some(grown) => {
                len = grown;
            },
            None => return false,
        }
    }
    assert(vectors.take(vectors.len() as int) =~= vectors);
    true
}

/// The file of a UUID with the rows that a delete has marked. There is no such file where an
/// allocation cannot have its length.
pub fn deletion_vectors_file(uuid: &[u8; 16], deletion_vectors: DeletionVectorMap) -> (prepared:
    Option<DeltaResult<DeletionVectorsFile>>)
    requires
        marks_wf(deletion_vectors),
    ensures
        prepared is Some <==> file_bytes(bitmap_vectors(deletion_vectors.entries())).len()
            <= isize::MAX,
        prepared matches Some(prepared) ==> (prepared matches Ok(file) && is_file_of(
            file,
            uuid@,
            deletion_vectors,
        )),
{
    let ghost given = deletion_vectors;
    proof {
        deletion_vectors.lemma_entries();
    }
    let entries = deletion_vectors.into_entries();
    if !fits_in_file(&entries) {
        return None;
    }
    let path = deletion_vectors_path(uuid);
    match write_deletion_vectors_file(uuid, entries) {
        Ok((descriptors, bytes)) => {
            proof {
                lemma_one_vector_per_name(given, uuid@, descriptors@);
            }
            Some(Ok(DeletionVectorsFile { path, bytes, descriptors }))
        },
        Err(err) => Some(Err(err)),
    }
}

/// There are no more rows than row numbers.
proof fn lemma_number_of_rows(rows: Set<u32>)
    ensures
        rows.finite(),
        rows.len() <= 0x1_0000_0000,
{
    range_set_properties::<u32>(0, u32::MAX);
    let all = Set::<u32>::range_inclusive(0, u32::MAX);
    assert(rows.subset_of(all));
    lemma_len_subset(rows, all);
}

proof fn lemma_one_vector_per_name(
    deletion_vectors: DeletionVectorMap,
    uuid: Seq<u8>,
    descriptors: Map<Seq<char>, DeletionVectorDescriptor>,
)
    requires
        marks_wf(deletion_vectors),
        describe_file(descriptors, uuid, bitmap_vectors(deletion_vectors.entries())),
    ensures
        descriptors.dom() == marked_rows(deletion_vectors).dom(),
        forall|name: Seq<char>| #[trigger]
            descriptors.contains_key(name) ==> descriptors[name].cardinality == marked_rows(
                deletion_vectors,
            )[name].len(),
{
    let entries = deletion_vectors.entries();
    let vectors = bitmap_vectors(entries);
    deletion_vectors.lemma_entries();
    assert forall|name: Seq<char>| has_vector(vectors, name) == #[trigger] marked_rows(
        deletion_vectors,
    ).contains_key(name) by {
        if has_vector(vectors, name) {
            let i = choose|i: int| 0 <= i < vectors.len() && (#[trigger] vectors[i]).name == name;
            assert(entries[i].0@ == name);
        }
        if marked_rows(deletion_vectors).contains_key(name) {
            let i = choose|i: int| 0 <= i < entries.len() && (#[trigger] entries[i]).0@ == name;
            assert(vectors[i].name == name);
        }
    }
    assert(descriptors.dom() =~= marked_rows(deletion_vectors).dom());
    assert forall|name: Seq<char>| #[trigger] descriptors.contains_key(
        name,
    ) implies descriptors[name].cardinality == marked_rows(deletion_vectors)[name].len() by {
        lemma_number_of_rows(marked_rows(deletion_vectors)[name]);
        let i = choose|i: int| 0 <= i < entries.len() && (#[trigger] entries[i]).0@ == name;
        assert(vectors[i].name == name);
        assert forall|j: int| i < j < vectors.len() implies (#[trigger] vectors[j]).name
            != vectors[i].name by {
            assert(entries[j].0@ != entries[i].0@);
        }
        assert(is_last_of_name(vectors, i));
    }
}

/// Whether a UUID is of the random kind.
pub open spec fn is_random_uuid(uuid: Seq<u8>) -> bool {
    &&& uuid.len() == 16
    &&& uuid[6] as int / 16 == 4
    &&& uuid[8] as int / 64 == 2
}

/// A new file with the rows that a delete has marked, named by a random UUID. There is no such
/// file where an allocation cannot have its length.
pub fn new_deletion_vectors_file(deletion_vectors: DeletionVectorMap) -> (prepared: Option<
    DeltaResult<DeletionVectorsFile>,
>)
    requires
        marks_wf(deletion_vectors),
    ensures
        prepared is Some <==> file_bytes(bitmap_vectors(deletion_vectors.entries())).len()
            <= isize::MAX,
        prepared matches Some(prepared) ==> (prepared matches Ok(file) && exists|uuid: Seq<u8>|
            is_random_uuid(uuid) && #[trigger] is_file_of(file, uuid, deletion_vectors)),
{
    let uuid: [u8; 16] = random_uuid();
    assert(is_random_uuid(uuid@));
    deletion_vectors_file(&uuid, deletion_vectors)
}

/// What comes of the parts of a scan that marks rows.
pub enum PartitionsFile {
    /// The scan has no parts
    NoPartitions,
    /// No allocation can have the length of the file
    TooLarge,
    /// The file with all that was marked
    File(DeletionVectorsFile),
}

/// Whether a file holds all that the parts of a scan have marked, named by a random UUID.
pub open spec fn is_new_file_of(file: DeletionVectorsFile, results: Seq<PartitionResult>) -> bool {
    exists|whole: DeletionVectorMap, uuid: Seq<u8>|
        is_whole_of(whole, results) && is_random_uuid(uuid) && #[trigger] is_file_of(
            file,
            uuid,
            whole,
        )
}

/// Whether no allocation can have the length of a file with all that the parts of a scan have
/// marked.
pub open spec fn is_too_large(results: Seq<PartitionResult>) -> bool {
    exists|whole: DeletionVectorMap| #[trigger]
        is_whole_of(whole, results) && file_bytes(bitmap_vectors(whole.entries())).len()
            > isize::MAX
}

/// A new file with all that the parts of a scan have marked, named by a random UUID, or the error
/// of the first part that has one.
pub fn new_deletion_vectors_file_of_partitions(results: Vec<PartitionResult>) -> (prepared:
    DeltaResult<PartitionsFile>)
    requires
        collected_wf(results@),
    ensures
        match prepared {
            Err(err) => is_first_error(err, results@),
            Ok(prepared) => {
                &&& all_collected(results@)
                &&& results@.len() == 0 <==> prepared is NoPartitions
                &&& prepared is TooLarge ==> is_too_large(results@)
                &&& prepared matches PartitionsFile::File(file) ==> is_new_file_of(file, results@)
            },
        },
{
    let ghost given = results@;
    match merge_results(results) {
        Ok(Some(whole)) => match new_deletion_vectors_file(whole) {
            Some(Ok(file)) => {
                assert(is_new_file_of(file, given));
                Ok(PartitionsFile::File(file))
            },
            Some(Err(err)) => Err(err),
            None => {
                assert(is_too_large(given));
                Ok(PartitionsFile::TooLarge)
            },
        },
        Ok(None) => Ok(PartitionsFile::NoPartitions),
        Err(err) => Err(err),
    }
}

/// The removal of a data file whose rows are marked.
pub open spec fn marked_file_removed(add: Add) -> Action {
    Action::Remove(
        Remove {
            path: add.path,
            data_change: true,
            deletion_timestamp: None,
            extended_file_metadata: None,
            partition_values: None,
            size: None,
            tags: None,
            deletion_vector: None,
            base_row_id: None,
            default_row_commit_version: None,
        },
    )
}

/// A data file with a deletion vector, and otherwise as it was.
pub open spec fn marked_file_added(add: Add, deletion_vector: DeletionVectorDescriptor) -> Action {
    Action::Add(Add { deletion_vector: Some(deletion_vector), ..add })
}

/// For each data file that has a new deletion vector: the file is removed, and added again with
/// the vector.
pub open spec fn actions_of_marked_files(
    files: Seq<Add>,
    descriptors: Map<Seq<char>, DeletionVectorDescriptor>,
) -> Seq<Action>
    decreases files.len(),
{
    if files.len() == 0 {
        Seq::empty()
    } else {
        let add = files.last();
        let before = actions_of_marked_files(files.drop_last(), descriptors);
        if descriptors.contains_key(add.path@) {
            before.push(marked_file_removed(add)).push(
                marked_file_added(add, descriptors[add.path@]),
            )
        } else {
            before
        }
    }
}

/// Gives the data files of the table their new deletion vectors.
pub fn deletion_vector_actions(
    files: Vec<Add>,
    descriptors: &StringHashMap<DeletionVectorDescriptor>,
) -> (actions: Vec<Action>)
    ensures
        actions@ == actions_of_marked_files(files@, descriptors@),
{
    let ghost all = files@;
    let mut actions: Vec<Action> = Vec::new();
    for add in iter: files
        invariant
            iter.seq() == all,
            actions@ == actions_of_marked_files(all.take(iter.index()), descriptors@),
    {
        let ghost i = iter.index();
        let mut add = add;
        assert(all.take(i + 1).drop_last() =~= all.take(i));
        if let Some(deletion_vector) = descriptors.get(add.path.as_str()) {
            let remove = Remove {
                path: add.path.clone(),
                data_change: true,
                deletion_timestamp: None,
                extended_file_metadata: None,
                partition_values: None,
                size: None,
                tags: None,
                deletion_vector: None,
                base_row_id: None,
                default_row_commit_version: None,
            };
            add.deletion_vector = Some(deletion_vector.clone());
            actions.push(Action::Remove(remove));
            actions.push(Action::Add(add));
        }
    }
    assert(all.take(all.len() as int) =~= all);
    actions
}

/// Whether a data file is removed at an index and added again, with a deletion vector, right
/// behind.
pub open spec fn is_replaced_at(
    actions: Seq<Action>,
    k: int,
    add: Add,
    deletion_vector: DeletionVectorDescriptor,
) -> bool {
    &&& 0 <= k < actions.len() - 1
    &&& actions[k] == marked_file_removed(add)
    &&& actions[k + 1] == marked_file_added(add, deletion_vector)
}

/// Every data file with marked rows is replaced by itself with the new deletion vector.
pub proof fn lemma_marked_file_is_replaced(
    files: Seq<Add>,
    descriptors: Map<Seq<char>, DeletionVectorDescriptor>,
    i: int,
)
    requires
        0 <= i < files.len(),
        descriptors.contains_key(files[i].path@),
    ensures
        exists|k: int|
            is_replaced_at(
                actions_of_marked_files(files, descriptors),
                k,
                files[i],
                descriptors[files[i].path@],
            ),
    decreases files.len(),
{
    let actions = actions_of_marked_files(files, descriptors);
    let before = actions_of_marked_files(files.drop_last(), descriptors);
    if i == files.len() - 1 {
        assert(is_replaced_at(
            actions,
            before.len() as int,
            files[i],
            descriptors[files[i].path@],
        ));
    } else {
        lemma_marked_file_is_replaced(files.drop_last(), descriptors, i);
        let k = choose|k: int|
            is_replaced_at(before, k, files[i], descriptors[files[i].path@]);
        assert(is_replaced_at(actions, k, files[i], descriptors[files[i].path@]));
    }
}

/// No other data file is touched.
pub proof fn lemma_only_marked_files_are_replaced(
    files: Seq<Add>,
    descriptors: Map<Seq<char>, DeletionVectorDescriptor>,
    k: int,
)
    requires
        0 <= k < actions_of_marked_files(files, descriptors).len(),
    ensures
        exists|i: int|
            {
                &&& 0 <= i < files.len()
                &&& descriptors.contains_key((#[trigger] files[i]).path@)
                &&& actions_of_marked_files(files, descriptors)[k] == marked_file_removed(files[i])
                    || actions_of_marked_files(files, descriptors)[k] == marked_file_added(
                    files[i],
                    descriptors[files[i].path@],
                )
            },
    decreases files.len(),
{
    let shorter = files.drop_last();
    let before = actions_of_marked_files(shorter, descriptors);
    if k < before.len() {
        lemma_only_marked_files_are_replaced(shorter, descriptors, k);
        let i = choose|i: int|
            {
                &&& 0 <= i < shorter.len()
                &&& descriptors.contains_key((#[trigger] shorter[i]).path@)
                &&& before[k] == marked_file_removed(shorter[i]) || before[k]
                    == marked_file_added(shorter[i], descriptors[shorter[i].path@])
            };
        assert(files[i] == shorter[i]);
    } else {
        assert(descriptors.contains_key(files[files.len() - 1].path@));
    }
}

} // verus!
