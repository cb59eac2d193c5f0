//! The layout of a deletion vector file.
//!
//! A file is a version byte followed by one record for each deletion vector. A record is the
//! size of its content as a big-endian integer, the content, and the CRC-32 checksum of the
//! content, big-endian too. The content is a magic number and the serialized vector.

use bytes::BytesMut;
use vstd::prelude::*;
use vstd::slice::slice_subrange;

use crate::external::{
    be32, buffer_as_slice, buffer_bytes, crc32, put_u32, z85_decoded, z85_encode, z85_text,
};
use crate::kernel::{DeletionVectorDescriptor, StorageType};

verus! {

/// The number that the content of every record starts with.
pub const DELETION_VECTOR_MAGIC: u32 = 1681511377;

/// The version of the file format.
pub const DELETION_VECTOR_FILE_FORMAT_VERSION_1: u8 = 1;

/// Size of the version byte.
pub const VERSION_SIZE: usize = 1;

/// Size of the size of a record's content.
pub const DATA_SIZE_SIZE: usize = 4;

/// Size of the magic number.
pub const MAGIC_SIZE: usize = 4;

/// Size of the checksum.
pub const CHECKSUM_SIZE: usize = 4;

/// A deletion vector as a file holds it: the data file that it is for, the serialized vector,
/// and the number of rows in it.
pub struct NamedVector {
    pub name: Seq<char>,
    pub payload: Seq<u8>,
    pub cardinality: nat,
}

/// The content of a record.
pub open spec fn content(payload: Seq<u8>) -> Seq<u8> {
    be32(DELETION_VECTOR_MAGIC) + payload
}

/// A record. Its size is given modulo 2^32.
pub open spec fn record(payload: Seq<u8>) -> Seq<u8> {
    be32(content(payload).len() as u32) + content(payload) + be32(crc32(content(payload)))
}

/// The file that holds the vectors in the order given.
pub open spec fn file_bytes(vectors: Seq<NamedVector>) -> Seq<u8>
    decreases vectors.len(),
{
    if vectors.len() == 0 {
        seq![DELETION_VECTOR_FILE_FORMAT_VERSION_1]
    } else {
        file_bytes(vectors.drop_last()) + record(vectors.last().payload)
    }
}

/// Where in the file a vector's record starts: behind the records before it.
pub open spec fn record_start(vectors: Seq<NamedVector>, i: int) -> nat {
    file_bytes(vectors.take(i)).len()
}

/// Where in a file a record stands, and what it holds.
#[derive(Clone, Copy, Debug, PartialEq, Eq, Structural)]
pub struct PartialDeletionVectorDescriptor {
    /// Where the record starts
    pub offset: i32,
    /// Size of its content
    pub size_in_bytes: i32,
    /// Number of rows in the vector
    pub cardinality: i64,
}

/// What is said of a record that starts at an offset. Offset and size are given modulo 2^32 and
/// the number of rows modulo 2^64, as signed integers.
pub open spec fn partial_descriptor(
    offset: nat,
    payload: Seq<u8>,
    cardinality: nat,
) -> PartialDeletionVectorDescriptor {
    PartialDeletionVectorDescriptor {
        offset: offset as i32,
        size_in_bytes: content(payload).len() as i32,
        cardinality: cardinality as i64,
    }
}

/// Whether a descriptor tells the place that a partial descriptor tells.
pub open spec fn points_at(
    descriptor: DeletionVectorDescriptor,
    partial: PartialDeletionVectorDescriptor,
) -> bool {
    &&& descriptor.offset == Some(partial.offset)
    &&& descriptor.size_in_bytes == partial.size_in_bytes
}

/// Whether a descriptor names the file of a UUID and says what a partial descriptor says.
pub open spec fn describes(
    descriptor: DeletionVectorDescriptor,
    uuid: Seq<u8>,
    partial: PartialDeletionVectorDescriptor,
) -> bool {
    &&& descriptor.storage_type == StorageType::UuidRelativePath
    &&& descriptor.path_or_inline_dv@ == z85_text(uuid)
    &&& points_at(descriptor, partial)
    &&& descriptor.cardinality == partial.cardinality
}

/// What is said of the record of a vector in a file.
pub open spec fn vector_descriptor(
    vectors: Seq<NamedVector>,
    i: int,
) -> PartialDeletionVectorDescriptor {
    partial_descriptor(record_start(vectors, i), vectors[i].payload, vectors[i].cardinality)
}

/// Whether a descriptor can tell where in the file a vector is.
pub open spec fn is_addressable(vectors: Seq<NamedVector>, i: int) -> bool {
    &&& record_start(vectors, i) <= i32::MAX
    &&& content(vectors[i].payload).len() <= i32::MAX
}

/// Whether one of the vectors is for a data file.
pub open spec fn has_vector(vectors: Seq<NamedVector>, name: Seq<char>) -> bool {
    exists|i: int| 0 <= i < vectors.len() && (#[trigger] vectors[i]).name == name
}

/// Whether the vector at an index is the last one for its data file.
pub open spec fn is_last_of_name(vectors: Seq<NamedVector>, i: int) -> bool {
    &&& 0 <= i < vectors.len()
    &&& forall|j: int| i < j < vectors.len() ==> (#[trigger] vectors[j]).name != vectors[i].name
}

/// Whether descriptors are those of a file with the vectors given: one for each data file,
/// which describes the last vector for it.
pub open spec fn describe_file(
    descriptors: Map<Seq<char>, DeletionVectorDescriptor>,
    uuid: Seq<u8>,
    vectors: Seq<NamedVector>,
) -> bool {
    &&& forall|name: Seq<char>| #[trigger]
        descriptors.contains_key(name) <==> has_vector(vectors, name)
    &&& forall|i: int| #[trigger]
        is_last_of_name(vectors, i) ==> describes(
            descriptors[vectors[i].name],
            uuid,
            vector_descriptor(vectors, i),
        )
}

/// The bytes that are read for a descriptor: they start behind the size and the magic number of
/// the record, and are as many as the content has. So they are the serialized vector and the
/// checksum behind it.
pub open spec fn described_bytes(bytes: Seq<u8>, descriptor: DeletionVectorDescriptor) -> Seq<u8> {
    bytes.subrange(
        described_start(descriptor),
        described_start(descriptor) + descriptor.size_in_bytes,
    )
}

/// Where the bytes that are read for a descriptor start.
pub open spec fn described_start(descriptor: DeletionVectorDescriptor) -> int {
    (match descriptor.offset {
        Some(offset) => offset as int,
        None => 0,
    }) + DATA_SIZE_SIZE + MAGIC_SIZE
}

/// The serialized vector that a descriptor speaks of: what is read for it without the checksum.
pub open spec fn described_payload(
    bytes: Seq<u8>,
    descriptor: DeletionVectorDescriptor,
) -> Seq<u8> {
    bytes.subrange(
        described_start(descriptor),
        described_start(descriptor) + descriptor.size_in_bytes - MAGIC_SIZE,
    )
}

/// Whether a file holds a record where a descriptor says, with all its parts: the size that the
/// descriptor gives, the magic number, the serialized vector, and the checksum of the latter two.
pub open spec fn holds_record(
    bytes: Seq<u8>,
    descriptor: DeletionVectorDescriptor,
    payload: Seq<u8>,
) -> bool {
    let vector = described_start(descriptor);
    let magic = vector - MAGIC_SIZE;
    let start = magic - DATA_SIZE_SIZE;
    let checksum = magic + descriptor.size_in_bytes;
    &&& lies_within(descriptor, bytes.len())
    &&& descriptor.size_in_bytes >= MAGIC_SIZE
    &&& bytes.subrange(start, magic) == be32(descriptor.size_in_bytes as u32)
    &&& bytes.subrange(magic, vector) == be32(DELETION_VECTOR_MAGIC)
    &&& described_payload(bytes, descriptor) == payload
    &&& bytes.subrange(checksum, checksum + CHECKSUM_SIZE) == be32(
        crc32(bytes.subrange(magic, checksum)),
    )
}

/// Whether a file holds every vector where its descriptor says, as far as a descriptor can tell.
pub open spec fn holds_vectors(
    bytes: Seq<u8>,
    descriptors: Map<Seq<char>, DeletionVectorDescriptor>,
    vectors: Seq<NamedVector>,
) -> bool {
    forall|i: int| #[trigger]
        is_last_of_name(vectors, i) && is_addressable(vectors, i) ==> holds_record(
            bytes,
            descriptors[vectors[i].name],
            vectors[i].payload,
        )
}

/// Whether the bytes that are read for a descriptor lie within a file of the given length.
pub open spec fn lies_within(descriptor: DeletionVectorDescriptor, len: nat) -> bool {
    &&& descriptor.offset matches Some(offset) ==> offset >= 0
    &&& descriptor.size_in_bytes >= 0
    &&& described_start(descriptor) + descriptor.size_in_bytes <= len
}

/// The length of a record.
pub proof fn lemma_record_len(payload: Seq<u8>)
    ensures
        record(payload).len() == DATA_SIZE_SIZE + MAGIC_SIZE + payload.len() + CHECKSUM_SIZE,
        content(payload).len() == MAGIC_SIZE + payload.len(),
{
}

/// The file up to a vector is the start of the whole file, and that vector's record follows.
pub proof fn lemma_record_position(vectors: Seq<NamedVector>, i: int)
    requires
        0 <= i < vectors.len(),
    ensures
        record_start(vectors, i) + record(vectors[i].payload).len() <= file_bytes(vectors).len(),
        file_bytes(vectors).subrange(
            record_start(vectors, i) as int,
            (record_start(vectors, i) + record(vectors[i].payload).len()) as int,
        ) == record(vectors[i].payload),
    decreases vectors.len(),
{
    let shorter = vectors.drop_last();
    if i < shorter.len() {
        lemma_record_position(shorter, i);
        assert(shorter.take(i) =~= vectors.take(i));
        let start = record_start(vectors, i) as int;
        let end = start + record(vectors[i].payload).len();
        assert(file_bytes(vectors).subrange(start, end) =~= file_bytes(shorter).subrange(
            start,
            end,
        ));
    } else {
        assert(vectors.take(i) =~= shorter);
        let start = record_start(vectors, i) as int;
        assert(file_bytes(vectors).subrange(start, file_bytes(vectors).len() as int) =~= record(
            vectors[i].payload,
        ));
    }
}

/// A descriptor of a record leads to the vector in it, wherever the record stands: what is read
/// for it is the serialized vector and the checksum behind it.
pub proof fn lemma_descriptor_leads_to_record(
    bytes: Seq<u8>,
    start: nat,
    payload: Seq<u8>,
    cardinality: nat,
    descriptor: DeletionVectorDescriptor,
)
    requires
        start + record(payload).len() <= bytes.len(),
        bytes.subrange(start as int, (start + record(payload).len()) as int) == record(payload),
        points_at(descriptor, partial_descriptor(start, payload, cardinality)),
        start <= i32::MAX,
        content(payload).len() <= i32::MAX,
    ensures
        holds_record(bytes, descriptor, payload),
        described_bytes(bytes, descriptor) == payload + be32(crc32(content(payload))),
{
    lemma_record_len(payload);
    lemma_parts(
        bytes,
        start as int,
        be32(content(payload).len() as u32),
        be32(DELETION_VECTOR_MAGIC),
        payload,
        be32(crc32(content(payload))),
    );
}

/// Where the parts of four sequences in a row stand, of which all but the third are four long.
pub(crate) proof fn lemma_parts(
    bytes: Seq<u8>,
    start: int,
    first: Seq<u8>,
    second: Seq<u8>,
    third: Seq<u8>,
    fourth: Seq<u8>,
)
    requires
        first.len() == 4,
        second.len() == 4,
        fourth.len() == 4,
        0 <= start,
        start + 12 + third.len() <= bytes.len(),
        bytes.subrange(start, start + 12 + third.len()) == first + (second + third) + fourth,
    ensures
        bytes.subrange(start, start + 4) == first,
        bytes.subrange(start + 4, start + 8) == second,
        bytes.subrange(start + 8, start + 8 + third.len()) == third,
        bytes.subrange(start + 4, start + 8 + third.len()) == second + third,
        bytes.subrange(start + 8 + third.len(), start + 12 + third.len()) == fourth,
        bytes.subrange(start + 8, start + 12 + third.len()) == third + fourth,
{
    let whole = bytes.subrange(start, start + 12 + third.len());
    let parts = first + (second + third) + fourth;
    assert forall|i: int| 0 <= i < parts.len() implies #[trigger] bytes[start + i] == parts[i] by {
        assert(whole[i] == parts[i]);
    }
    let len = third.len() as int;
    lemma_part(bytes, start, parts, 0, 4, first);
    lemma_part(bytes, start, parts, 4, 8, second);
    lemma_part(bytes, start, parts, 8, 8 + len, third);
    lemma_part(bytes, start, parts, 4, 8 + len, second + third);
    lemma_part(bytes, start, parts, 8 + len, 12 + len, fourth);
    lemma_part(bytes, start, parts, 8, 12 + len, third + fourth);
}

proof fn lemma_part(
    bytes: Seq<u8>,
    start: int,
    parts: Seq<u8>,
    from: int,
    to: int,
    part: Seq<u8>,
)
    requires
        0 <= start,
        0 <= from <= to <= parts.len(),
        start + parts.len() <= bytes.len(),
        part.len() == to - from,
        forall|i: int| 0 <= i < parts.len() ==> #[trigger] bytes[start + i] == parts[i],
        forall|i: int| from <= i < to ==> #[trigger] parts[i] == part[i - from],
    ensures
        bytes.subrange(start + from, start + to) == part,
{
    assert forall|i: int| 0 <= i < part.len() implies #[trigger] bytes.subrange(
        start + from,
        start + to,
    )[i] == part[i] by {
        assert(bytes[start + (from + i)] == parts[from + i]);
    }
    assert(bytes.subrange(start + from, start + to) =~= part);
}

/// A descriptor leads to its vector in a file, where it can tell where the vector is.
pub proof fn lemma_descriptor_leads_to_vector(
    vectors: Seq<NamedVector>,
    i: int,
    descriptor: DeletionVectorDescriptor,
)
    requires
        0 <= i < vectors.len(),
        points_at(descriptor, vector_descriptor(vectors, i)),
        is_addressable(vectors, i),
    ensures
        holds_record(file_bytes(vectors), descriptor, vectors[i].payload),
        described_bytes(file_bytes(vectors), descriptor) == vectors[i].payload + be32(
            crc32(content(vectors[i].payload)),
        ),
{
    lemma_record_position(vectors, i);
    lemma_descriptor_leads_to_record(
        file_bytes(vectors),
        record_start(vectors, i),
        vectors[i].payload,
        vectors[i].cardinality,
        descriptor,
    );
}

/// A file holds every vector where its descriptor says.
pub proof fn lemma_file_holds_vectors(
    descriptors: Map<Seq<char>, DeletionVectorDescriptor>,
    uuid: Seq<u8>,
    vectors: Seq<NamedVector>,
)
    requires
        describe_file(descriptors, uuid, vectors),
    ensures
        holds_vectors(file_bytes(vectors), descriptors, vectors),
{
    assert forall|i: int| #[trigger] is_last_of_name(vectors, i) && is_addressable(
        vectors,
        i,
    ) implies holds_record(
        file_bytes(vectors),
        descriptors[vectors[i].name],
        vectors[i].payload,
    ) by {
        lemma_descriptor_leads_to_vector(vectors, i, descriptors[vectors[i].name]);
    }
}

/// A file grows by one record for each vector.
pub proof fn lemma_file_step(vectors: Seq<NamedVector>, i: int)
    requires
        0 <= i < vectors.len(),
    ensures
        file_bytes(vectors.take(i + 1)) == file_bytes(vectors.take(i)) + record(vectors[i].payload),
        file_bytes(vectors.take(i + 1)).len() <= file_bytes(vectors).len(),
{
    assert(vectors.take(i + 1).drop_last() =~= vectors.take(i));
    lemma_record_position(vectors, i);
}

/// Describing one more vector, in place of an earlier one for the same data file.
pub proof fn lemma_describe_file_step(
    descriptors: Map<Seq<char>, DeletionVectorDescriptor>,
    uuid: Seq<u8>,
    vectors: Seq<NamedVector>,
    i: int,
    descriptor: DeletionVectorDescriptor,
)
    requires
        0 <= i < vectors.len(),
        describe_file(descriptors, uuid, vectors.take(i)),
        describes(descriptor, uuid, vector_descriptor(vectors, i)),
    ensures
        describe_file(
            descriptors.insert(vectors[i].name, descriptor),
            uuid,
            vectors.take(i + 1),
        ),
{
    let shorter = vectors.take(i);
    let longer = vectors.take(i + 1);
    let grown = descriptors.insert(vectors[i].name, descriptor);
    assert forall|name: Seq<char>| #[trigger] grown.contains_key(name) == has_vector(
        longer,
        name,
    ) by {
        lemma_has_vector_step(vectors, i, name);
    }
    assert forall|k: int| #[trigger] is_last_of_name(longer, k) implies describes(
        grown[longer[k].name],
        uuid,
        vector_descriptor(longer, k),
    ) by {
        lemma_is_last_of_name_step(vectors, i, k);
    }
}

proof fn lemma_has_vector_step(vectors: Seq<NamedVector>, i: int, name: Seq<char>)
    requires
        0 <= i < vectors.len(),
    ensures
        has_vector(vectors.take(i + 1), name) == (has_vector(vectors.take(i), name)
            || vectors[i].name == name),
{
    let shorter = vectors.take(i);
    let longer = vectors.take(i + 1);
    if has_vector(shorter, name) {
        let k = choose|k: int| 0 <= k < shorter.len() && (#[trigger] shorter[k]).name == name;
        assert(longer[k].name == name);
    }
    if has_vector(longer, name) {
        let k = choose|k: int| 0 <= k < longer.len() && (#[trigger] longer[k]).name == name;
        if k < i {
            assert(shorter[k].name == name);
        }
    }
    assert(longer[i] == vectors[i]);
}

proof fn lemma_is_last_of_name_step(vectors: Seq<NamedVector>, i: int, k: int)
    requires
        0 <= i < vectors.len(),
        is_last_of_name(vectors.take(i + 1), k),
    ensures
        vectors.take(i + 1)[k] == vectors[k],
        vector_descriptor(vectors.take(i + 1), k) == vector_descriptor(vectors, k),
        k < i ==> {
            &&& is_last_of_name(vectors.take(i), k)
            &&& vectors.take(i)[k] == vectors[k]
            &&& vector_descriptor(vectors.take(i), k) == vector_descriptor(vectors, k)
            &&& vectors[k].name != vectors[i].name
        },
{
    let shorter = vectors.take(i);
    let longer = vectors.take(i + 1);
    assert(longer.take(k) =~= vectors.take(k));
    if k < i {
        assert(shorter.take(k) =~= vectors.take(k));
        assert(longer[i].name != longer[k].name);
        assert forall|j: int| k < j < shorter.len() implies (#[trigger] shorter[j]).name
            != shorter[k].name by {
            assert(longer[j].name != longer[k].name);
        }
    }
}

/// Starts a record behind what is in the buffer, for a vector of the given serialized size.
pub(crate) fn begin_record(buffer: &mut BytesMut, payload_size: usize)
    requires
        buffer_bytes(*old(buffer)).len() + 8 <= isize::MAX,
        payload_size <= isize::MAX - 4,
    ensures
        buffer_bytes(*final(buffer)) == buffer_bytes(*old(buffer)) + be32(
            (MAGIC_SIZE + payload_size) as u32,
        ) + be32(DELETION_VECTOR_MAGIC),
{
    let size_in_bytes: usize = MAGIC_SIZE + payload_size;
    put_u32(buffer, size_in_bytes as u32);
    put_u32(buffer, DELETION_VECTOR_MAGIC);
}

/// Ends the record that starts at an offset, once the serialized vector stands in the buffer.
pub(crate) fn end_record(
    buffer: &mut BytesMut,
    offset: usize,
    payload_size: usize,
    cardinality: u64,
    Ghost(before): Ghost<Seq<u8>>,
    Ghost(payload): Ghost<Seq<u8>>,
) -> (partial: PartialDeletionVectorDescriptor)
    requires
        before.len() == offset,
        payload.len() == payload_size,
        before.len() + record(payload).len() <= isize::MAX,
        buffer_bytes(*old(buffer)) == before + be32((MAGIC_SIZE + payload_size) as u32) + be32(
            DELETION_VECTOR_MAGIC,
        ) + payload,
    ensures
        buffer_bytes(*final(buffer)) == before + record(payload),
        partial == partial_descriptor(offset as nat, payload, cardinality as nat),
{
    proof {
        lemma_record_len(payload);
    }
    let size_in_bytes: usize = MAGIC_SIZE + payload_size;
    let content_start: usize = offset + DATA_SIZE_SIZE;
    let bytes = slice_subrange(
        buffer_as_slice(buffer),
        content_start,
        content_start + size_in_bytes,
    );
    assert(bytes@ =~= content(payload));
    let checksum: u32 = crc32fast::hash(bytes);
    put_u32(buffer, checksum);
    assert(buffer_bytes(*buffer) =~= before + record(payload));
    PartialDeletionVectorDescriptor {
        offset: offset as i32,
        size_in_bytes: size_in_bytes as i32,
        cardinality: cardinality as i64,
    }
}

/// The descriptor of a vector in the file of a UUID.
pub(crate) fn descriptor_in_file(
    uuid: &[u8; 16],
    partial: PartialDeletionVectorDescriptor,
) -> (descriptor: DeletionVectorDescriptor)
    ensures
        describes(descriptor, uuid@, partial),
        z85_decoded(descriptor.path_or_inline_dv@) == Some(uuid@),
{
    DeletionVectorDescriptor {
        storage_type: StorageType::UuidRelativePath,
        path_or_inline_dv: z85_encode(uuid),
        offset: Some(partial.offset),
        size_in_bytes: partial.size_in_bytes,
        cardinality: partial.cardinality,
    }
}

/// The length of a file with one more record, where an allocation can have it.
pub(crate) fn grown_file_len(len: usize, payload_size: usize) -> (grown: Option<usize>)
    ensures
        grown == (if len + 12 + payload_size <= isize::MAX {
            Some((len + 12 + payload_size) as usize)
        } else {
            None
        }),
{
    let limit: usize = isize::MAX as usize;
    match len.checked_add(DATA_SIZE_SIZE + MAGIC_SIZE + CHECKSUM_SIZE) {
        Some(framed) => match framed.checked_add(payload_size) {
            Some(grown) => if grown <= limit {
                Some(grown)
            } else {
                None
            },
            None => None,
        },
        None => None,
    }
}

} // verus!
