//! What the library takes on trust of the crates that it calls.
//!
//! Every item here stands for one function of an outside crate and says what that function
//! does; the rest of the library is proved from these statements.

use bytes::BufMut;
use roaring::{RoaringBitmap, RoaringTreemap};
use vstd::prelude::*;

verus! {

/// [`bytes::BytesMut`], a growable byte buffer.
#[verifier::external_type_specification]
#[verifier::external_body]
pub struct ExBytesMut(bytes::BytesMut);

/// [`bytes::Bytes`], an immutable byte buffer.
#[verifier::external_type_specification]
#[verifier::external_body]
pub struct ExBytes(bytes::Bytes);

/// [`roaring::RoaringBitmap`], a compressed set of 32-bit integers.
#[verifier::external_type_specification]
#[verifier::external_body]
pub struct ExRoaringBitmap(roaring::RoaringBitmap);

/// [`roaring::RoaringTreemap`], a compressed set of 64-bit integers.
#[verifier::external_type_specification]
#[verifier::external_body]
pub struct ExRoaringTreemap(roaring::RoaringTreemap);

/// [`z85::DecodeError`], why a text is not Z85.
#[verifier::external_type_specification]
#[verifier::external_body]
pub struct ExZ85DecodeError(z85::DecodeError);

/// [`object_store::path::Error`], why a text is not an object path.
#[verifier::external_type_specification]
#[verifier::external_body]
pub struct ExObjectPathError(object_store::path::Error);

/// [`std::io::Error`].
#[verifier::external_type_specification]
#[verifier::external_body]
pub struct ExIoError(std::io::Error);

/// [`datafusion::execution::session_state::SessionState`], what a query engine needs to run.
#[verifier::external_type_specification]
#[verifier::external_body]
pub struct ExSessionState(datafusion::execution::session_state::SessionState);

/// [`parquet::file::properties::WriterProperties`], how data files are written.
#[verifier::external_type_specification]
#[verifier::external_body]
pub struct ExWriterProperties(parquet::file::properties::WriterProperties);

/// [`datafusion::logical_expr::Expr`], an expression of the query engine.
#[verifier::external_type_specification]
#[verifier::external_body]
pub struct ExExpr(datafusion::logical_expr::Expr);

/// The bytes that a buffer holds.
pub uninterp spec fn buffer_bytes(buffer: bytes::BytesMut) -> Seq<u8>;

/// The bytes that a frozen buffer holds.
pub uninterp spec fn frozen_bytes(buffer: bytes::Bytes) -> Seq<u8>;

/// `BytesMut::with_capacity` makes an empty buffer. It panics where the capacity is more
/// than an allocation can have.
pub assume_specification[ bytes::BytesMut::with_capacity ](capacity: usize) -> (buffer:
    bytes::BytesMut)
    requires
        capacity <= isize::MAX,
    ensures
        buffer_bytes(buffer) == Seq::<u8>::empty(),
;

/// `BytesMut::len` is the number of bytes in the buffer, which is never more than an
/// allocation can have.
pub assume_specification[ bytes::BytesMut::len ](buffer: &bytes::BytesMut) -> (len: usize)
    ensures
        len == buffer_bytes(*buffer).len(),
        len <= isize::MAX,
;

/// `BytesMut::freeze` keeps the bytes.
pub assume_specification[ bytes::BytesMut::freeze ](buffer: bytes::BytesMut) -> (frozen:
    bytes::Bytes)
    ensures
        frozen_bytes(frozen) == buffer_bytes(buffer),
;

/// The four bytes of an integer, most significant first.
pub open spec fn be32(n: u32) -> Seq<u8> {
    seq![
        (n / 0x100_0000) as u8,
        (n / 0x1_0000 % 0x100) as u8,
        (n / 0x100 % 0x100) as u8,
        (n % 0x100) as u8,
    ]
}

/// `BufMut::put_u8` on a `BytesMut` appends one byte. It panics where the buffer would
/// outgrow an allocation.
#[verifier::external_body]
pub(crate) fn put_u8(buffer: &mut bytes::BytesMut, n: u8)
    requires
        buffer_bytes(*old(buffer)).len() + 1 <= isize::MAX,
    ensures
        buffer_bytes(*final(buffer)) == buffer_bytes(*old(buffer)).push(n),
{
    buffer.put_u8(n)
}

/// `BufMut::put_u32` on a `BytesMut` appends the integer in big-endian order. It panics
/// where the buffer would outgrow an allocation.
#[verifier::external_body]
pub(crate) fn put_u32(buffer: &mut bytes::BytesMut, n: u32)
    requires
        buffer_bytes(*old(buffer)).len() + 4 <= isize::MAX,
    ensures
        buffer_bytes(*final(buffer)) == buffer_bytes(*old(buffer)) + be32(n),
{
    buffer.put_u32(n)
}

/// `BytesMut` derefs to the slice of its bytes.
#[verifier::external_body]
pub(crate) fn buffer_as_slice(buffer: &bytes::BytesMut) -> (bytes: &[u8])
    ensures
        bytes@ == buffer_bytes(*buffer),
{
    buffer.as_ref()
}

/// The rows that a bitmap says it contains.
pub uninterp spec fn bitmap_rows(bitmap: roaring::RoaringBitmap) -> Set<u32>;

/// Whether a bitmap is stored the way its own operations leave it: containers in ascending
/// order, none of them empty, each of the kind that its cardinality calls for. A bitmap that
/// was read from foreign bytes need not be.
pub uninterp spec fn bitmap_canonical(bitmap: roaring::RoaringBitmap) -> bool;

/// The portable serialization of a canonical bitmap with the given rows.
pub uninterp spec fn bitmap_portable(rows: Set<u32>) -> Seq<u8>;

/// The rows of the bitmap that a byte sequence starts with, if it starts with one.
pub uninterp spec fn bitmap_decoded(bytes: Seq<u8>) -> Option<Set<u32>>;

/// The rows that a treemap says it contains.
pub uninterp spec fn treemap_rows(treemap: roaring::RoaringTreemap) -> Set<u64>;

/// Whether a treemap is stored the way its own operations leave it: no bitmap in it is empty
/// and each of them is canonical. A treemap that was read from foreign bytes need not be.
pub uninterp spec fn treemap_canonical(treemap: roaring::RoaringTreemap) -> bool;

/// The portable serialization of a canonical treemap with the given rows.
pub uninterp spec fn treemap_portable(rows: Set<u64>) -> Seq<u8>;

/// The rows of the treemap that a byte sequence starts with, if it starts with one.
pub uninterp spec fn treemap_decoded(bytes: Seq<u8>) -> Option<Set<u64>>;

/// `RoaringBitmap::new` is the empty set.
pub assume_specification[ roaring::RoaringBitmap::new ]() -> (bitmap: roaring::RoaringBitmap)
    ensures
        bitmap_rows(bitmap) == Set::<u32>::empty(),
        bitmap_canonical(bitmap),
;

/// `Extend::extend` on a `RoaringBitmap` inserts every item, in any order and with any
/// repetitions.
#[verifier::external_body]
pub(crate) fn bitmap_extend(bitmap: &mut RoaringBitmap, rows: Vec<u32>)
    requires
        bitmap_canonical(*old(bitmap)),
    ensures
        bitmap_rows(*final(bitmap)) == bitmap_rows(*old(bitmap)).union(rows@.to_set()),
        bitmap_canonical(*final(bitmap)),
{
    bitmap.extend(rows)
}

/// `Extend::extend` on a `RoaringBitmap`, with the items of another bitmap, is the union of
/// the two.
#[verifier::external_body]
pub(crate) fn bitmap_merge(bitmap: &mut RoaringBitmap, other: &RoaringBitmap)
    requires
        bitmap_canonical(*old(bitmap)),
        bitmap_canonical(*other),
    ensures
        bitmap_rows(*final(bitmap)) == bitmap_rows(*old(bitmap)).union(bitmap_rows(*other)),
        bitmap_canonical(*final(bitmap)),
{
    bitmap.extend(other)
}

/// `RoaringBitmap::len` counts the rows of a canonical bitmap.
pub assume_specification[ roaring::RoaringBitmap::len ](bitmap: &roaring::RoaringBitmap) -> (len:
    u64)
    ensures
        bitmap_canonical(*bitmap) ==> len == bitmap_rows(*bitmap).len(),
;

/// `RoaringBitmap::serialized_size` is the length of what `serialize_into` writes of a
/// canonical bitmap.
pub assume_specification[ roaring::RoaringBitmap::serialized_size ](
    bitmap: &roaring::RoaringBitmap,
) -> (size: usize)
    ensures
        bitmap_canonical(*bitmap) ==> size == bitmap_portable(bitmap_rows(*bitmap)).len(),
;

/// Whether the serialization of these rows, whatever bytes come after it, is read back as
/// the same rows.
pub open spec fn bitmap_reads_back(rows: Set<u32>) -> bool {
    forall|tail: Seq<u8>| #[trigger] bitmap_decoded(bitmap_portable(rows) + tail) == Some(rows)
}

/// `RoaringBitmap::serialize_into`, through `BufMut::writer` on a `BytesMut`, appends the
/// portable serialization, which `deserialize_from` reads back without looking at what follows
/// it. The writer takes every byte as long as the buffer does not outgrow an allocation, so
/// nothing fails. It panics on a bitmap that holds an empty container.
#[verifier::external_body]
pub(crate) fn bitmap_serialize(bitmap: &RoaringBitmap, buffer: &mut bytes::BytesMut) -> (written:
    Result<(), std::io::Error>)
    requires
        bitmap_canonical(*bitmap),
        buffer_bytes(*old(buffer)).len() + bitmap_portable(bitmap_rows(*bitmap)).len()
            <= isize::MAX,
    ensures
        written is Ok,
        buffer_bytes(*final(buffer)) == buffer_bytes(*old(buffer)) + bitmap_portable(
            bitmap_rows(*bitmap),
        ),
        written is Ok ==> bitmap_reads_back(bitmap_rows(*bitmap)),
{
    bitmap.serialize_into(buffer.writer())
}

/// `RoaringBitmap::deserialize_from` on a slice reads the bitmap that the slice starts with, and
/// fails where it starts with none. From what `serialize_into` writes of a canonical bitmap it
/// makes a canonical one.
#[verifier::external_body]
pub(crate) fn bitmap_deserialize(bytes: &[u8]) -> (bitmap: Result<RoaringBitmap, std::io::Error>)
    ensures
        match bitmap {
            Ok(bitmap) => {
                &&& bitmap_decoded(bytes@) == Some(bitmap_rows(bitmap))
                &&& bitmap_portable(bitmap_rows(bitmap)).is_prefix_of(bytes@) ==> bitmap_canonical(
                    bitmap,
                )
            },
            Err(_) => bitmap_decoded(bytes@) is None,
        },
{
    RoaringBitmap::deserialize_from(bytes)
}

/// `RoaringTreemap::from_iter` collects the items, in any order and with any repetitions.
#[verifier::external_body]
pub(crate) fn treemap_from_rows(rows: Vec<u64>) -> (treemap: RoaringTreemap)
    ensures
        treemap_rows(treemap) == rows@.to_set(),
        treemap_canonical(treemap),
{
    RoaringTreemap::from_iter(rows)
}

/// `RoaringTreemap::contains` tells whether a row is in the treemap.
pub assume_specification[ roaring::RoaringTreemap::contains ](
    treemap: &roaring::RoaringTreemap,
    value: u64,
) -> (found: bool)
    ensures
        found == treemap_rows(*treemap).contains(value),
;

/// `RoaringTreemap::len` counts the rows of a canonical treemap.
pub assume_specification[ roaring::RoaringTreemap::len ](
    treemap: &roaring::RoaringTreemap,
) -> (len: u64)
    ensures
        treemap_canonical(*treemap) ==> len == treemap_rows(*treemap).len(),
;

/// `RoaringTreemap::serialized_size` is the length of what `serialize_into` writes of a
/// canonical treemap.
pub assume_specification[ roaring::RoaringTreemap::serialized_size ](
    treemap: &roaring::RoaringTreemap,
) -> (size: usize)
    ensures
        treemap_canonical(*treemap) ==> size == treemap_portable(treemap_rows(*treemap)).len(),
;

/// Whether the serialization of these rows, whatever bytes come after it, is read back as
/// the same rows.
pub open spec fn treemap_reads_back(rows: Set<u64>) -> bool {
    forall|tail: Seq<u8>|
        #[trigger] treemap_decoded(treemap_portable(rows) + tail) == Some(rows)
}

/// `RoaringTreemap::serialize_into`, through `BufMut::writer` on a `BytesMut`, appends the
/// portable serialization, which `deserialize_from` reads back without looking at what follows
/// it. The writer takes every byte as long as the buffer does not outgrow an allocation, so
/// nothing fails. It panics on a treemap that holds an empty container.
#[verifier::external_body]
pub(crate) fn treemap_serialize(treemap: &RoaringTreemap, buffer: &mut bytes::BytesMut) -> (written:
    Result<(), std::io::Error>)
    requires
        treemap_canonical(*treemap),
        buffer_bytes(*old(buffer)).len() + treemap_portable(treemap_rows(*treemap)).len()
            <= isize::MAX,
    ensures
        written is Ok,
        buffer_bytes(*final(buffer)) == buffer_bytes(*old(buffer)) + treemap_portable(
            treemap_rows(*treemap),
        ),
        written is Ok ==> treemap_reads_back(treemap_rows(*treemap)),
{
    treemap.serialize_into(buffer.writer())
}

/// `RoaringTreemap::deserialize_from` on a slice reads the treemap that the slice starts
/// with, and fails where it starts with none. From what `serialize_into` writes of a canonical
/// treemap it makes a canonical one.
#[verifier::external_body]
pub(crate) fn treemap_deserialize(bytes: &[u8]) -> (treemap: Result<
    RoaringTreemap,
    std::io::Error,
>)
    ensures
        match treemap {
            Ok(treemap) => {
                &&& treemap_decoded(bytes@) == Some(treemap_rows(treemap))
                &&& treemap_portable(treemap_rows(treemap)).is_prefix_of(bytes@)
                    ==> treemap_canonical(treemap)
            },
            Err(_) => treemap_decoded(bytes@) is None,
        },
{
    RoaringTreemap::deserialize_from(bytes)
}

/// The register of the CRC-32 after a number of bits: the polynomial is divided out of it from the
/// least significant bit on.
pub open spec fn crc32_shifted(register: u32, bits: nat) -> u32
    decreases bits,
{
    if bits == 0 {
        register
    } else {
        let before = crc32_shifted(register, (bits - 1) as nat);
        if before & 1 == 1 {
            (before >> 1) ^ 0xedb8_8320
        } else {
            before >> 1
        }
    }
}

/// The register of the CRC-32 after a byte sequence.
pub open spec fn crc32_register(bytes: Seq<u8>) -> u32
    decreases bytes.len(),
{
    if bytes.len() == 0 {
        0xffff_ffff
    } else {
        crc32_shifted(crc32_register(bytes.drop_last()) ^ (bytes.last() as u32), 8)
    }
}

/// The CRC-32 checksum (IEEE) of a byte sequence.
pub open spec fn crc32(bytes: Seq<u8>) -> u32 {
    crc32_register(bytes) ^ 0xffff_ffff
}

/// `crc32fast::hash` is the CRC-32 checksum (IEEE) of its argument.
pub assume_specification[ crc32fast::hash ](buf: &[u8]) -> (checksum: u32)
    ensures
        checksum == crc32(buf@),
;

/// The letter of a digit of Z85.
pub open spec fn z85_letter(digit: int) -> char {
    "0123456789abcdefghijklmnopqrstuvwxyzABCDEFGHIJKLMNOPQRSTUVWXYZ.-:+=^!/*?&<>()[]{}@%$#"@[digit]
}

/// The Z85 text of a byte sequence whose length is a multiple of four: five digits to the base of
/// 85 for each four bytes, the most significant first.
pub open spec fn z85_text(bytes: Seq<u8>) -> Seq<char> {
    Seq::new(
        bytes.len() / 4 * 5,
        |i: int|
            {
                let start = i / 5 * 4;
                let value = bytes[start] * 0x100_0000 + bytes[start + 1] * 0x1_0000 + bytes[start
                    + 2] * 0x100 + bytes[start + 3];
                let weight: int = if i % 5 == 0 {
                    52200625
                } else if i % 5 == 1 {
                    614125
                } else if i % 5 == 2 {
                    7225
                } else if i % 5 == 3 {
                    85
                } else {
                    1
                };
                z85_letter(value / weight % 85)
            },
    )
}

/// The byte sequence that a text is the Z85 of, if it is one.
pub uninterp spec fn z85_decoded(text: Seq<char>) -> Option<Seq<u8>>;

/// `z85::encode` writes five characters for every four bytes, and `z85::decode` takes them
/// back.
#[verifier::external_body]
pub(crate) fn z85_encode(bytes: &[u8; 16]) -> (text: String)
    ensures
        text@ == z85_text(bytes@),
        z85_decoded(text@) == Some(bytes@),
{
    z85::encode(bytes)
}

/// `z85::decode` gives the bytes of a Z85 text, and fails on any other text.
#[verifier::external_body]
pub(crate) fn z85_decode(text: &str) -> (bytes: Result<Vec<u8>, z85::DecodeError>)
    ensures
        match bytes {
            Ok(bytes) => z85_decoded(text@) == Some(bytes@),
            Err(_) => z85_decoded(text@) is None,
        },
{
    z85::decode(text)
}

/// The lower-case hexadecimal digit of a number below sixteen.
pub open spec fn hex_digit(n: int) -> char {
    if n < 10 {
        (48 + n) as char
    } else {
        (87 + n) as char
    }
}

/// The hyphenated text of a UUID: thirty-two hexadecimal digits in groups of eight, four,
/// four, four and twelve.
pub open spec fn uuid_text(uuid: Seq<u8>) -> Seq<char> {
    Seq::new(
        36,
        |i: int|
            if i == 8 || i == 13 || i == 18 || i == 23 {
                '-'
            } else {
                let digit = if i < 8 {
                    i
                } else if i < 13 {
                    i - 1
                } else if i < 18 {
                    i - 2
                } else if i < 23 {
                    i - 3
                } else {
                    i - 4
                };
                hex_digit(
                    if digit % 2 == 0 {
                        uuid[digit / 2] as int / 16
                    } else {
                        uuid[digit / 2] as int % 16
                    },
                )
            },
    )
}

/// `Uuid` is displayed in its hyphenated form.
#[verifier::external_body]
pub(crate) fn uuid_to_string(uuid: &[u8; 16]) -> (text: String)
    ensures
        text@ == uuid_text(uuid@),
{
    uuid::Uuid::from_bytes(*uuid).to_string()
}

/// `Uuid::new_v4` is random but for the bits that tell its version and its variant.
#[verifier::external_body]
pub(crate) fn random_uuid() -> (uuid: [u8; 16])
    ensures
        uuid@[6] as int / 16 == 4,
        uuid@[8] as int / 64 == 2,
{
    uuid::Uuid::new_v4().into_bytes()
}

/// Whether a range of a text lies between two delimiters, or between one and an end of the text,
/// with no delimiter in it.
pub open spec fn is_path_segment(text: Seq<char>, start: int, end: int) -> bool {
    &&& 0 <= start <= end <= text.len()
    &&& start == 0 || text[start - 1] == '/'
    &&& end == text.len() || text[end] == '/'
    &&& forall|i: int| start <= i < end ==> #[trigger] text[i] != '/'
}

/// Whether an object path can have a segment: it is not empty, neither `.` nor `..`, and holds no
/// ASCII control character.
pub open spec fn is_valid_segment(segment: Seq<char>) -> bool {
    &&& segment.len() > 0
    &&& segment != seq!['.']
    &&& segment != seq!['.', '.']
    &&& forall|i: int|
        0 <= i < segment.len() ==> (#[trigger] segment[i]) as int >= 32 && segment[i] as int != 127
}

/// A text without the delimiter that it starts with, if it does.
pub open spec fn without_leading_delimiter(text: Seq<char>) -> Seq<char> {
    if text.len() > 0 && text[0] == '/' {
        text.skip(1)
    } else {
        text
    }
}

/// A text without the delimiter that it ends with, if it does.
pub open spec fn without_trailing_delimiter(text: Seq<char>) -> Seq<char> {
    if text.len() > 0 && text.last() == '/' {
        text.drop_last()
    } else {
        text
    }
}

/// The object path that a text denotes, if it denotes one: the text without one delimiter at
/// either end, if all its segments are valid. A text that holds at most a delimiter denotes the
/// root.
pub open spec fn object_path(text: Seq<char>) -> Option<Seq<char>> {
    let relative = without_leading_delimiter(text);
    let path = without_trailing_delimiter(relative);
    if relative.len() == 0 {
        Some(relative)
    } else if forall|start: int, end: int| #[trigger]
        is_path_segment(path, start, end) ==> is_valid_segment(path.subrange(start, end)) {
        Some(path)
    } else {
        None
    }
}

/// `object_store::path::Path::parse` gives the path that a text denotes, and fails where it
/// denotes none.
#[verifier::external_body]
pub(crate) fn parse_object_path(text: &str) -> (path: Result<String, object_store::path::Error>)
    ensures
        match path {
            Ok(path) => object_path(text@) == Some(path@),
            Err(_) => object_path(text@) is None,
        },
{
    object_store::path::Path::parse(text).map(String::from)
}

} // verus!
