use std::collections::BTreeMap;

use bytes::BytesMut;
use delta_deletion_vectors::deletion_vectors::{
    deletion_vector_from_rows, deletion_vector_lies_within, deserialize_deletion_vector,
    write_deleted_rows_file, write_deletion_vector, write_deletion_vectors_file,
};
use delta_deletion_vectors::format::PartialDeletionVectorDescriptor;
use delta_deletion_vectors::kernel::{DeletionVectorDescriptor, StorageType};
use roaring::RoaringTreemap;
use uuid::Uuid;

fn descriptor(offset: Option<i32>, size_in_bytes: i32) -> DeletionVectorDescriptor {
    DeletionVectorDescriptor {
        storage_type: Default::default(),
        path_or_inline_dv: "".to_string(),
        offset,
        size_in_bytes,
        cardinality: 0,
    }
}

#[test]
fn deletion_vectors_test_write_one_deletion_vector() {
    let mut buffer = BytesMut::new();
    let result = write_deletion_vector(&mut buffer, &RoaringTreemap::from_iter(vec![1, 2, 3]))
        .expect("Failed to write deletion vector");
    assert_eq!(result.offset, 0);
    assert_eq!(result.size_in_bytes, 38);
    assert_eq!(result.cardinality, 3);
    assert_eq!(buffer.len(), 46);
}

#[test]
fn deletion_vectors_test_read_deletion_vector_file() {
    let mut buffer = BytesMut::new();
    let expected = RoaringTreemap::from_iter(vec![1, 2, 3]);
    let result =
        write_deletion_vector(&mut buffer, &expected).expect("Failed to write deletion vector");
    assert_eq!(
        result,
        PartialDeletionVectorDescriptor {
            offset: 0,
            size_in_bytes: 38,
            cardinality: 3,
        }
    );
    let actual = deserialize_deletion_vector(
        &buffer.freeze(),
        &DeletionVectorDescriptor {
            storage_type: Default::default(),
            path_or_inline_dv: "".to_string(),
            offset: Some(0),
            size_in_bytes: 38,
            cardinality: 3,
        },
    )
    .expect("Failed to deserialize deletion vector");
    assert_eq!(actual, expected);
}

#[test]
fn deletion_vectors_test_write_deletion_vectors_file() {
    let uuid = Uuid::from_u128(1);
    let vector1 = RoaringTreemap::from_iter(vec![1, 2, 3]);
    let vector2 = RoaringTreemap::from_iter(vec![4, 5, 6]);
    let (result, bytes) = write_deletion_vectors_file(
        uuid.as_bytes(),
        BTreeMap::from_iter([
            ("file1.parquet".to_string(), vector1.clone()),
            ("file2.parquet".to_string(), vector2.clone()),
        ])
        .into_iter()
        .collect(),
    )
    .expect("Failed to write deletion vectors file");
    assert_eq!(result.len(), 2);
    assert_eq!(bytes.len(), 93);

    let file1 = result.get("file1.parquet").unwrap();
    assert_eq!(
        file1,
        &DeletionVectorDescriptor {
            storage_type: StorageType::UuidRelativePath,
            path_or_inline_dv: z85::encode(uuid.as_bytes()),
            offset: Some(1),
            size_in_bytes: 38,
            cardinality: 3,
        }
    );
    assert_eq!(vector1, deserialize_deletion_vector(&bytes, file1).unwrap());

    let file2 = result.get("file2.parquet").unwrap();
    assert_eq!(
        file2,
        &DeletionVectorDescriptor {
            storage_type: StorageType::UuidRelativePath,
            path_or_inline_dv: z85::encode(uuid.as_bytes()),
            offset: Some(47),
            size_in_bytes: 38,
            cardinality: 3,
        }
    );
    assert_eq!(vector2, deserialize_deletion_vector(&bytes, file2).unwrap());
}

/// CRC-32, one bit at a time.
fn crc32_of(bytes: &[u8]) -> u32 {
    let mut crc = 0xffff_ffffu32;
    for byte in bytes {
        crc ^= *byte as u32;
        for _ in 0..8 {
            crc = if crc & 1 == 1 {
                (crc >> 1) ^ 0xedb8_8320
            } else {
                crc >> 1
            };
        }
    }
    !crc
}

#[test]
fn record_layout() {
    let vector = RoaringTreemap::from_iter(vec![1, 2, 3]);
    let mut payload = vec![];
    vector.serialize_into(&mut payload).unwrap();
    let mut buffer = BytesMut::new();
    buffer.extend_from_slice(&[9, 9]);
    let result = write_deletion_vector(&mut buffer, &vector).unwrap();
    assert_eq!(result.offset, 2);
    assert_eq!(&buffer[..2], &[9, 9]);
    assert_eq!(&buffer[2..6], &[0, 0, 0, 38]);
    assert_eq!(&buffer[6..10], &[0x64, 0x39, 0xd3, 0xd1]);
    assert_eq!(&buffer[10..44], &payload[..]);
    assert_eq!(&buffer[44..], &crc32_of(&buffer[6..44]).to_be_bytes());
}

#[test]
fn checksum_of_known_bytes() {
    assert_eq!(crc32_of(b"123456789"), 0xcbf4_3926);
    assert_eq!(crc32_of(b""), 0);
}

#[test]
fn vector_of_row_numbers() {
    assert_eq!(
        deletion_vector_from_rows(vec![3, 1, 3, 1 << 33]),
        RoaringTreemap::from_iter([1, 3, 1 << 33])
    );
}

#[test]
fn file_without_vectors_is_its_version() {
    let (result, bytes) = write_deletion_vectors_file(&[0; 16], vec![]).unwrap();
    assert_eq!(result.len(), 0);
    assert_eq!(&bytes[..], &[1]);
}

#[test]
fn last_vector_of_a_name_is_described() {
    let first = RoaringTreemap::from_iter(vec![1]);
    let last = RoaringTreemap::from_iter(vec![2, 3]);
    let (result, bytes) = write_deletion_vectors_file(
        &[7; 16],
        vec![
            ("a".to_string(), first.clone()),
            ("b".to_string(), first.clone()),
            ("a".to_string(), last.clone()),
        ],
    )
    .unwrap();
    assert_eq!(result.len(), 2);
    let a = result.get("a").unwrap();
    assert_eq!(a.cardinality, 2);
    assert_eq!(deserialize_deletion_vector(&bytes, a).unwrap(), last);
    let b = result.get("b").unwrap();
    assert_eq!(deserialize_deletion_vector(&bytes, b).unwrap(), first);
    assert!(result.get("c").is_none());
}

/// Z85, digit by digit.
fn z85_of(bytes: &[u8]) -> String {
    let letters = b"0123456789abcdefghijklmnopqrstuvwxyzABCDEFGHIJKLMNOPQRSTUVWXYZ.-:+=^!/*?&<>()[]{}@%$#";
    let mut text = String::new();
    for chunk in bytes.chunks(4) {
        let value = chunk.iter().fold(0u64, |value, byte| value * 256 + *byte as u64);
        for weight in [52200625, 614125, 7225, 85, 1] {
            text.push(letters[(value / weight % 85) as usize] as char);
        }
    }
    text
}

#[test]
fn z85_of_known_bytes() {
    let bytes = [0x86, 0x4f, 0xd2, 0x6f, 0xb5, 0x59, 0xf7, 0x5b];
    assert_eq!(z85_of(&bytes), "HelloWorld");
}

#[test]
fn descriptor_path_names_the_uuid() {
    let uuid = Uuid::from_u128(0x0123_4567_89ab_cdef_0123_4567_89ab_cdef);
    let (result, _) = write_deletion_vectors_file(
        uuid.as_bytes(),
        vec![("a".to_string(), RoaringTreemap::new())],
    )
    .unwrap();
    let path = &result.get("a").unwrap().path_or_inline_dv;
    assert_eq!(path.len(), 20);
    assert_eq!(path, &z85_of(uuid.as_bytes()));
    assert_eq!(z85::decode(path).unwrap(), uuid.as_bytes());
}

#[test]
fn deleted_rows_are_read_back() {
    let rows = vec![5, 0, u64::MAX, 5, 1 << 40];
    let (result, bytes) = write_deleted_rows_file(
        &[3; 16],
        vec![("a".to_string(), rows.clone()), ("b".to_string(), vec![])],
    )
    .unwrap()
    .unwrap();
    let a = result.get("a").unwrap();
    assert_eq!(a.cardinality, 4);
    assert!(deletion_vector_lies_within(a, bytes.len()));
    assert_eq!(
        deserialize_deletion_vector(&bytes, a).unwrap(),
        RoaringTreemap::from_iter(rows)
    );
    let b = result.get("b").unwrap();
    assert_eq!(b.cardinality, 0);
    assert!(deserialize_deletion_vector(&bytes, b).unwrap().is_empty());
}

#[test]
fn treemaps_that_were_read_can_be_written_again() {
    let vector = RoaringTreemap::from_iter((0..5_000).chain([1 << 40]));
    let mut buffer = BytesMut::new();
    let partial = write_deletion_vector(&mut buffer, &vector).unwrap();
    let read =
        deserialize_deletion_vector(&buffer, &descriptor(Some(0), partial.size_in_bytes)).unwrap();
    assert_eq!(read.len(), 5_001);
    let mut again = BytesMut::new();
    assert_eq!(write_deletion_vector(&mut again, &read).unwrap(), partial);
    assert_eq!(again, buffer);
}

#[test]
fn missing_offset_is_zero() {
    let expected = RoaringTreemap::from_iter(vec![1, 2, 3]);
    let mut buffer = BytesMut::new();
    write_deletion_vector(&mut buffer, &expected).unwrap();
    let actual = deserialize_deletion_vector(&buffer, &descriptor(None, 38)).unwrap();
    assert_eq!(actual, expected);
}

#[test]
fn foreign_bytes_are_an_error() {
    let bytes = [0xff; 64];
    assert!(deserialize_deletion_vector(&bytes, &descriptor(Some(0), 40)).is_err());
    assert!(deserialize_deletion_vector(&bytes, &descriptor(Some(0), 0)).is_err());
}

#[test]
fn range_of_a_descriptor() {
    assert!(deletion_vector_lies_within(&descriptor(Some(1), 10), 19));
    assert!(!deletion_vector_lies_within(&descriptor(Some(1), 10), 18));
    assert!(deletion_vector_lies_within(&descriptor(None, 0), 8));
    assert!(!deletion_vector_lies_within(&descriptor(None, 0), 7));
    assert!(!deletion_vector_lies_within(&descriptor(Some(-1), 10), 100));
    assert!(!deletion_vector_lies_within(&descriptor(Some(0), -1), 100));
    assert!(!deletion_vector_lies_within(
        &descriptor(Some(i32::MAX), i32::MAX),
        100
    ));
}

#[test]
fn default_storage_type() {
    assert_eq!(StorageType::default(), StorageType::UuidRelativePath);
}
