use delta_deletion_vectors::deletion_vectors::{
    deserialize_deletion_vector, write_deleted_rows_file,
};
use delta_deletion_vectors::errors::{LocationError, SchemaError};
use delta_deletion_vectors::file_source::{
    columns_of_data_file, deleted_flags, locate_deletion_vector, DeletionVectorLocation,
};
use roaring::RoaringTreemap;

#[test]
fn deleted_column_is_not_read() {
    assert_eq!(columns_of_data_file(None, 4, 2), vec![0, 1, 3]);
    assert_eq!(columns_of_data_file(None, 0, 0), Vec::<usize>::new());
    assert_eq!(columns_of_data_file(None, 2, 5), vec![0, 1]);
    assert_eq!(
        columns_of_data_file(Some(&vec![3, 2, 0, 2]), 4, 2),
        vec![3, 0]
    );
    assert_eq!(columns_of_data_file(Some(&vec![]), 4, 2), Vec::<usize>::new());
}

#[test]
fn no_row_is_deleted_without_a_vector() {
    let flags = deleted_flags(None, None, 3, "row").unwrap();
    assert_eq!(flags, vec![Some(false); 3]);
    let flags = deleted_flags(None, Some(&vec![Some(1)]), 0, "row").unwrap();
    assert!(flags.is_empty());
}

#[test]
fn rows_of_the_vector_are_deleted() {
    let vector = RoaringTreemap::from_iter(vec![1, 1 << 40]);
    let rows = vec![Some(0), Some(1), None, Some(1 << 40), Some(2)];
    let flags = deleted_flags(Some(&vector), Some(&rows), 5, "row").unwrap();
    assert_eq!(
        flags,
        vec![Some(false), Some(true), None, Some(true), Some(false)]
    );
}

#[test]
fn row_numbers_are_needed_with_a_vector() {
    let vector = RoaringTreemap::new();
    let SchemaError(message) = deleted_flags(Some(&vector), None, 5, "row").unwrap_err();
    assert_eq!(
        message,
        "Row number column 'row' with type Uint64 not found in batch"
    );
}

#[test]
fn written_rows_are_flagged() {
    let (descriptors, bytes) =
        write_deleted_rows_file(&[1; 16], vec![("a".to_string(), vec![2, 4])])
            .unwrap()
            .unwrap();
    let vector = deserialize_deletion_vector(&bytes, descriptors.get("a").unwrap()).unwrap();
    let rows = (1..5).map(Some).collect();
    assert_eq!(
        deleted_flags(Some(&vector), Some(&rows), 4, "row").unwrap(),
        vec![Some(false), Some(true), Some(false), Some(true)]
    );
}

#[test]
fn vector_in_an_object() {
    assert_eq!(
        locate_deletion_vector(Some("/ab/deletion_vector_x.bin"), "unused").unwrap(),
        DeletionVectorLocation::Object("ab/deletion_vector_x.bin".to_string())
    );
    assert!(matches!(
        locate_deletion_vector(Some("a//b"), "unused"),
        Err(LocationError::Path(_))
    ));
}

#[test]
fn paths_of_objects() {
    let path = |text: &str| match locate_deletion_vector(Some(text), "unused") {
        Ok(DeletionVectorLocation::Object(path)) => Some(path),
        _ => None,
    };
    assert_eq!(path(""), Some("".to_string()));
    assert_eq!(path("/"), Some("".to_string()));
    assert_eq!(path("//"), None);
    assert_eq!(path("a/"), Some("a".to_string()));
    assert_eq!(path("/a/b/"), Some("a/b".to_string()));
    assert_eq!(path("//a"), None);
    assert_eq!(path("a/./b"), None);
    assert_eq!(path("a/.."), None);
    assert_eq!(path("a/...b"), Some("a/...b".to_string()));
    assert_eq!(path("a\tb"), None);
    assert_eq!(path("a\u{7f}"), None);
    assert_eq!(path("a%20b"), Some("a%20b".to_string()));
}

#[test]
fn vector_in_the_log() {
    assert_eq!(
        locate_deletion_vector(None, "HelloWorld").unwrap(),
        DeletionVectorLocation::Inline(vec![0x86, 0x4f, 0xd2, 0x6f, 0xb5, 0x59, 0xf7, 0x5b])
    );
    assert!(matches!(
        locate_deletion_vector(None, "four"),
        Err(LocationError::Inline(_))
    ));
}
