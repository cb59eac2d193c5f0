use std::collections::BTreeMap;

use bytes::BytesMut;
use datafusion::logical_expr::Expr;
use datafusion::prelude::{col, lit};
use delta_deletion_vectors::delete::marking::{
    collect_partitions, merge_partitions, DeletedRows, DeletionVectorMap, DeletionVectorWriter,
    PartitionResult, ROW_NUMBER_COLUMN,
};
use delta_deletion_vectors::delete::rows::{change_feed, RowFilter, Strategy};
use delta_deletion_vectors::delete::run::{
    counts_source_rows, CandidateFiles, DeleteRun, PendingDelete, RowCounts, SOURCE_COUNT_ID,
    SOURCE_COUNT_METRIC,
};
use delta_deletion_vectors::delete::vector_file::{
    deletion_vector_actions, deletion_vectors_file, deletion_vectors_path,
    deserialize_deletion_vector, new_deletion_vectors_file,
    new_deletion_vectors_file_of_partitions, PartitionsFile, write_deletion_vector, write_deletion_vectors_file,
};
use delta_deletion_vectors::delete::{
    predicate_or_all_rows, resolve_predicate, text_to_parse, DeleteBuilder, DeleteMetrics, Expression,
};
use delta_deletion_vectors::errors::{DeltaResult, DeltaTableError};
use delta_deletion_vectors::kernel::{
    Action, Add, AddCDCFile, DeletionVectorDescriptor, Remove, StorageType,
};
use roaring::RoaringBitmap;
use uuid::Uuid;

#[test]
fn delete_test_write_deletion_vectors_file() {
    let uuid = Uuid::from_u128(1);
    let (result, bytes) = write_deletion_vectors_file(
        uuid.as_bytes(),
        BTreeMap::from_iter([
            (
                "file1.parquet".to_string(),
                RoaringBitmap::from_iter(vec![1, 2, 3]),
            ),
            (
                "file2.parquet".to_string(),
                RoaringBitmap::from_iter(vec![4, 5, 6]),
            ),
        ])
        .into_iter()
        .collect(),
    )
    .expect("Failed to write deletion vectors file");
    assert_eq!(result.len(), 2);
    assert_eq!(bytes.len(), 69);

    let file1 = result.get("file1.parquet").unwrap();
    assert_eq!(
        file1,
        &DeletionVectorDescriptor {
            storage_type: StorageType::UuidRelativePath,
            path_or_inline_dv: z85::encode(uuid.as_bytes()),
            offset: Some(1),
            size_in_bytes: 26,
            cardinality: 3,
        }
    );
    let file2 = result.get("file2.parquet").unwrap();
    assert_eq!(
        file2,
        &DeletionVectorDescriptor {
            storage_type: StorageType::UuidRelativePath,
            path_or_inline_dv: z85::encode(uuid.as_bytes()),
            offset: Some(35),
            size_in_bytes: 26,
            cardinality: 3,
        }
    );
}

#[test]
fn delete_test_write_one_deletion_vector() {
    let mut buffer = BytesMut::new();
    let result = write_deletion_vector(&mut buffer, &RoaringBitmap::from_iter(vec![1, 2, 3]))
        .expect("Failed to write deletion vector");
    assert_eq!(result.offset, 0);
    assert_eq!(result.size_in_bytes, 26);
    assert_eq!(result.cardinality, 3);
    assert_eq!(buffer.len(), 34);
}

#[test]
fn delete_test_read_deletion_vector_file() {}

fn add(path: &str) -> Add {
    Add {
        path: path.to_string(),
        partition_values: vec![("year".to_string(), Some("2020".to_string()))],
        size: 100,
        modification_time: 5,
        data_change: true,
        stats: Some("{}".to_string()),
        tags: None,
        deletion_vector: None,
        base_row_id: Some(7),
        default_row_commit_version: Some(8),
        clustering_provider: None,
    }
}

fn batch(rows: &[(&str, u64)]) -> DeletedRows {
    DeletedRows {
        row_numbers: Some(rows.iter().map(|(_, row)| Some(*row)).collect()),
        file_names: Ok(rows.iter().map(|(name, _)| Some(name.to_string())).collect()),
    }
}

fn marked(batches: &[&[(&str, u64)]]) -> DeletionVectorMap {
    let mut writer = DeletionVectorWriter::new();
    for rows in batches {
        writer.write(batch(rows)).unwrap();
    }
    writer.close().unwrap()
}

fn rows_of(map: &DeletionVectorMap, name: &str) -> Vec<u32> {
    map.get(name).map(|rows| rows.iter().collect()).unwrap_or_default()
}

#[test]
fn rows_are_marked_by_file() {
    let map = marked(&[&[("a", 3), ("b", 1), ("a", 1)], &[("a", 1), ("c", 9)]]);
    assert_eq!(map.len(), 3);
    assert_eq!(rows_of(&map, "a"), vec![1, 3]);
    assert_eq!(rows_of(&map, "b"), vec![1]);
    assert_eq!(rows_of(&map, "c"), vec![9]);
    assert!(map.get("d").is_none());
}

#[test]
fn row_numbers_are_taken_modulo_two_to_the_32() {
    let map = marked(&[&[("a", (1 << 32) + 5)]]);
    assert_eq!(rows_of(&map, "a"), vec![5]);
}

#[test]
fn shorter_column_decides() {
    let mut writer = DeletionVectorWriter::new();
    writer
        .write(DeletedRows {
            row_numbers: Some(vec![Some(1), Some(2)]),
            file_names: Ok(vec![Some("a".to_string())]),
        })
        .unwrap();
    writer
        .write(DeletedRows {
            row_numbers: Some(vec![]),
            file_names: Ok(vec![None]),
        })
        .unwrap();
    let map = writer.close().unwrap();
    assert_eq!(map.len(), 1);
    assert_eq!(rows_of(&map, "a"), vec![1]);
}

#[test]
fn missing_columns_are_errors() {
    let mut writer = DeletionVectorWriter::new();
    let missing_rows = writer.write(DeletedRows {
        row_numbers: None,
        file_names: Err(DeltaTableError::Generic("no paths".to_string())),
    });
    assert!(matches!(
        missing_rows,
        Err(DeltaTableError::Generic(message))
            if message == format!("Column '{}' not found in record batch", ROW_NUMBER_COLUMN)
    ));
    let missing_paths = writer.write(DeletedRows {
        row_numbers: Some(vec![Some(1)]),
        file_names: Err(DeltaTableError::Generic("no paths".to_string())),
    });
    assert!(matches!(
        missing_paths,
        Err(DeltaTableError::Generic(message)) if message == "no paths"
    ));
    assert_eq!(writer.close().unwrap().len(), 0);
}

#[test]
fn parts_of_a_scan_are_merged() {
    assert!(merge_partitions(vec![]).is_none());
    assert_eq!(merge_partitions(vec![marked(&[])]).unwrap().len(), 0);

    let first: &[(&str, u64)] = &[("a", 1), ("b", 2)];
    let second: &[(&str, u64)] = &[("a", 3), ("c", 4), ("a", 1)];
    let together = marked(&[first, second]);
    let merged = merge_partitions(vec![marked(&[first]), marked(&[second])]).unwrap();
    let swapped = merge_partitions(vec![marked(&[second]), marked(&[first])]).unwrap();
    for name in ["a", "b", "c", "d"] {
        assert_eq!(rows_of(&merged, name), rows_of(&together, name));
        assert_eq!(rows_of(&swapped, name), rows_of(&together, name));
    }
    assert_eq!(merged.len(), 3);
    assert_eq!(rows_of(&merged, "a"), vec![1, 3]);
}

#[test]
fn first_failing_part_decides() {
    let ok = || -> PartitionResult { Ok(Ok(marked(&[&[("a", 1)]]))) };
    assert_eq!(collect_partitions(vec![ok(), ok()]).unwrap().len(), 2);
    assert_eq!(collect_partitions(vec![]).unwrap().len(), 0);
    let failed = collect_partitions(vec![
        ok(),
        Ok(Err(DeltaTableError::Generic("inner".to_string()))),
        Err("cancelled".to_string()),
    ]);
    assert!(matches!(failed, Err(DeltaTableError::Generic(message)) if message == "inner"));
    let failed = collect_partitions(vec![
        Err("cancelled".to_string()),
        Ok(Err(DeltaTableError::NotInitializedWithFiles("X".to_string()))),
    ]);
    assert!(matches!(failed, Err(DeltaTableError::Generic(message)) if message == "cancelled"));
}

#[test]
fn path_of_a_vector_file() {
    let uuid = Uuid::from_u128(0x0123_4567_89ab_cdef_0123_4567_89ab_cdef);
    assert_eq!(
        deletion_vectors_path(uuid.as_bytes()),
        "deletion_vector_01234567-89ab-cdef-0123-456789abcdef.bin"
    );
}

#[test]
fn file_with_marked_rows() {
    let uuid = Uuid::from_u128(1);
    let file = deletion_vectors_file(uuid.as_bytes(), marked(&[&[("value.parquet", 0)]]))
        .unwrap()
        .unwrap();
    assert_eq!(file.path, format!("deletion_vector_{}.bin", uuid));
    assert_eq!(file.bytes.len(), 31);
    assert_eq!(
        file.descriptors.get("value.parquet").unwrap(),
        &DeletionVectorDescriptor {
            storage_type: StorageType::UuidRelativePath,
            path_or_inline_dv: z85::encode(uuid.as_bytes()),
            offset: Some(1),
            size_in_bytes: 22,
            cardinality: 1,
        }
    );
    let stored =
        deserialize_deletion_vector(&file.bytes, file.descriptors.get("value.parquet").unwrap());
    assert_eq!(stored.unwrap(), RoaringBitmap::from_iter([0]));
}

#[test]
fn marked_rows_are_read_back() {
    let first = RoaringBitmap::from_iter([1, 2, 3]);
    let second = RoaringBitmap::from_iter((0..10_000).chain([u32::MAX]));
    let (descriptors, bytes) = write_deletion_vectors_file(
        &[5; 16],
        vec![
            ("a".to_string(), first.clone()),
            ("b".to_string(), second.clone()),
        ],
    )
    .unwrap();
    for (name, expected) in [("a", first), ("b", second)] {
        let descriptor = descriptors.get(name).unwrap();
        assert_eq!(
            deserialize_deletion_vector(&bytes, descriptor).unwrap(),
            expected
        );
        let start = descriptor.offset.unwrap() as usize;
        let size = descriptor.size_in_bytes as usize;
        let content = &bytes[start + 4..start + 4 + size];
        assert_eq!(&bytes[start..start + 4], &(size as u32).to_be_bytes());
        assert_eq!(&content[..4], &[0x64, 0x39, 0xd3, 0xd1]);
        assert_eq!(
            &bytes[start + 4 + size..start + 8 + size],
            &crc32fast::hash(content).to_be_bytes()
        );
    }
}

#[test]
fn foreign_bytes_are_no_bitmap() {
    let descriptor = DeletionVectorDescriptor {
        storage_type: StorageType::default(),
        path_or_inline_dv: "".to_string(),
        offset: Some(0),
        size_in_bytes: 20,
        cardinality: 0,
    };
    assert!(deserialize_deletion_vector(&[0xff; 64], &descriptor).is_err());
}

#[test]
fn new_files_have_random_names() {
    let first = new_deletion_vectors_file(marked(&[&[("a", 1)]])).unwrap().unwrap();
    let second = new_deletion_vectors_file(marked(&[&[("a", 1)]])).unwrap().unwrap();
    assert_ne!(first.path, second.path);
    let descriptor = first.descriptors.get("a").unwrap();
    let uuid = Uuid::from_slice(&z85::decode(&descriptor.path_or_inline_dv).unwrap()).unwrap();
    assert_eq!(uuid.get_version_num(), 4);
    assert_eq!(first.path, format!("deletion_vector_{}.bin", uuid));
}

#[test]
fn file_of_the_parts_of_a_scan() {
    let nothing = new_deletion_vectors_file_of_partitions(vec![]).unwrap();
    assert!(matches!(nothing, PartitionsFile::NoPartitions));

    let results = vec![
        Ok(Ok(marked(&[&[("a", 1)]]))),
        Ok(Ok(marked(&[&[("a", 3), ("b", 2)]]))),
    ];
    let PartitionsFile::File(file) = new_deletion_vectors_file_of_partitions(results).unwrap()
    else {
        panic!("no file");
    };
    assert_eq!(file.descriptors.len(), 2);
    for (name, expected) in [("a", vec![1, 3]), ("b", vec![2])] {
        let descriptor = file.descriptors.get(name).unwrap();
        assert_eq!(
            deserialize_deletion_vector(&file.bytes, descriptor).unwrap(),
            RoaringBitmap::from_iter(expected)
        );
    }

    let failed = new_deletion_vectors_file_of_partitions(vec![
        Ok(Ok(marked(&[]))),
        Err("cancelled".to_string()),
        Ok(Err(DeltaTableError::Generic("inner".to_string()))),
    ]);
    assert!(matches!(failed, Err(DeltaTableError::Generic(message)) if message == "cancelled"));
}

#[test]
fn vectors_that_were_read_can_be_written_again() {
    let (descriptors, bytes) = write_deletion_vectors_file(
        &[5; 16],
        vec![("a".to_string(), RoaringBitmap::from_iter(0..5_000))],
    )
    .unwrap();
    let read = deserialize_deletion_vector(&bytes, descriptors.get("a").unwrap()).unwrap();
    assert_eq!(read.len(), 5_000);
    let (_, again) = write_deletion_vectors_file(&[5; 16], vec![("a".to_string(), read)]).unwrap();
    assert_eq!(again, bytes);
}

#[test]
fn marked_files_are_replaced() {
    let file = deletion_vectors_file(&[1; 16], marked(&[&[("b", 1), ("z", 2)]]))
        .unwrap()
        .unwrap();
    let actions = deletion_vector_actions(vec![add("a"), add("b"), add("c")], &file.descriptors);
    let expected = Add {
        deletion_vector: Some(file.descriptors.get("b").unwrap().clone()),
        ..add("b")
    };
    assert_eq!(
        actions,
        vec![
            Action::Remove(Remove {
                path: "b".to_string(),
                data_change: true,
                deletion_timestamp: None,
                extended_file_metadata: None,
                partition_values: None,
                size: None,
                tags: None,
                deletion_vector: None,
                base_row_id: None,
                default_row_commit_version: None,
            }),
            Action::Add(expected),
        ]
    );
}

#[test]
fn strategies() {
    assert_eq!(Strategy::select(false, false), Strategy::RewriteFiles);
    assert_eq!(Strategy::select(false, true), Strategy::DropFiles);
    assert_eq!(Strategy::select(true, false), Strategy::MarkRows);
    assert_eq!(Strategy::select(true, true), Strategy::DropFiles);
    assert_eq!(
        Strategy::RewriteFiles.row_filter(),
        Some(RowFilter::IsNotTrue)
    );
    assert_eq!(Strategy::DropFiles.row_filter(), None);
    assert_eq!(Strategy::MarkRows.row_filter(), Some(RowFilter::IsTrue));
    assert!(!Strategy::RewriteFiles.scan_columns().file_column);
    assert_eq!(Strategy::DropFiles.scan_columns().row_number_column, None);
    assert!(Strategy::MarkRows.scan_columns().file_column);
    assert_eq!(
        Strategy::MarkRows.scan_columns().row_number_column,
        Some("__delta_rs_row_number")
    );
}

#[test]
fn change_data_feed() {
    let feed = change_feed(Ok::<bool, ()>(true)).unwrap();
    assert_eq!(feed.filter, RowFilter::Predicate);
    assert_eq!(feed.column, "_change_type");
    assert_eq!(feed.change_type, "delete");
    assert!(change_feed(Ok::<bool, ()>(false)).is_none());
    assert!(change_feed(Err(())).is_none());
}

#[test]
fn source_counter() {
    assert_eq!(SOURCE_COUNT_ID, "delete_source_count");
    assert_eq!(SOURCE_COUNT_METRIC, "num_source_rows");
    assert!(counts_source_rows(&"delete_source_count".to_string()));
    assert!(!counts_source_rows(&"merge_source_count".to_string()));
}

#[test]
fn files_must_be_loaded() {
    assert!(PendingDelete::new(true, true).unwrap().deletion_vectors);
    assert!(!PendingDelete::new(true, false).unwrap().deletion_vectors);
    assert!(matches!(
        PendingDelete::new(false, false),
        Err(DeltaTableError::NotInitializedWithFiles(operation)) if operation == "DELETE"
    ));
}

fn found(
    paths: &[&str],
    partition_scan: bool,
    deletion_vectors: bool,
    scan_time_ms: u64,
) -> DeleteRun {
    let found = CandidateFiles {
        candidates: paths.iter().map(|path| add(path)).collect(),
        partition_scan,
    };
    PendingDelete::new(true, deletion_vectors)
        .unwrap()
        .files_found(found, scan_time_ms)
}

fn tombstone(path: &str, deletion_timestamp: i64) -> Action {
    Action::Remove(Remove {
        path: path.to_string(),
        data_change: true,
        deletion_timestamp: Some(deletion_timestamp),
        extended_file_metadata: Some(true),
        partition_values: Some(vec![("year".to_string(), Some("2020".to_string()))]),
        size: Some(100),
        tags: None,
        deletion_vector: None,
        base_row_id: Some(7),
        default_row_commit_version: Some(8),
    })
}

#[test]
fn whole_files_are_dropped() {
    let run = found(&["a"], true, false, 3);
    assert_eq!(run.strategy, Strategy::DropFiles);
    let outcome = run.files_dropped().finish(vec![], 4, 1234);
    assert!(outcome.needs_commit());
    assert_eq!(outcome.actions, vec![tombstone("a", 1234)]);
    assert_eq!(
        outcome.metrics,
        DeleteMetrics {
            num_added_files: 0,
            num_removed_files: 1,
            num_deleted_rows: 0,
            num_copied_rows: 0,
            execution_time_ms: 0,
            scan_time_ms: 3,
            rewrite_time_ms: 4,
        }
    );
}

#[test]
fn whole_files_are_dropped_with_deletion_vectors() {
    let run = found(&["a", "b"], true, true, 0);
    assert_eq!(run.strategy, Strategy::DropFiles);
    let outcome = run.files_dropped().finish(vec![], 0, 7);
    assert_eq!(
        outcome.actions,
        vec![tombstone("a", 7), tombstone("b", 7)]
    );
    assert_eq!(outcome.metrics.num_added_files, 0);
    assert_eq!(outcome.metrics.num_removed_files, 2);
}

#[test]
fn second_delete_changes_nothing() {
    let counts = RowCounts {
        read: 0,
        passed: Some(0),
    };
    let outcome = found(&[], false, false, 0)
        .rows_written(vec![], Some(counts))
        .unwrap()
        .finish(vec![], 0, 0);
    assert!(!outcome.needs_commit());
    assert_eq!(outcome.metrics, DeleteMetrics::default());
}

#[test]
fn files_are_rewritten() {
    let change = || {
        Action::Cdc(AddCDCFile {
            path: "cdc".to_string(),
            size: 1,
            partition_values: vec![],
            data_change: false,
            tags: None,
        })
    };
    let run = found(&["a", "b"], false, false, 0);
    assert_eq!(run.strategy, Strategy::RewriteFiles);
    let counts = RowCounts {
        read: 4,
        passed: Some(3),
    };
    let outcome = run
        .rows_written(vec![Action::Add(add("new"))], Some(counts))
        .unwrap()
        .finish(vec![change()], 0, 9);
    assert_eq!(
        outcome.actions,
        vec![
            Action::Add(add("new")),
            change(),
            tombstone("a", 9),
            tombstone("b", 9)
        ]
    );
    assert_eq!(outcome.metrics.num_added_files, 2);
    assert_eq!(outcome.metrics.num_removed_files, 2);
    assert_eq!(outcome.metrics.num_deleted_rows, 1);
    assert_eq!(outcome.metrics.num_copied_rows, 3);
}

#[test]
fn marked_rows_count_as_copied() {
    let file = deletion_vectors_file(&[1; 16], marked(&[&[("a", 0)]]))
        .unwrap()
        .unwrap();
    let run = found(&["a"], false, true, 0);
    assert_eq!(run.strategy, Strategy::MarkRows);
    let counts = RowCounts {
        read: 3,
        passed: Some(1),
    };
    let written = deletion_vector_actions(vec![add("a")], &file.descriptors);
    let metrics = run
        .rows_written(written, Some(counts))
        .unwrap()
        .finish(vec![], 0, 0)
        .metrics;
    assert_eq!(metrics.num_added_files, 2);
    assert_eq!(metrics.num_removed_files, 1);
    assert_eq!(metrics.num_deleted_rows, 2);
    assert_eq!(metrics.num_copied_rows, 1);
}

#[test]
fn rows_must_be_counted() {
    assert!(matches!(
        found(&[], false, false, 0).rows_written(vec![], None),
        Err(DeltaTableError::Generic(message))
            if message == "Unable to locate expected metric node"
    ));
    let counts = RowCounts {
        read: 4,
        passed: None,
    };
    let metrics = found(&[], false, false, 0)
        .rows_written(vec![], Some(counts))
        .unwrap()
        .metrics;
    assert_eq!(metrics.num_copied_rows, 0);
    assert_eq!(metrics.num_deleted_rows, 4);
}

#[test]
fn nothing_to_commit() {
    let outcome = found(&[], true, false, 0)
        .files_dropped()
        .finish(vec![], 0, 0);
    assert!(!outcome.needs_commit());
    assert_eq!(outcome.metrics, DeleteMetrics::default());
}

type Builder = DeleteBuilder<String, u8, u32, String>;

#[test]
fn builder() {
    let builder: Builder = DeleteBuilder::new("store".to_string(), 5);
    assert!(builder.predicate.is_none());
    assert_eq!(builder.snapshot, 5);
    assert_eq!(builder.log_store(), "store");
    assert!(builder.state.is_none());
    assert!(builder.writer_properties.is_none());
    assert_eq!(builder.commit_properties, 0);
    assert!(builder.get_custom_execute_handler().is_none());
    assert!(!builder.deletion_vectors);

    let builder = builder
        .with_predicate(col("value").eq(lit(1)))
        .with_session_state(datafusion::prelude::SessionContext::new().state())
        .with_commit_properties(3)
        .with_writer_properties(Default::default())
        .with_custom_execute_handler("handler".to_string())
        .with_deletion_vectors(true);
    assert!(matches!(
        &builder.predicate,
        Some(Expression::DataFusion(expr)) if *expr == col("value").eq(lit(1))
    ));
    assert!(builder.state.is_some());
    assert!(builder.writer_properties.is_some());
    assert_eq!(builder.commit_properties, 3);
    assert_eq!(builder.get_custom_execute_handler().unwrap(), "handler");
    assert!(builder.deletion_vectors);
}

#[test]
fn predicates() {
    let builder: Builder = DeleteBuilder::new("store".to_string(), 5);
    let builder = builder.with_predicate("props['a'] = '2021-02-02'");
    assert_eq!(
        text_to_parse(&builder.predicate).unwrap(),
        "props['a'] = '2021-02-02'"
    );
    let parsed: DeltaResult<Expr> = Ok(col("a"));
    let resolved = resolve_predicate(builder.predicate, Some(parsed)).unwrap();
    assert_eq!(resolved, Some(col("a")));

    let text = Some(Expression::from("a =".to_string()));
    let failed = resolve_predicate(
        text,
        Some(Err(DeltaTableError::Generic("end of text".to_string()))),
    );
    assert!(matches!(failed, Err(DeltaTableError::Generic(message)) if message == "end of text"));

    let expression = Some(Expression::from(col("b")));
    assert!(text_to_parse(&expression).is_none());
    assert_eq!(
        resolve_predicate(expression, None).unwrap(),
        Some(col("b"))
    );
    assert_eq!(predicate_or_all_rows(Some(col("b")), lit(true)), col("b"));
    assert_eq!(predicate_or_all_rows(None, lit(true)), lit(true));
    assert!(text_to_parse(&None).is_none());
    assert_eq!(resolve_predicate(None, None).unwrap(), None);
}
