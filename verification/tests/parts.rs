//! The small parts: paths, writers, entries and numbers as text.

use std::collections::HashMap;

use iceberg_overwrite::action::collect_file_paths;
use iceberg_overwrite::error::{ErrorKind, RuleError};
use iceberg_overwrite::ids::Uuid;
use iceberg_overwrite::model::{
    DataFile, FormatVersion, Manifest, ManifestContentType, ManifestEntry, ManifestFile,
    ManifestMetadata, ManifestStatus, Operation, PartitionSpec, TableMetadata, TableTypes,
};
use iceberg_overwrite::operation::{
    manifest_path, writer_kind, ManifestWriterKind, OverwriteOperation,
};
use iceberg_overwrite::text::decimal_text;

struct Plain;

impl TableTypes for Plain {
    type FileDetails = ();
    type ManifestDetails = ();
    type SnapshotDetails = ();
    type Schema = u8;
    type SpecDetails = ();
    type PartitionFields = ();
    type Predicate = ();
    type BoundPredicate = ();
    type Evaluator = ();
    type ActionCommit = ();
    type Failure = ();
}

fn entry(status: ManifestStatus, path: &str) -> ManifestEntry<Plain> {
    ManifestEntry {
        status,
        snapshot_id: Some(1),
        sequence_number: Some(2),
        file_sequence_number: Some(3),
        data_file: DataFile { file_path: path.to_string(), details: () },
    }
}

fn removing(paths: &[&str], snapshot_id: i64) -> OverwriteOperation {
    let files: Vec<DataFile<Plain>> = paths
        .iter()
        .map(|path| DataFile { file_path: path.to_string(), details: () })
        .collect();
    OverwriteOperation { deleted_file_paths: collect_file_paths(&files), snapshot_id }
}

fn manifest(entries: Vec<ManifestEntry<Plain>>) -> Manifest<Plain> {
    Manifest {
        metadata: ManifestMetadata {
            schema: 8,
            partition_spec: PartitionSpec { spec_id: 4, details: () },
        },
        entries,
    }
}

fn table() -> TableMetadata<Plain> {
    TableMetadata {
        location: "s3://t".to_string(),
        format_version: FormatVersion::V3,
        current_snapshot: None,
        current_schema: 9,
        partition_specs: HashMap::new(),
    }
}

fn manifest_file() -> ManifestFile<Plain> {
    ManifestFile {
        content: ManifestContentType::Deletes,
        added_snapshot_id: 1,
        partition_spec_id: 4,
        key_metadata: Some(vec![5]),
        has_added_files: true,
        has_existing_files: true,
        details: (),
    }
}

#[test]
fn manifest_paths_hold_the_hyphenated_uuid() {
    let id = Uuid { bits: 0xa1a2a3a4b1b2c1c2d1d2d3d4d5d6d7d8 };
    assert_eq!(
        manifest_path("s3://bucket/t", id),
        "s3://bucket/t/metadata/a1a2a3a4-b1b2-c1c2-d1d2-d3d4d5d6d7d8-m-overwrite.avro"
    );
    assert_eq!(
        manifest_path("", Uuid { bits: 1 }),
        "/metadata/00000000-0000-0000-0000-000000000001-m-overwrite.avro"
    );
}

#[test]
fn writer_kinds_follow_version_and_content() {
    let data = ManifestContentType::Data;
    let deletes = ManifestContentType::Deletes;
    assert_eq!(writer_kind(FormatVersion::V1, data), ManifestWriterKind::V1);
    assert_eq!(writer_kind(FormatVersion::V1, deletes), ManifestWriterKind::V1);
    assert_eq!(writer_kind(FormatVersion::V2, data), ManifestWriterKind::V2Data);
    assert_eq!(writer_kind(FormatVersion::V2, deletes), ManifestWriterKind::V2Deletes);
    assert_eq!(writer_kind(FormatVersion::V3, data), ManifestWriterKind::V3Data);
    assert_eq!(writer_kind(FormatVersion::V3, deletes), ManifestWriterKind::V3Deletes);
}

#[test]
fn numbers_are_written_in_decimal() {
    assert_eq!(decimal_text(0), "0");
    assert_eq!(decimal_text(9), "9");
    assert_eq!(decimal_text(10), "10");
    assert_eq!(decimal_text(-1), "-1");
    assert_eq!(decimal_text(1234567890), "1234567890");
    assert_eq!(decimal_text(i32::MAX), "2147483647");
    assert_eq!(decimal_text(i32::MIN), "-2147483648");
}

#[test]
fn rule_errors_are_not_retryable() {
    let error = RuleError::new(ErrorKind::DataInvalid, "text".to_string());
    assert_eq!(error.kind, ErrorKind::DataInvalid);
    assert_eq!(error.message, "text");
    assert!(!error.retryable);
}

#[test]
fn entries_are_alive_unless_deleted() {
    assert!(entry(ManifestStatus::Added, "a").is_alive());
    assert!(entry(ManifestStatus::Existing, "a").is_alive());
    assert!(!entry(ManifestStatus::Deleted, "a").is_alive());
}

#[test]
fn an_overwrite_lists_no_deleted_entries_of_its_own() {
    let operation = removing(&["a"], 7);
    assert_eq!(operation.operation(), Operation::Overwrite);
    assert!(matches!(operation.delete_entries::<Plain>(), Ok(entries) if entries.is_empty()));
}

#[test]
fn only_live_entries_count_as_removed() {
    let operation = removing(&["a"], 7);
    assert!(operation.has_deletes(&manifest(vec![
        entry(ManifestStatus::Added, "b"),
        entry(ManifestStatus::Existing, "a"),
    ])));
    assert!(!operation.has_deletes(&manifest(vec![
        entry(ManifestStatus::Added, "b"),
        entry(ManifestStatus::Deleted, "a"),
    ])));
    assert!(!operation.has_deletes(&manifest(vec![])));
}

#[test]
fn rewriting_drops_marks_and_carries_over() {
    let written = removing(&["a", "gone"], 7).rewrite_entries(vec![
        entry(ManifestStatus::Deleted, "gone"),
        entry(ManifestStatus::Added, "a"),
        entry(ManifestStatus::Added, "b"),
        entry(ManifestStatus::Existing, "c"),
    ]);
    let seen: Vec<(ManifestStatus, Option<i64>, &str)> = written
        .iter()
        .map(|e| (e.status, e.snapshot_id, e.data_file.file_path.as_str()))
        .collect();
    assert_eq!(
        seen,
        vec![
            (ManifestStatus::Deleted, Some(7), "a"),
            (ManifestStatus::Existing, Some(1), "b"),
            (ManifestStatus::Existing, Some(1), "c"),
        ]
    );
    assert!(written.iter().all(|e| e.sequence_number == Some(2)));
    assert!(written.iter().all(|e| e.file_sequence_number == Some(3)));
}

#[test]
fn a_removed_file_stays_removed() {
    let once = removing(&["a"], 7).rewrite_entries(vec![
        entry(ManifestStatus::Added, "a"),
        entry(ManifestStatus::Added, "b"),
    ]);
    let twice = removing(&["b"], 8).rewrite_entries(once);
    assert_eq!(twice.len(), 1);
    assert_eq!(twice[0].data_file.file_path, "b");
    assert_eq!(twice[0].snapshot_id, Some(8));
}

#[test]
fn a_rewrite_keeps_the_header_of_the_manifest() {
    let entries = vec![entry(ManifestStatus::Added, "a")];
    let id = Uuid { bits: 0x0123456789abcdef0123456789abcdef };
    let rewrite =
        removing(&["a"], 7).rewrite_manifest_as(&table(), manifest_file(), manifest(entries), id);
    assert_eq!(
        rewrite.path,
        "s3://t/metadata/01234567-89ab-cdef-0123-456789abcdef-m-overwrite.avro"
    );
    assert_eq!(rewrite.snapshot_id, Some(7));
    assert_eq!(rewrite.key_metadata, Some(vec![5]));
    assert_eq!(rewrite.metadata.schema, 8);
    assert_eq!(rewrite.metadata.partition_spec.spec_id, 4);
    assert_eq!(rewrite.writer, ManifestWriterKind::V3Deletes);
    assert_eq!(rewrite.entries.len(), 1);
}

#[test]
fn every_rewrite_has_a_name_of_its_own() {
    let operation = removing(&["a"], 7);
    let first = operation.rewrite_manifest(&table(), manifest_file(), manifest(vec![]));
    let second = operation.rewrite_manifest(&table(), manifest_file(), manifest(vec![]));
    assert_ne!(first.path, second.path);
    let name = first.path.strip_prefix("s3://t/metadata/").unwrap();
    let name = name.strip_suffix("-m-overwrite.avro").unwrap();
    let parsed = uuid::Uuid::parse_str(name).unwrap();
    assert_eq!(parsed.get_version_num(), 7);
    assert_eq!(parsed.to_string(), name);
}

#[test]
fn paths_of_several_calls_add_up() {
    let operation = removing(&["a", "b", "a"], 1);
    assert_eq!(operation.deleted_file_paths.len(), 2);
    assert!(operation.deleted_file_paths.contains("a"));
    assert!(operation.deleted_file_paths.contains("b"));
    assert!(!operation.deleted_file_paths.contains("c"));
}
