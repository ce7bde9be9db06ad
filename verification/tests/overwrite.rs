//! Overwrites of a table that is held in memory.

use std::collections::HashMap;

use iceberg_overwrite::action::{CommitPlan, OverwriteAction, OverwriteCommit};
use iceberg_overwrite::error::Error;
use iceberg_overwrite::existing::ExistingManifests;
use iceberg_overwrite::ids::Uuid;
use iceberg_overwrite::model::{
    DataFile, FormatVersion, Manifest, ManifestContentType, ManifestEntry, ManifestFile,
    ManifestMetadata, ManifestStatus, Operation, PartitionSpec, Snapshot, TableMetadata,
    TableTypes,
};
use iceberg_overwrite::operation::{ManifestRewrite, ManifestWriterKind, OverwriteOperation};

const MAIN_BRANCH: &str = "main";

struct Mem;

#[derive(Clone, Debug, PartialEq)]
enum Value {
    Long(i64),
    Text(String),
}

#[derive(Clone, Debug, PartialEq)]
struct FileInfo {
    spec_id: i32,
    partition: Value,
    record_count: u64,
}

#[derive(Clone, Debug, PartialEq)]
struct ManifestInfo {
    path: String,
    sequence_number: i64,
}

#[derive(Clone, Debug, PartialEq)]
enum Requirement {
    UuidMatch(u128),
    RefSnapshotIdMatch(String, Option<i64>),
}

#[derive(Debug, PartialEq)]
struct Committed {
    snapshot_id: i64,
    ref_name: String,
    ref_snapshot_id: i64,
    requirements: Vec<Requirement>,
}

impl TableTypes for Mem {
    type FileDetails = FileInfo;
    type ManifestDetails = ManifestInfo;
    type SnapshotDetails = i64;
    type Schema = String;
    type SpecDetails = String;
    type PartitionFields = ();
    type Predicate = ();
    type BoundPredicate = ();
    type Evaluator = ();
    type ActionCommit = Committed;
    type Failure = String;
}

fn copy_file(file: &DataFile<Mem>) -> DataFile<Mem> {
    DataFile { file_path: file.file_path.clone(), details: file.details.clone() }
}

fn copy_entry(entry: &ManifestEntry<Mem>) -> ManifestEntry<Mem> {
    ManifestEntry {
        status: entry.status,
        snapshot_id: entry.snapshot_id,
        sequence_number: entry.sequence_number,
        file_sequence_number: entry.file_sequence_number,
        data_file: copy_file(&entry.data_file),
    }
}

fn copy_manifest_file(file: &ManifestFile<Mem>) -> ManifestFile<Mem> {
    ManifestFile {
        content: file.content,
        added_snapshot_id: file.added_snapshot_id,
        partition_spec_id: file.partition_spec_id,
        key_metadata: file.key_metadata.clone(),
        has_added_files: file.has_added_files,
        has_existing_files: file.has_existing_files,
        details: file.details.clone(),
    }
}

fn spec(spec_id: i32) -> PartitionSpec<Mem> {
    PartitionSpec { spec_id, details: format!("spec {}", spec_id) }
}

fn data_file(path: &str, spec_id: i32) -> DataFile<Mem> {
    DataFile {
        file_path: path.to_string(),
        details: FileInfo { spec_id, partition: Value::Long(300), record_count: 1 },
    }
}

/// A table in memory, which plays the snapshot producer and the storage.
struct Warehouse {
    uuid: u128,
    metadata: TableMetadata<Mem>,
    default_spec_id: i32,
    lists: HashMap<i64, Vec<ManifestFile<Mem>>>,
    manifests: HashMap<String, (i32, Vec<ManifestEntry<Mem>>)>,
    summaries: HashMap<i64, HashMap<String, String>>,
    sequence_number: i64,
    next_snapshot_id: i64,
    writers: Vec<ManifestWriterKind>,
    commit_uuids: Vec<Uuid>,
    duplicate_checks: usize,
    unreadable: Option<String>,
    unwritable: bool,
}

impl Warehouse {
    fn new(version: FormatVersion) -> Warehouse {
        let mut partition_specs: HashMap<i32, PartitionSpec<Mem>> = HashMap::new();
        partition_specs.insert(0, spec(0));
        Warehouse {
            uuid: 99,
            metadata: TableMetadata {
                location: "s3://bucket/test/location".to_string(),
                format_version: version,
                current_snapshot: None,
                current_schema: "schema".to_string(),
                partition_specs,
            },
            default_spec_id: 0,
            lists: HashMap::new(),
            manifests: HashMap::new(),
            summaries: HashMap::new(),
            sequence_number: 0,
            next_snapshot_id: 1000,
            writers: Vec::new(),
            commit_uuids: Vec::new(),
            duplicate_checks: 0,
            unreadable: None,
            unwritable: false,
        }
    }

    fn list(&self, snapshot_id: i64) -> Vec<ManifestFile<Mem>> {
        self.lists[&snapshot_id].iter().map(copy_manifest_file).collect()
    }

    fn current_list(&self) -> Vec<ManifestFile<Mem>> {
        match self.metadata.current_snapshot_id() {
            Some(id) => self.list(id),
            None => Vec::new(),
        }
    }

    fn load(&self, file: &ManifestFile<Mem>) -> Result<Manifest<Mem>, String> {
        if self.unreadable.as_ref() == Some(&file.details.path) {
            return Err(format!("cannot read {}", file.details.path));
        }
        let (spec_id, entries) = &self.manifests[&file.details.path];
        let entries = entries
            .iter()
            .map(|entry| {
                let mut entry = copy_entry(entry);
                if entry.snapshot_id.is_none() {
                    entry.snapshot_id = Some(file.added_snapshot_id);
                }
                if entry.status == ManifestStatus::Added && entry.sequence_number.is_none() {
                    entry.sequence_number = Some(file.details.sequence_number);
                    entry.file_sequence_number = Some(file.details.sequence_number);
                }
                entry
            })
            .collect();
        Ok(Manifest {
            metadata: ManifestMetadata {
                schema: self.metadata.current_schema.clone(),
                partition_spec: spec(*spec_id),
            },
            entries,
        })
    }

    fn store(
        &mut self,
        path: String,
        snapshot_id: i64,
        spec_id: i32,
        key_metadata: Option<Vec<u8>>,
        entries: Vec<ManifestEntry<Mem>>,
    ) -> ManifestFile<Mem> {
        let file = ManifestFile {
            content: ManifestContentType::Data,
            added_snapshot_id: snapshot_id,
            partition_spec_id: spec_id,
            key_metadata,
            has_added_files: entries.iter().any(|e| e.status == ManifestStatus::Added),
            has_existing_files: entries.iter().any(|e| e.status == ManifestStatus::Existing),
            details: ManifestInfo { path: path.clone(), sequence_number: self.sequence_number },
        };
        self.manifests.insert(path, (spec_id, entries));
        file
    }

    fn write(&mut self, rewrite: &ManifestRewrite<Mem>) -> Result<ManifestFile<Mem>, String> {
        if self.unwritable {
            return Err("cannot write".to_string());
        }
        self.writers.push(rewrite.writer);
        let entries = rewrite.entries.iter().map(copy_entry).collect();
        Ok(self.store(
            rewrite.path.clone(),
            rewrite.snapshot_id.unwrap(),
            rewrite.metadata.partition_spec.spec_id,
            rewrite.key_metadata.clone(),
            entries,
        ))
    }

    /// The manifests that the new snapshot takes over from the current one.
    fn existing(
        &mut self,
        operation: &OverwriteOperation,
    ) -> Result<Vec<ManifestFile<Mem>>, Error<Mem>> {
        let metadata = copy_metadata(&self.metadata);
        let mut state = operation.existing_manifest(&metadata);
        loop {
            state = match state {
                ExistingManifests::LoadList(wait) => {
                    let list = self.list(wait.snapshot.snapshot_id);
                    wait.resume(Ok(list))
                }
                ExistingManifests::LoadManifest(wait) => {
                    let manifest = self.load(&wait.current);
                    wait.resume(manifest)
                }
                ExistingManifests::WriteManifest(wait) => {
                    let written = self.write(&wait.rewrite);
                    wait.resume(written)
                }
                ExistingManifests::Finished(result) => return result,
            };
        }
    }

    fn add_snapshot(
        &mut self,
        operation: Operation,
        snapshot_id: i64,
        mut list: Vec<ManifestFile<Mem>>,
        added: &[DataFile<Mem>],
        key_metadata: Option<Vec<u8>>,
    ) {
        if !added.is_empty() {
            let entries = added
                .iter()
                .map(|file| ManifestEntry {
                    status: ManifestStatus::Added,
                    snapshot_id: None,
                    sequence_number: None,
                    file_sequence_number: None,
                    data_file: copy_file(file),
                })
                .collect();
            let path = format!("manifest-{}", snapshot_id);
            let spec_id = self.default_spec_id;
            list.push(self.store(path, snapshot_id, spec_id, key_metadata, entries));
        }
        self.lists.insert(snapshot_id, list);
        self.metadata.current_snapshot =
            Some(Snapshot { snapshot_id, operation, details: self.sequence_number });
    }

    /// Adds files in a snapshot of their own; every manifest is taken over as it is.
    fn append(&mut self, files: Vec<DataFile<Mem>>) -> i64 {
        let snapshot_id = self.next_snapshot_id;
        self.next_snapshot_id += 1;
        self.sequence_number += 1;
        let list = self.current_list();
        self.add_snapshot(Operation::Append, snapshot_id, list, &files, None);
        snapshot_id
    }

    fn produce(
        &mut self,
        plan: &CommitPlan<'_, Mem>,
        operation: &OverwriteOperation,
    ) -> Result<Committed, String> {
        if plan.added_data_files.is_empty()
            && plan.deleted_data_files.is_empty()
            && plan.snapshot_properties.is_empty()
        {
            return Err("no files and no properties".to_string());
        }
        let before = self.metadata.current_snapshot_id();
        self.sequence_number += 1;
        let list = match self.existing(operation) {
            Ok(list) => list,
            Err(Error::Outside(failure)) => return Err(failure),
            Err(Error::Rule(error)) => return Err(error.message),
        };
        assert!(matches!(operation.delete_entries::<Mem>(), Ok(entries) if entries.is_empty()));
        let snapshot_id = operation.snapshot_id;
        let mut summary = plan.snapshot_properties.clone();
        if !plan.deleted_data_files.is_empty() {
            let records: u64 =
                plan.deleted_data_files.iter().map(|file| file.details.record_count).sum();
            let files = plan.deleted_data_files.len();
            summary.insert("deleted-data-files".to_string(), format!("{}", files));
            summary.insert("deleted-records".to_string(), format!("{}", records));
        }
        self.summaries.insert(snapshot_id, summary);
        self.add_snapshot(
            operation.operation(),
            snapshot_id,
            list,
            plan.added_data_files,
            plan.key_metadata.clone(),
        );
        Ok(Committed {
            snapshot_id,
            ref_name: MAIN_BRANCH.to_string(),
            ref_snapshot_id: snapshot_id,
            requirements: vec![
                Requirement::UuidMatch(self.uuid),
                Requirement::RefSnapshotIdMatch(MAIN_BRANCH.to_string(), before),
            ],
        })
    }

    fn validate_added(&self, files: &[DataFile<Mem>]) -> Result<(), String> {
        for file in files {
            if !matches!(file.details.partition, Value::Long(_)) {
                return Err(format!("partition value of {} does not fit", file.file_path));
            }
        }
        Ok(())
    }

    fn validate_duplicates(&mut self, files: &[DataFile<Mem>]) -> Result<(), String> {
        self.duplicate_checks += 1;
        for file in files {
            if self.live_paths().contains(&file.file_path) {
                return Err(format!("{} is in the table", file.file_path));
            }
        }
        Ok(())
    }

    fn commit(&mut self, action: &OverwriteAction<Mem>) -> Result<Committed, Error<Mem>> {
        let mut state = action.commit();
        loop {
            state = match state {
                OverwriteCommit::NewProducer(wait) => {
                    self.commit_uuids.push(wait.plan.commit_uuid);
                    wait.resume()
                }
                OverwriteCommit::ValidateAddedFiles(wait) => {
                    let result = self.validate_added(wait.plan.added_data_files);
                    wait.resume(result)
                }
                OverwriteCommit::ValidateDuplicateFiles(wait) => {
                    let result = self.validate_duplicates(wait.plan.added_data_files);
                    wait.resume(result)
                }
                OverwriteCommit::SnapshotId(wait) => {
                    let id = self.next_snapshot_id;
                    self.next_snapshot_id += 1;
                    wait.resume(id)
                }
                OverwriteCommit::Commit(wait) => {
                    let result = self.produce(&wait.plan, &wait.operation);
                    wait.resume(result)
                }
                OverwriteCommit::Finished(result) => return result,
            };
        }
    }

    fn entries(&self) -> Vec<(ManifestStatus, String)> {
        let mut all = Vec::new();
        for file in self.current_list() {
            for entry in self.load(&file).unwrap().entries {
                all.push((entry.status, entry.data_file.file_path));
            }
        }
        all
    }

    fn live_paths(&self) -> Vec<String> {
        let mut paths: Vec<String> = self
            .entries()
            .into_iter()
            .filter(|(status, _)| *status != ManifestStatus::Deleted)
            .map(|(_, path)| path)
            .collect();
        paths.sort();
        paths
    }

    fn has(&self, status: ManifestStatus, path: &str) -> bool {
        self.entries().iter().any(|(s, p)| *s == status && p == path)
    }
}

fn copy_metadata(metadata: &TableMetadata<Mem>) -> TableMetadata<Mem> {
    TableMetadata {
        location: metadata.location.clone(),
        format_version: metadata.format_version,
        current_snapshot: metadata.current_snapshot.as_ref().map(|s| Snapshot {
            snapshot_id: s.snapshot_id,
            operation: s.operation,
            details: s.details,
        }),
        current_schema: metadata.current_schema.clone(),
        partition_specs: metadata.partition_specs.keys().map(|id| (*id, spec(*id))).collect(),
    }
}

#[test]
fn test_empty_data_overwrite_action() {
    let mut table = Warehouse::new(FormatVersion::V2);
    let action = OverwriteAction::new().add_data_files(vec![]);
    assert!(table.commit(&action).is_err());
}

#[test]
fn test_overwrite_snapshot_properties() {
    let mut table = Warehouse::new(FormatVersion::V2);
    let mut snapshot_properties = HashMap::new();
    snapshot_properties.insert("key".to_string(), "val".to_string());
    let action = OverwriteAction::new()
        .set_snapshot_properties(snapshot_properties)
        .add_data_files(vec![data_file("test/1.parquet", 0)]);
    let committed = match table.commit(&action) {
        Ok(committed) => committed,
        Err(_) => unreachable!(),
    };
    assert_eq!(table.summaries[&committed.snapshot_id].get("key").unwrap(), "val");
}

#[test]
fn test_overwrite_incompatible_partition_value() {
    let mut table = Warehouse::new(FormatVersion::V2);
    let mut file = data_file("test/3.parquet", 0);
    file.details.partition = Value::Text("test".to_string());
    let action = OverwriteAction::new().add_data_files(vec![file]);
    let result = table.commit(&action);
    assert!(matches!(
        result,
        Err(Error::Outside(failure)) if failure == "partition value of test/3.parquet does not fit"
    ));
    assert!(table.metadata.current_snapshot_id().is_none());
}

#[test]
fn test_overwrite_basic() {
    let mut table = Warehouse::new(FormatVersion::V2);
    let file = data_file("test/3.parquet", 0);
    let action = OverwriteAction::new().add_data_files(vec![copy_file(&file)]);
    let committed = match table.commit(&action) {
        Ok(committed) => committed,
        Err(_) => unreachable!(),
    };
    assert_eq!(committed.snapshot_id, committed.ref_snapshot_id);
    assert_eq!(committed.ref_name, MAIN_BRANCH);
    assert_eq!(
        committed.requirements,
        vec![
            Requirement::UuidMatch(table.uuid),
            Requirement::RefSnapshotIdMatch(MAIN_BRANCH.to_string(), None),
        ]
    );
    let snapshot = table.metadata.current_snapshot.as_ref().unwrap();
    assert_eq!(snapshot.operation, Operation::Overwrite);
    let list = table.current_list();
    assert_eq!(1, list.len());
    assert_eq!(list[0].details.sequence_number, snapshot.details);
    let manifest = table.load(&list[0]).unwrap();
    assert_eq!(1, manifest.entries.len());
    assert_eq!(Some(snapshot.details), manifest.entries[0].sequence_number);
    assert_eq!(Some(snapshot.snapshot_id), manifest.entries[0].snapshot_id);
    assert_eq!(file.file_path, manifest.entries[0].data_file.file_path);
    assert_eq!(file.details, manifest.entries[0].data_file.details);
}

#[test]
fn test_overwrite_with_deleted_files() {
    let mut table = Warehouse::new(FormatVersion::V3);
    let original1 = data_file("test/original1.parquet", 0);
    let original2 = data_file("test/original2.parquet", 0);
    table.append(vec![copy_file(&original1), copy_file(&original2)]);
    assert_eq!(1, table.current_list().len());

    let action = OverwriteAction::new()
        .add_data_files(vec![data_file("test/replacement.parquet", 0)])
        .delete_data_files(vec![original1, original2]);
    assert!(table.commit(&action).is_ok());
    let snapshot_id = table.metadata.current_snapshot_id().unwrap();
    assert_eq!(
        table.metadata.current_snapshot.as_ref().unwrap().operation,
        Operation::Overwrite
    );
    assert_eq!(2, table.current_list().len());
    for original in ["test/original1.parquet", "test/original2.parquet"] {
        assert!(table.has(ManifestStatus::Deleted, original));
    }
    assert!(table.has(ManifestStatus::Added, "test/replacement.parquet"));
    let summary = &table.summaries[&snapshot_id];
    assert_eq!(summary.get("deleted-data-files").map(|s| s.as_str()), Some("2"));
    assert_eq!(summary.get("deleted-records").map(|s| s.as_str()), Some("2"));

    table.append(vec![data_file("test/appended.parquet", 0)]);
    assert_eq!(3, table.current_list().len());
    for original in ["test/original1.parquet", "test/original2.parquet"] {
        assert!(table.has(ManifestStatus::Deleted, original));
    }
}

#[test]
fn test_overwrite_preserves_previously_deleted_entries() {
    let mut table = Warehouse::new(FormatVersion::V3);
    let file_a = data_file("test/a.parquet", 0);
    let file_b = data_file("test/b.parquet", 0);
    let file_x = data_file("test/x.parquet", 0);
    table.append(vec![copy_file(&file_a), copy_file(&file_b)]);

    let action =
        OverwriteAction::new().delete_data_files(vec![file_a]).add_data_files(vec![file_x]);
    assert!(table.commit(&action).is_ok());
    assert!(table.has(ManifestStatus::Deleted, "test/a.parquet"));

    let action = OverwriteAction::new().delete_data_files(vec![file_b]);
    assert!(table.commit(&action).is_ok());
    let entries = table.entries();
    assert!(!entries.iter().any(|(_, path)| path == "test/a.parquet"));
    assert!(table.has(ManifestStatus::Deleted, "test/b.parquet"));
    assert!(entries
        .iter()
        .any(|(status, path)| *status != ManifestStatus::Deleted && path == "test/x.parquet"));
}

#[test]
fn test_overwrite_rewritten_manifest_preserves_original_partition_spec() {
    let mut table = Warehouse::new(FormatVersion::V2);
    let path = "s3://bucket/test/location/data/old_spec.parquet";
    let mut file = data_file(path, 0);
    file.details.partition = Value::Long(100);
    table.append(vec![copy_file(&file)]);
    table.metadata.partition_specs.insert(1, spec(1));
    table.default_spec_id = 1;
    assert_eq!(table.current_list()[0].partition_spec_id, 0);

    let action = OverwriteAction::new().delete_data_files(vec![file]);
    assert!(table.commit(&action).is_ok());
    let list = table.current_list();
    assert_eq!(list.len(), 1);
    assert_eq!(list[0].partition_spec_id, 0);
    let manifest = table.load(&list[0]).unwrap();
    assert_eq!(manifest.entries.len(), 1);
    assert_eq!(manifest.entries[0].status, ManifestStatus::Deleted);
}

#[test]
fn overwrite_removes_exactly_the_named_files() {
    let mut table = Warehouse::new(FormatVersion::V2);
    table.append(vec![data_file("a", 0), data_file("b", 0)]);
    table.append(vec![data_file("c", 0)]);
    let untouched = table.current_list()[1].details.path.clone();
    let action = OverwriteAction::new()
        .delete_data_files(vec![data_file("a", 0)])
        .delete_data_files(vec![data_file("a", 0), data_file("elsewhere", 0)]);
    assert!(table.commit(&action).is_ok());
    assert_eq!(table.live_paths(), vec!["b".to_string(), "c".to_string()]);
    let list = table.current_list();
    assert_eq!(list.len(), 2);
    assert_eq!(list[1].details.path, untouched);
    assert_ne!(list[0].details.path, untouched);
    assert_eq!(table.writers, vec![ManifestWriterKind::V2Data]);
}

#[test]
fn rewritten_entries_keep_provenance_or_take_the_new_snapshot() {
    let mut table = Warehouse::new(FormatVersion::V2);
    let first = table.append(vec![data_file("a", 0), data_file("b", 0)]);
    let action = OverwriteAction::new().delete_data_files(vec![data_file("a", 0)]);
    let committed = match table.commit(&action) {
        Ok(committed) => committed,
        Err(_) => unreachable!(),
    };
    let list = table.current_list();
    assert_eq!(list[0].added_snapshot_id, committed.snapshot_id);
    let entries = table.load(&list[0]).unwrap().entries;
    assert_eq!(entries.len(), 2);
    assert_eq!(entries[0].status, ManifestStatus::Deleted);
    assert_eq!(entries[0].snapshot_id, Some(committed.snapshot_id));
    assert_eq!(entries[0].sequence_number, Some(1));
    assert_eq!(entries[0].file_sequence_number, Some(1));
    assert_eq!(entries[1].status, ManifestStatus::Existing);
    assert_eq!(entries[1].snapshot_id, Some(first));
    assert_eq!(entries[1].sequence_number, Some(1));
    assert_eq!(entries[1].file_sequence_number, Some(1));
}

#[test]
fn a_second_overwrite_of_the_same_file_rewrites_nothing() {
    let mut table = Warehouse::new(FormatVersion::V2);
    table.append(vec![data_file("a", 0), data_file("b", 0)]);
    let action = OverwriteAction::new().delete_data_files(vec![data_file("a", 0)]);
    assert!(table.commit(&action).is_ok());
    let path = table.current_list()[0].details.path.clone();
    assert!(table.commit(&action).is_ok());
    assert_eq!(table.current_list()[0].details.path, path);
    assert_eq!(table.writers.len(), 1);
}

#[test]
fn a_second_overwrite_keeps_the_list_and_who_deleted_what() {
    let mut table = Warehouse::new(FormatVersion::V2);
    table.append(vec![data_file("a", 0), data_file("b", 0)]);
    table.append(vec![data_file("c", 0)]);
    table.append(vec![data_file("d", 0)]);
    let action =
        OverwriteAction::new().delete_data_files(vec![data_file("a", 0), data_file("c", 0)]);
    let first = match table.commit(&action) {
        Ok(committed) => committed.snapshot_id,
        Err(_) => unreachable!(),
    };
    assert_eq!(table.writers.len(), 2);
    let paths: Vec<String> =
        table.current_list().iter().map(|file| file.details.path.clone()).collect();
    assert_eq!(paths.len(), 3);

    assert!(table.commit(&action).is_ok());
    assert_eq!(table.writers.len(), 2);
    let list = table.current_list();
    let kept: Vec<String> = list.iter().map(|file| file.details.path.clone()).collect();
    assert_eq!(kept, vec![paths[0].clone(), paths[2].clone()]);
    let entries = table.load(&list[0]).unwrap().entries;
    assert_eq!(entries[0].status, ManifestStatus::Deleted);
    assert_eq!(entries[0].data_file.file_path, "a");
    assert_eq!(entries[0].snapshot_id, Some(first));
}

#[test]
fn files_that_are_listed_twice_stay_twice_or_go_twice() {
    let mut table = Warehouse::new(FormatVersion::V2);
    table.append(vec![data_file("a", 0), data_file("b", 0), data_file("a", 0), data_file("b", 0)]);
    table.append(vec![data_file("c", 0)]);
    table.append(vec![data_file("b", 0), data_file("a", 0)]);
    let action = OverwriteAction::new().delete_data_files(vec![data_file("a", 0)]);
    let committed = match table.commit(&action) {
        Ok(committed) => committed.snapshot_id,
        Err(_) => unreachable!(),
    };
    let deleted = (ManifestStatus::Deleted, "a".to_string());
    let existing = (ManifestStatus::Existing, "b".to_string());
    assert_eq!(
        table.entries(),
        vec![
            deleted.clone(),
            existing.clone(),
            deleted.clone(),
            existing.clone(),
            (ManifestStatus::Added, "c".to_string()),
            existing,
            deleted,
        ]
    );
    assert_eq!(table.live_paths(), vec!["b", "b", "b", "c"]);
    for file in table.current_list() {
        for entry in table.load(&file).unwrap().entries {
            if entry.status == ManifestStatus::Deleted {
                assert_eq!(entry.snapshot_id, Some(committed));
            }
        }
    }
}

#[test]
fn manifests_without_live_files_are_dropped() {
    let mut table = Warehouse::new(FormatVersion::V2);
    table.append(vec![data_file("a", 0)]);
    let action = OverwriteAction::new().delete_data_files(vec![data_file("a", 0)]);
    assert!(table.commit(&action).is_ok());
    assert_eq!(table.entries(), vec![(ManifestStatus::Deleted, "a".to_string())]);
    let action = OverwriteAction::new().add_data_files(vec![data_file("b", 0)]);
    assert!(table.commit(&action).is_ok());
    assert_eq!(table.entries(), vec![(ManifestStatus::Added, "b".to_string())]);
}

#[test]
fn the_first_failure_ends_the_walk() {
    let mut table = Warehouse::new(FormatVersion::V2);
    table.append(vec![data_file("a", 0)]);
    table.append(vec![data_file("b", 0)]);
    table.unwritable = true;
    table.unreadable = Some(table.current_list()[1].details.path.clone());
    let unreadable = format!("cannot read {}", table.current_list()[1].details.path);

    let action = OverwriteAction::new().delete_data_files(vec![data_file("a", 0)]);
    let result = table.commit(&action);
    assert!(matches!(result, Err(Error::Outside(failure)) if failure == "cannot write"));

    let action = OverwriteAction::new().delete_data_files(vec![data_file("b", 0)]);
    let result = table.commit(&action);
    assert!(matches!(result, Err(Error::Outside(failure)) if failure == unreadable));
    assert_eq!(table.live_paths_of_first(), vec!["a".to_string()]);
}

impl Warehouse {
    fn live_paths_of_first(&self) -> Vec<String> {
        let list = self.current_list();
        let entries = self.load(&list[0]).unwrap().entries;
        entries.iter().filter(|e| e.is_alive()).map(|e| e.data_file.file_path.clone()).collect()
    }
}

#[test]
fn a_failing_list_ends_the_walk() {
    let mut table = Warehouse::new(FormatVersion::V2);
    table.append(vec![data_file("a", 0)]);
    let files = vec![data_file("a", 0)];
    let operation = OverwriteOperation {
        deleted_file_paths: iceberg_overwrite::action::collect_file_paths(&files),
        snapshot_id: 5,
    };
    match operation.existing_manifest(&table.metadata) {
        ExistingManifests::LoadList(wait) => {
            assert_eq!(wait.snapshot.snapshot_id, 1000);
            let state = wait.resume(Err("no list".to_string()));
            assert!(matches!(
                state,
                ExistingManifests::Finished(Err(Error::Outside(failure))) if failure == "no list"
            ));
        }
        _ => panic!("the list comes first"),
    }
}

#[test]
fn a_rewrite_can_be_named_by_the_caller() {
    let mut table = Warehouse::new(FormatVersion::V1);
    table.append(vec![data_file("a", 0)]);
    let files = vec![data_file("a", 0)];
    let operation = OverwriteOperation {
        deleted_file_paths: iceberg_overwrite::action::collect_file_paths(&files),
        snapshot_id: 5,
    };
    let state = match operation.existing_manifest(&table.metadata) {
        ExistingManifests::LoadList(wait) => wait.resume(Ok(table.current_list())),
        _ => panic!("the list comes first"),
    };
    let state = match state {
        ExistingManifests::LoadManifest(wait) => {
            let manifest = table.load(&wait.current);
            wait.resume_as(manifest, Uuid { bits: 16 })
        }
        _ => panic!("the manifest comes next"),
    };
    match state {
        ExistingManifests::WriteManifest(wait) => {
            assert_eq!(
                wait.rewrite.path,
                "s3://bucket/test/location/metadata/\
                 00000000-0000-0000-0000-000000000010-m-overwrite.avro"
            );
            assert_eq!(wait.rewrite.writer, ManifestWriterKind::V1);
            assert_eq!(wait.rewrite.snapshot_id, Some(5));
        }
        _ => panic!("the manifest was to be rewritten"),
    }
}

#[test]
fn a_table_without_snapshot_has_nothing_to_keep() {
    let table = Warehouse::new(FormatVersion::V2);
    let operation = OverwriteOperation {
        deleted_file_paths: iceberg_overwrite::action::collect_file_paths::<Mem>(&vec![]),
        snapshot_id: 5,
    };
    let state = operation.existing_manifest(&table.metadata);
    assert!(matches!(state, ExistingManifests::Finished(Ok(kept)) if kept.is_empty()));
}

#[test]
fn duplicates_are_refused_only_where_they_are_looked_for() {
    let mut table = Warehouse::new(FormatVersion::V2);
    table.append(vec![data_file("a", 0)]);
    let head = table.metadata.current_snapshot_id();
    let action = OverwriteAction::new().add_data_files(vec![data_file("a", 0)]);
    let result = table.commit(&action);
    assert!(matches!(result, Err(Error::Outside(failure)) if failure == "a is in the table"));
    assert_eq!(table.metadata.current_snapshot_id(), head);
    assert_eq!(table.duplicate_checks, 1);

    let action = action.with_check_duplicate(false);
    assert!(table.commit(&action).is_ok());
    assert_eq!(table.duplicate_checks, 1);
    assert_eq!(table.live_paths(), vec!["a".to_string(), "a".to_string()]);
}

#[test]
fn a_chosen_uuid_identifies_the_commit() {
    let mut table = Warehouse::new(FormatVersion::V2);
    let chosen = Uuid { bits: 42 };
    let action =
        OverwriteAction::new().set_commit_uuid(chosen).add_data_files(vec![data_file("a", 0)]);
    assert!(table.commit(&action).is_ok());
    assert_eq!(table.commit_uuids, vec![chosen]);
}

#[test]
fn a_commit_without_chosen_uuid_gets_a_new_one() {
    let mut table = Warehouse::new(FormatVersion::V2);
    let action = OverwriteAction::new().add_data_files(vec![data_file("a", 0)]);
    assert!(table.commit(&action).is_ok());
    let action = OverwriteAction::new().add_data_files(vec![data_file("b", 0)]);
    assert!(table.commit(&action).is_ok());
    assert_eq!((table.commit_uuids[0].bits >> 76) & 0xf, 7);
    assert_eq!((table.commit_uuids[0].bits >> 62) & 0x3, 2);
    assert_ne!(table.commit_uuids[0], table.commit_uuids[1]);
    let named = action.commit_as(Uuid { bits: 3 });
    assert!(matches!(named, OverwriteCommit::NewProducer(wait) if wait.plan.commit_uuid.bits == 3));
}

#[test]
fn key_metadata_goes_into_the_plan_and_stays_on_rewrite() {
    let mut table = Warehouse::new(FormatVersion::V2);
    let action = OverwriteAction::new()
        .set_key_metadata(vec![1, 2])
        .add_data_files(vec![data_file("a", 0), data_file("b", 0)]);
    assert!(table.commit(&action).is_ok());
    assert_eq!(table.current_list()[0].key_metadata, Some(vec![1, 2]));
    let action =
        OverwriteAction::new().set_key_metadata(vec![9]).delete_data_files(vec![data_file("a", 0)]);
    assert!(table.commit(&action).is_ok());
    assert_eq!(table.current_list()[0].key_metadata, Some(vec![1, 2]));
}

#[test]
fn added_files_keep_their_order() {
    let action = OverwriteAction::new()
        .add_data_files(vec![data_file("a", 0)])
        .add_data_files(vec![data_file("b", 0), data_file("c", 0)]);
    match action.commit() {
        OverwriteCommit::NewProducer(wait) => {
            let paths: Vec<&str> =
                wait.plan.added_data_files.iter().map(|file| file.file_path.as_str()).collect();
            assert_eq!(paths, vec!["a", "b", "c"]);
            assert!(wait.plan.check_duplicate);
            assert!(wait.plan.deleted_data_files.is_empty());
            assert!(wait.plan.key_metadata.is_none());
            assert!(wait.plan.snapshot_properties.is_empty());
        }
        _ => panic!("the producer comes first"),
    }
}
