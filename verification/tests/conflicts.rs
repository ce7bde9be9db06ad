//! The check for concurrently added data.

use std::collections::HashMap;

use iceberg_overwrite::error::{Error, ErrorKind};
use iceberg_overwrite::model::{
    DataFile, FormatVersion, Manifest, ManifestContentType, ManifestEntry, ManifestFile,
    ManifestMetadata, ManifestStatus, Operation, PartitionSpec, Snapshot, TableMetadata,
    TableTypes,
};
use iceberg_overwrite::partition_filter::{
    build_partition_filter, PartitionFilterBuild, PartitionFilterReply,
};
use iceberg_overwrite::validate::{
    lists_additions, validate_no_conflicting_data, ConflictCheck,
};

struct Named;

impl TableTypes for Named {
    type FileDetails = ();
    type ManifestDetails = &'static str;
    type SnapshotDetails = ();
    type Schema = String;
    type SpecDetails = ();
    type PartitionFields = String;
    type Predicate = String;
    type BoundPredicate = String;
    type Evaluator = String;
    type ActionCommit = ();
    type Failure = String;
}

fn snapshot(snapshot_id: i64, operation: Operation) -> Snapshot<Named> {
    Snapshot { snapshot_id, operation, details: () }
}

fn manifest_file(name: &'static str, added_snapshot_id: i64, spec_id: i32) -> ManifestFile<Named> {
    ManifestFile {
        content: ManifestContentType::Data,
        added_snapshot_id,
        partition_spec_id: spec_id,
        key_metadata: None,
        has_added_files: true,
        has_existing_files: true,
        details: name,
    }
}

/// A table whose head is snapshot 3, and what it answers. The steps asked for are logged.
struct World {
    metadata: TableMetadata<Named>,
    window: Vec<(i64, Operation)>,
    /// Manifests by snapshot: name, the snapshot that wrote it, spec, content, added files.
    lists: HashMap<i64, Vec<(&'static str, i64, i32, ManifestContentType, bool)>>,
    /// Entries by manifest.
    entries: HashMap<&'static str, Vec<(ManifestStatus, &'static str)>>,
    pruned: Vec<&'static str>,
    matching: Vec<&'static str>,
    failing: Option<String>,
    log: Vec<String>,
}

impl World {
    fn new() -> World {
        let mut partition_specs: HashMap<i32, PartitionSpec<Named>> = HashMap::new();
        for id in [0, 1] {
            partition_specs.insert(id, PartitionSpec { spec_id: id, details: () });
        }
        let data = ManifestContentType::Data;
        let mut lists = HashMap::new();
        lists.insert(3, vec![("m3", 3, 0, data, true), ("m2", 2, 0, data, true)]);
        lists.insert(2, vec![("m2", 2, 0, data, true), ("m2b", 2, 1, data, true)]);
        let mut entries = HashMap::new();
        entries.insert("m3", vec![(ManifestStatus::Existing, "old"), (ManifestStatus::Added, "c")]);
        entries.insert("m2", vec![(ManifestStatus::Added, "a")]);
        entries.insert("m2b", vec![(ManifestStatus::Added, "b"), (ManifestStatus::Deleted, "d")]);
        World {
            metadata: TableMetadata {
                location: String::new(),
                format_version: FormatVersion::V2,
                current_snapshot: Some(snapshot(3, Operation::Append)),
                current_schema: "S".to_string(),
                partition_specs,
            },
            window: vec![(3, Operation::Append), (2, Operation::Overwrite)],
            lists,
            entries,
            pruned: vec![],
            matching: vec![],
            failing: None,
            log: Vec::new(),
        }
    }

    fn ask(&mut self, step: String) -> Result<String, String> {
        self.log.push(step.clone());
        if self.failing.as_ref() == Some(&step) {
            Err(format!("{} failed", step))
        } else {
            Ok(step)
        }
    }

    fn filter_reply(&mut self, build: &PartitionFilterBuild<'_, Named>) -> PartitionFilterReply<Named> {
        match build {
            PartitionFilterBuild::PartitionType { spec, schema, .. } => {
                PartitionFilterReply::Fields(self.ask(format!("type({},{})", spec.spec_id, schema)))
            }
            PartitionFilterBuild::BuildSchema { schema_id, fields, .. } => {
                PartitionFilterReply::Schema(self.ask(format!("schema({},{})", schema_id, fields)))
            }
            PartitionFilterBuild::Project { spec, bound_filter, .. } => {
                PartitionFilterReply::Projected(
                    self.ask(format!("project({},{})", spec.spec_id, bound_filter)),
                )
            }
            PartitionFilterBuild::RewriteNot { projected, .. } => {
                PartitionFilterReply::Rewritten(format!("nnf({})", projected))
            }
            PartitionFilterBuild::Bind { partition_schema, predicate, case_sensitive, .. } => {
                PartitionFilterReply::Bound(
                    self.ask(format!("bind({},{},{})", predicate, partition_schema, case_sensitive)),
                )
            }
            PartitionFilterBuild::Finished { .. } => unreachable!(),
        }
    }

    fn check(&mut self, from: Option<i64>) -> Result<(), Error<Named>> {
        let metadata = TableMetadata {
            location: String::new(),
            format_version: FormatVersion::V2,
            current_snapshot: self
                .metadata
                .current_snapshot
                .as_ref()
                .map(|s| snapshot(s.snapshot_id, s.operation)),
            current_schema: self.metadata.current_schema.clone(),
            partition_specs: self
                .metadata
                .partition_specs
                .keys()
                .map(|id| (*id, PartitionSpec { spec_id: *id, details: () }))
                .collect(),
        };
        let filter = "F".to_string();
        let mut state = validate_no_conflicting_data(&metadata, from, &filter, "x = 1");
        loop {
            state = match state {
                ConflictCheck::BindFilter(wait) => {
                    let reply = self.ask(format!(
                        "bind({},{},{})",
                        wait.conflict_filter, wait.metadata.current_schema, wait.case_sensitive
                    ));
                    wait.resume(reply)
                }
                ConflictCheck::FindAncestors(wait) => {
                    self.log.push(format!(
                        "ancestors({},{:?})",
                        wait.head_snapshot_id, wait.from_snapshot_id
                    ));
                    let found = self.window.iter().map(|(id, op)| snapshot(*id, *op)).collect();
                    wait.resume(found)
                }
                ConflictCheck::LoadList(wait) => {
                    let id = wait.snapshot.snapshot_id;
                    let reply = self.ask(format!("list({})", id));
                    let reply = reply.map(|_| {
                        self.lists[&id]
                            .iter()
                            .map(|(name, by, spec_id, content, added)| {
                                let mut file = manifest_file(name, *by, *spec_id);
                                file.content = *content;
                                file.has_added_files = *added;
                                file
                            })
                            .collect()
                    });
                    wait.resume(reply)
                }
                ConflictCheck::BuildPartitionFilter(wait) => {
                    let reply = self.filter_reply(&wait.build);
                    wait.resume(reply)
                }
                ConflictCheck::NewEvaluator(wait) => {
                    self.log.push(format!("evaluator({})", wait.manifest.partition_spec_id));
                    let evaluator = format!("E[{}]", wait.partition_filter);
                    wait.resume(evaluator)
                }
                ConflictCheck::MatchManifest(wait) => {
                    let name = wait.manifest.details;
                    let spec_id = wait.manifest.partition_spec_id;
                    assert_eq!(wait.evaluator, format!("E[{}]", partition_filter(spec_id)));
                    let reply = self.ask(format!("prune({})", name));
                    let reply = reply.map(|_| !self.pruned.contains(&name));
                    wait.resume(reply)
                }
                ConflictCheck::LoadManifest(wait) => {
                    let name = wait.manifest.details;
                    let reply = self.ask(format!("load({})", name));
                    let reply = reply.map(|_| Manifest {
                        metadata: ManifestMetadata {
                            schema: "S".to_string(),
                            partition_spec: PartitionSpec { spec_id: 0, details: () },
                        },
                        entries: self.entries[name].iter().map(|(s, p)| entry(*s, p)).collect(),
                    });
                    wait.resume(reply)
                }
                ConflictCheck::MatchFile(wait) => {
                    assert_eq!(wait.bound_filter, "bind(F,S,true)");
                    assert!(!wait.include_empty_files);
                    let path = wait.entry.data_file.file_path.clone();
                    let reply = self.ask(format!("file({})", path));
                    let reply = reply.map(|_| self.matching.contains(&path.as_str()));
                    wait.resume(reply)
                }
                ConflictCheck::Finished(result) => return result,
            };
        }
    }
}

fn entry(status: ManifestStatus, path: &str) -> ManifestEntry<Named> {
    ManifestEntry {
        status,
        snapshot_id: None,
        sequence_number: None,
        file_sequence_number: None,
        data_file: DataFile { file_path: path.to_string(), details: () },
    }
}

fn partition_filter(spec_id: i32) -> String {
    format!(
        "bind(nnf(project({},bind(F,S,true))),schema({},type({},S)),true)",
        spec_id, spec_id, spec_id
    )
}

fn message(result: Result<(), Error<Named>>) -> (ErrorKind, String, bool) {
    match result {
        Err(Error::Rule(error)) => (error.kind, error.message, error.retryable),
        _ => panic!("a rule was to be broken"),
    }
}

#[test]
fn a_check_without_conflict_looks_at_every_added_file_once() {
    let mut world = World::new();
    assert!(world.check(Some(1)).is_ok());
    let expected = [
        "bind(F,S,true)",
        "ancestors(3,Some(1))",
        "list(3)",
        "type(0,S)",
        "schema(0,type(0,S))",
        "project(0,bind(F,S,true))",
        "bind(nnf(project(0,bind(F,S,true))),schema(0,type(0,S)),true)",
        "evaluator(0)",
        "prune(m3)",
        "load(m3)",
        "file(c)",
        "list(2)",
        "prune(m2)",
        "load(m2)",
        "file(a)",
        "type(1,S)",
        "schema(1,type(1,S))",
        "project(1,bind(F,S,true))",
        "bind(nnf(project(1,bind(F,S,true))),schema(1,type(1,S)),true)",
        "evaluator(1)",
        "prune(m2b)",
        "load(m2b)",
        "file(b)",
    ];
    assert_eq!(world.log, expected);
}

#[test]
fn a_conflict_is_named_and_not_retryable() {
    let mut world = World::new();
    world.matching = vec!["b", "d", "old"];
    assert_eq!(
        message(world.check(Some(1))),
        (
            ErrorKind::DataInvalid,
            "Found conflicting files that can contain records matching x = 1: b".to_string(),
            false
        )
    );
}

#[test]
fn the_first_conflict_ends_the_check() {
    let mut world = World::new();
    world.matching = vec!["a", "c"];
    let (_, text, _) = message(world.check(None));
    assert_eq!(text, "Found conflicting files that can contain records matching x = 1: c");
    assert_eq!(world.log.last().unwrap(), "file(c)");
}

#[test]
fn existing_and_deleted_entries_do_not_conflict() {
    let mut world = World::new();
    world.matching = vec!["old", "d"];
    assert!(world.check(Some(1)).is_ok());
}

#[test]
fn an_unchanged_head_needs_no_check() {
    let mut world = World::new();
    world.matching = vec!["a", "b", "c"];
    assert!(world.check(Some(3)).is_ok());
    assert!(world.log.is_empty());
}

#[test]
fn a_table_without_snapshot_needs_no_check() {
    let mut world = World::new();
    world.metadata.current_snapshot = None;
    assert!(world.check(None).is_ok());
    assert!(world.check(Some(1)).is_ok());
    assert!(world.log.is_empty());
}

#[test]
fn snapshots_of_every_operation_are_looked_at() {
    for operation in
        [Operation::Append, Operation::Replace, Operation::Overwrite, Operation::Delete]
    {
        let mut world = World::new();
        world.metadata.current_snapshot = Some(snapshot(3, operation));
        world.window = vec![(3, operation), (2, operation)];
        world.matching = vec!["a"];
        assert_eq!(
            message(world.check(Some(1))),
            (
                ErrorKind::DataInvalid,
                "Found conflicting files that can contain records matching x = 1: a".to_string(),
                false
            )
        );
        world.matching = vec![];
        assert!(world.check(Some(1)).is_ok());
    }
}

#[test]
fn a_replacing_snapshot_that_adds_a_matching_file_is_refused() {
    let mut world = World::new();
    world.metadata.current_snapshot = Some(snapshot(2, Operation::Replace));
    world.window = vec![(2, Operation::Replace)];
    world.lists.insert(2, vec![("m2", 2, 0, ManifestContentType::Data, true)]);
    world.matching = vec!["a"];
    let (kind, text, _) = message(world.check(Some(1)));
    assert_eq!(kind, ErrorKind::DataInvalid);
    assert_eq!(text, "Found conflicting files that can contain records matching x = 1: a");
}

#[test]
fn a_wider_filter_hides_no_conflict() {
    let mut world = World::new();
    world.pruned = vec!["m3"];
    world.matching = vec!["b"];
    assert_eq!(message(world.check(Some(1))).0, ErrorKind::DataInvalid);
    // The wider filter rules out fewer manifests and fewer files.
    world.pruned = vec![];
    world.matching = vec!["b", "c"];
    assert_eq!(message(world.check(Some(1))).0, ErrorKind::DataInvalid);
    // It may also fail where the narrow one was not evaluated.
    world.failing = Some("file(c)".to_string());
    assert!(world.check(Some(1)).is_err());
}

#[test]
fn a_later_start_passes_where_an_earlier_one_does() {
    let mut world = World::new();
    world.matching = vec!["old", "d"];
    assert!(world.check(Some(1)).is_ok());
    world.window.truncate(1);
    assert!(world.check(Some(2)).is_ok());
    assert!(world.check(Some(3)).is_ok());
}

#[test]
fn an_earlier_start_can_fail_where_a_later_one_passes() {
    let mut world = World::new();
    world.matching = vec!["a"];
    assert!(world.check(Some(1)).is_err());
    world.window.truncate(1);
    assert!(world.check(Some(2)).is_ok());
}

#[test]
fn only_own_data_manifests_with_additions_are_looked_at() {
    let mut file = manifest_file("m", 5, 0);
    assert!(lists_additions(&file, 5));
    assert!(!lists_additions(&file, 6));
    file.has_added_files = false;
    assert!(!lists_additions(&file, 5));
    file.has_added_files = true;
    file.content = ManifestContentType::Deletes;
    assert!(!lists_additions(&file, 5));

    let mut world = World::new();
    world.window = vec![(3, Operation::Append)];
    world.lists.insert(
        3,
        vec![
            ("m2", 2, 0, ManifestContentType::Data, true),
            ("m3", 3, 0, ManifestContentType::Deletes, true),
            ("m2b", 3, 0, ManifestContentType::Data, false),
        ],
    );
    world.matching = vec!["a", "b", "c"];
    assert!(world.check(Some(2)).is_ok());
    assert_eq!(world.log.last().unwrap(), "list(3)");
}

#[test]
fn pruned_manifests_are_not_read() {
    let mut world = World::new();
    world.pruned = vec!["m3", "m2", "m2b"];
    world.matching = vec!["a", "b", "c"];
    assert!(world.check(Some(1)).is_ok());
    assert!(!world.log.iter().any(|step| step.starts_with("load")));
    let evaluators = world.log.iter().filter(|step| step.starts_with("evaluator")).count();
    assert_eq!(evaluators, 2);
}

#[test]
fn an_unknown_partition_spec_is_an_error() {
    let mut world = World::new();
    world.metadata.partition_specs.remove(&1);
    assert_eq!(
        message(world.check(Some(1))),
        (ErrorKind::Unexpected, "Could not find partition spec for id 1".to_string(), false)
    );
    let unknown: PartitionFilterBuild<'_, Named> =
        build_partition_filter(&world.metadata, -7, &world.metadata.current_schema, String::new());
    match unknown {
        PartitionFilterBuild::Finished { result: Err(Error::Rule(error)), bound_filter } => {
            assert_eq!(error.message, "Could not find partition spec for id -7");
            assert_eq!(bound_filter, "");
        }
        _ => panic!("the spec was to be missing"),
    }
}

#[test]
fn every_failure_is_passed_on() {
    let steps = [
        "bind(F,S,true)",
        "list(2)",
        "type(0,S)",
        "schema(0,type(0,S))",
        "project(1,bind(F,S,true))",
        "bind(nnf(project(0,bind(F,S,true))),schema(0,type(0,S)),true)",
        "prune(m2)",
        "load(m3)",
        "file(b)",
    ];
    for step in steps {
        let mut world = World::new();
        world.failing = Some(step.to_string());
        let result = world.check(Some(1));
        let expected = format!("{} failed", step);
        assert!(matches!(result, Err(Error::Outside(failure)) if failure == expected));
        assert_eq!(world.log.last().unwrap(), step);
    }
}

#[test]
fn a_partition_filter_is_bound_to_the_schema_of_its_spec() {
    let mut world = World::new();
    let schema = "S".to_string();
    let partition_specs = HashMap::from([(6, PartitionSpec { spec_id: 6, details: () })]);
    let metadata = TableMetadata::<Named> {
        location: String::new(),
        format_version: FormatVersion::V1,
        current_snapshot: None,
        current_schema: "other".to_string(),
        partition_specs,
    };
    let mut build = build_partition_filter(&metadata, 6, &schema, "bind(F,S,true)".to_string());
    // An answer that is not waited for changes nothing.
    build = build.resume(PartitionFilterReply::Rewritten("odd".to_string()));
    for _ in 0..5 {
        let reply = world.filter_reply(&build);
        build = build.resume(reply);
    }
    match build {
        PartitionFilterBuild::Finished { result: Ok(filter), bound_filter } => {
            assert_eq!(filter, partition_filter(6));
            assert_eq!(bound_filter, "bind(F,S,true)");
        }
        _ => panic!("five answers were to do"),
    }
}
