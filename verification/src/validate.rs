//! Detecting data that other commits added while an overwrite was prepared.
//!
//! [`validate_no_conflicting_data`] starts the check. Each state but the last waits for one
//! answer; its `resume` takes the answer and gives the next state.

use std::collections::{HashMap, VecDeque};

use vstd::prelude::*;
use vstd::string::*;

use crate::error::{Error, ErrorKind, ErrorView, RuleError, RuleErrorView};
use crate::model::{
    Manifest, ManifestContentType, ManifestEntry, ManifestFile, ManifestStatus, ManifestView,
    Snapshot, TableMetadata, TableTypes,
};
use crate::partition_filter::{
    build_partition_filter, PartitionFilterBuild, PartitionFilterBuildView, PartitionFilterReply,
};

verus! {

broadcast use vstd::std_specs::hash::group_hash_axioms;

/// What is left to look at.
pub struct Scan<'a, T: TableTypes> {
    pub metadata: &'a TableMetadata<T>,
    /// The conflict filter as error messages show it.
    pub filter_text: &'a str,
    /// The evaluators made so far, by partition spec id.
    pub evaluators: HashMap<i32, T::Evaluator>,
    /// The snapshots whose manifests are still to be listed.
    pub snapshots: VecDeque<Snapshot<T>>,
    /// The manifests of the current snapshot that are still to be looked at.
    pub manifests: VecDeque<ManifestFile<T>>,
}

/// What a `Scan` holds.
#[verifier::ext_equal]
pub struct ScanView<T: TableTypes> {
    pub metadata: TableMetadata<T>,
    pub filter_text: Seq<char>,
    pub evaluators: Map<i32, T::Evaluator>,
    pub snapshots: Seq<Snapshot<T>>,
    pub manifests: Seq<ManifestFile<T>>,
}

impl<'a, T: TableTypes> View for Scan<'a, T> {
    type V = ScanView<T>;

    open spec fn view(&self) -> ScanView<T> {
        ScanView {
            metadata: *self.metadata,
            filter_text: self.filter_text@,
            evaluators: self.evaluators@,
            snapshots: self.snapshots@,
            manifests: self.manifests@,
        }
    }
}

/// Waits for `conflict_filter` to be bound to the current schema of the table.
pub struct AwaitingBoundFilter<'a, T: TableTypes> {
    pub metadata: &'a TableMetadata<T>,
    pub head_snapshot_id: i64,
    pub from_snapshot_id: Option<i64>,
    pub conflict_filter: &'a T::Predicate,
    pub filter_text: &'a str,
    pub case_sensitive: bool,
}

/// Waits for the snapshots that were committed after `from_snapshot_id`, up to the head.
pub struct AwaitingAncestors<'a, T: TableTypes> {
    pub metadata: &'a TableMetadata<T>,
    pub head_snapshot_id: i64,
    pub from_snapshot_id: Option<i64>,
    pub filter_text: &'a str,
    pub bound_filter: T::BoundPredicate,
}

/// Waits for the manifest list of `snapshot`.
pub struct AwaitingSnapshotManifests<'a, T: TableTypes> {
    pub scan: Scan<'a, T>,
    pub bound_filter: T::BoundPredicate,
    pub snapshot: Snapshot<T>,
}

/// Waits for the filter over the partitions of `manifest`.
pub struct AwaitingPartitionFilter<'a, T: TableTypes> {
    pub scan: Scan<'a, T>,
    pub manifest: ManifestFile<T>,
    pub build: PartitionFilterBuild<'a, T>,
}

/// Waits for an evaluator of `partition_filter`.
pub struct AwaitingEvaluator<'a, T: TableTypes> {
    pub scan: Scan<'a, T>,
    pub bound_filter: T::BoundPredicate,
    pub manifest: ManifestFile<T>,
    pub partition_filter: T::BoundPredicate,
}

/// Waits for `evaluator` to judge the partition summaries of `manifest`.
pub struct AwaitingManifestMatch<'a, T: TableTypes> {
    pub scan: Scan<'a, T>,
    pub bound_filter: T::BoundPredicate,
    pub manifest: ManifestFile<T>,
    pub evaluator: T::Evaluator,
}

/// Waits for the contents of `manifest`.
pub struct AwaitingManifestEntries<'a, T: TableTypes> {
    pub scan: Scan<'a, T>,
    pub bound_filter: T::BoundPredicate,
    pub manifest: ManifestFile<T>,
}

/// Waits for `bound_filter` to judge the metrics of the file of `entry`.
pub struct AwaitingFileMatch<'a, T: TableTypes> {
    pub scan: Scan<'a, T>,
    pub bound_filter: T::BoundPredicate,
    pub entry: ManifestEntry<T>,
    /// The entries of the manifest that are still to be looked at.
    pub entries: VecDeque<ManifestEntry<T>>,
    /// Whether a file without rows counts as a match.
    pub include_empty_files: bool,
}

/// A state of the check.
pub enum ConflictCheck<'a, T: TableTypes> {
    BindFilter(AwaitingBoundFilter<'a, T>),
    FindAncestors(AwaitingAncestors<'a, T>),
    LoadList(AwaitingSnapshotManifests<'a, T>),
    BuildPartitionFilter(AwaitingPartitionFilter<'a, T>),
    NewEvaluator(AwaitingEvaluator<'a, T>),
    MatchManifest(AwaitingManifestMatch<'a, T>),
    LoadManifest(AwaitingManifestEntries<'a, T>),
    MatchFile(AwaitingFileMatch<'a, T>),
    /// No conflict was found, or the error that ended the check.
    Finished(Result<(), Error<T>>),
}

/// What a `ConflictCheck` holds.
pub enum ConflictCheckView<T: TableTypes> {
    BindFilter {
        metadata: TableMetadata<T>,
        head_snapshot_id: i64,
        from_snapshot_id: Option<i64>,
        conflict_filter: T::Predicate,
        filter_text: Seq<char>,
        case_sensitive: bool,
    },
    FindAncestors {
        metadata: TableMetadata<T>,
        head_snapshot_id: i64,
        from_snapshot_id: Option<i64>,
        filter_text: Seq<char>,
        bound_filter: T::BoundPredicate,
    },
    LoadList { scan: ScanView<T>, bound_filter: T::BoundPredicate, snapshot: Snapshot<T> },
    BuildPartitionFilter {
        scan: ScanView<T>,
        manifest: ManifestFile<T>,
        build: PartitionFilterBuildView<T>,
    },
    NewEvaluator {
        scan: ScanView<T>,
        bound_filter: T::BoundPredicate,
        manifest: ManifestFile<T>,
        partition_filter: T::BoundPredicate,
    },
    MatchManifest {
        scan: ScanView<T>,
        bound_filter: T::BoundPredicate,
        manifest: ManifestFile<T>,
        evaluator: T::Evaluator,
    },
    LoadManifest {
        scan: ScanView<T>,
        bound_filter: T::BoundPredicate,
        manifest: ManifestFile<T>,
    },
    MatchFile {
        scan: ScanView<T>,
        bound_filter: T::BoundPredicate,
        entry: ManifestEntry<T>,
        entries: Seq<ManifestEntry<T>>,
        include_empty_files: bool,
    },
    Finished(Result<(), ErrorView<T>>),
}

/// An answer to a state of the check.
pub enum ConflictCheckReply<T: TableTypes> {
    Bound(Result<T::BoundPredicate, T::Failure>),
    Ancestors(Seq<Snapshot<T>>),
    List(Result<Seq<ManifestFile<T>>, T::Failure>),
    PartitionFilter(PartitionFilterReply<T>),
    Evaluator(T::Evaluator),
    ManifestMatches(Result<bool, T::Failure>),
    Manifest(Result<ManifestView<T>, T::Failure>),
    FileMatches(Result<bool, T::Failure>),
}

impl<'a, T: TableTypes> View for AwaitingBoundFilter<'a, T> {
    type V = ConflictCheckView<T>;

    open spec fn view(&self) -> ConflictCheckView<T> {
        ConflictCheckView::BindFilter {
            metadata: *self.metadata,
            head_snapshot_id: self.head_snapshot_id,
            from_snapshot_id: self.from_snapshot_id,
            conflict_filter: *self.conflict_filter,
            filter_text: self.filter_text@,
            case_sensitive: self.case_sensitive,
        }
    }
}

impl<'a, T: TableTypes> View for AwaitingAncestors<'a, T> {
    type V = ConflictCheckView<T>;

    open spec fn view(&self) -> ConflictCheckView<T> {
        ConflictCheckView::FindAncestors {
            metadata: *self.metadata,
            head_snapshot_id: self.head_snapshot_id,
            from_snapshot_id: self.from_snapshot_id,
            filter_text: self.filter_text@,
            bound_filter: self.bound_filter,
        }
    }
}

impl<'a, T: TableTypes> View for AwaitingSnapshotManifests<'a, T> {
    type V = ConflictCheckView<T>;

    open spec fn view(&self) -> ConflictCheckView<T> {
        ConflictCheckView::LoadList {
            scan: self.scan@,
            bound_filter: self.bound_filter,
            snapshot: self.snapshot,
        }
    }
}

impl<'a, T: TableTypes> View for AwaitingPartitionFilter<'a, T> {
    type V = ConflictCheckView<T>;

    open spec fn view(&self) -> ConflictCheckView<T> {
        ConflictCheckView::BuildPartitionFilter {
            scan: self.scan@,
            manifest: self.manifest,
            build: self.build@,
        }
    }
}

impl<'a, T: TableTypes> View for AwaitingEvaluator<'a, T> {
    type V = ConflictCheckView<T>;

    open spec fn view(&self) -> ConflictCheckView<T> {
        ConflictCheckView::NewEvaluator {
            scan: self.scan@,
            bound_filter: self.bound_filter,
            manifest: self.manifest,
            partition_filter: self.partition_filter,
        }
    }
}

impl<'a, T: TableTypes> View for AwaitingManifestMatch<'a, T> {
    type V = ConflictCheckView<T>;

    open spec fn view(&self) -> ConflictCheckView<T> {
        ConflictCheckView::MatchManifest {
            scan: self.scan@,
            bound_filter: self.bound_filter,
            manifest: self.manifest,
            evaluator: self.evaluator,
        }
    }
}

impl<'a, T: TableTypes> View for AwaitingManifestEntries<'a, T> {
    type V = ConflictCheckView<T>;

    open spec fn view(&self) -> ConflictCheckView<T> {
        ConflictCheckView::LoadManifest {
            scan: self.scan@,
            bound_filter: self.bound_filter,
            manifest: self.manifest,
        }
    }
}

impl<'a, T: TableTypes> View for AwaitingFileMatch<'a, T> {
    type V = ConflictCheckView<T>;

    open spec fn view(&self) -> ConflictCheckView<T> {
        ConflictCheckView::MatchFile {
            scan: self.scan@,
            bound_filter: self.bound_filter,
            entry: self.entry,
            entries: self.entries@,
            include_empty_files: self.include_empty_files,
        }
    }
}

impl<'a, T: TableTypes> View for ConflictCheck<'a, T> {
    type V = ConflictCheckView<T>;

    open spec fn view(&self) -> ConflictCheckView<T> {
        match *self {
            ConflictCheck::BindFilter(state) => state@,
            ConflictCheck::FindAncestors(state) => state@,
            ConflictCheck::LoadList(state) => state@,
            ConflictCheck::BuildPartitionFilter(state) => state@,
            ConflictCheck::NewEvaluator(state) => state@,
            ConflictCheck::MatchManifest(state) => state@,
            ConflictCheck::LoadManifest(state) => state@,
            ConflictCheck::MatchFile(state) => state@,
            ConflictCheck::Finished(Ok(_)) => ConflictCheckView::Finished(Ok(())),
            ConflictCheck::Finished(Err(error)) => ConflictCheckView::Finished(Err(error@)),
        }
    }
}

/// Whether a manifest can list data files that the snapshot added: it is a data manifest that the
/// snapshot wrote itself, and may hold added files.
pub open spec fn can_list_additions<T: TableTypes>(
    manifest: ManifestFile<T>,
    snapshot_id: i64,
) -> bool {
    &&& manifest.content is Data
    &&& manifest.added_snapshot_id == snapshot_id
    &&& manifest.has_added_files
}

/// The manifests of a list that can list data files that the snapshot added.
pub open spec fn adding_manifests<T: TableTypes>(
    list: Seq<ManifestFile<T>>,
    snapshot_id: i64,
) -> Seq<ManifestFile<T>> {
    list.filter(|manifest: ManifestFile<T>| can_list_additions(manifest, snapshot_id))
}

/// The entries of files that were added.
pub open spec fn added_entries<T: TableTypes>(entries: Seq<ManifestEntry<T>>) -> Seq<
    ManifestEntry<T>,
> {
    entries.filter(|entry: ManifestEntry<T>| entry.status is Added)
}

/// The error for a file that may hold rows which match the conflict filter.
pub open spec fn conflict_error<T: TableTypes>(
    filter_text: Seq<char>,
    path: Seq<char>,
) -> ErrorView<T> {
    ErrorView::Rule(
        RuleErrorView {
            kind: ErrorKind::DataInvalid,
            message: "Found conflicting files that can contain records matching "@ + filter_text
                + ": "@ + path,
            retryable: false,
        },
    )
}

impl<T: TableTypes> ScanView<T> {
    /// The state that looks at the next snapshot.
    pub open spec fn next_snapshot(self, bound_filter: T::BoundPredicate) -> ConflictCheckView<T> {
        if self.snapshots.len() == 0 {
            ConflictCheckView::Finished(Ok(()))
        } else {
            ConflictCheckView::LoadList {
                scan: ScanView { snapshots: self.snapshots.drop_first(), ..self },
                bound_filter,
                snapshot: self.snapshots[0],
            }
        }
    }

    /// The state that looks at the next manifest. An evaluator that was made for the same
    /// partition spec is used again.
    pub open spec fn next_manifest(self, bound_filter: T::BoundPredicate) -> ConflictCheckView<T> {
        if self.manifests.len() == 0 {
            self.next_snapshot(bound_filter)
        } else {
            let manifest = self.manifests[0];
            let spec_id = manifest.partition_spec_id;
            let scan = ScanView { manifests: self.manifests.drop_first(), ..self };
            if self.evaluators.contains_key(spec_id) {
                ConflictCheckView::MatchManifest {
                    scan: ScanView { evaluators: self.evaluators.remove(spec_id), ..scan },
                    bound_filter,
                    manifest,
                    evaluator: self.evaluators[spec_id],
                }
            } else {
                scan.with_build(
                    manifest,
                    PartitionFilterBuildView::start(
                        self.metadata,
                        spec_id,
                        self.metadata.current_schema,
                        bound_filter,
                    ),
                )
            }
        }
    }

    /// The state in which the work on the partition filter of `manifest` stands at `build`.
    pub open spec fn with_build(
        self,
        manifest: ManifestFile<T>,
        build: PartitionFilterBuildView<T>,
    ) -> ConflictCheckView<T> {
        match build {
            PartitionFilterBuildView::Finished { result: Ok(partition_filter), bound_filter } => {
                ConflictCheckView::NewEvaluator {
                    scan: self,
                    bound_filter,
                    manifest,
                    partition_filter,
                }
            },
            PartitionFilterBuildView::Finished { result: Err(error), .. } => {
                ConflictCheckView::Finished(Err(error))
            },
            _ => ConflictCheckView::BuildPartitionFilter { scan: self, manifest, build },
        }
    }

    /// The state that looks at the next of some entries.
    pub open spec fn next_entry(
        self,
        bound_filter: T::BoundPredicate,
        entries: Seq<ManifestEntry<T>>,
    ) -> ConflictCheckView<T> {
        if entries.len() == 0 {
            self.next_manifest(bound_filter)
        } else {
            ConflictCheckView::MatchFile {
                scan: self,
                bound_filter,
                entry: entries[0],
                entries: entries.drop_first(),
                include_empty_files: false,
            }
        }
    }
}

impl<T: TableTypes> ConflictCheckView<T> {
    /// The first state. A table without a snapshot holds no data, and nothing was committed since
    /// a head that is still the snapshot read from.
    pub open spec fn start(
        metadata: TableMetadata<T>,
        from_snapshot_id: Option<i64>,
        conflict_filter: T::Predicate,
        filter_text: Seq<char>,
    ) -> Self {
        match metadata.head() {
            None => ConflictCheckView::Finished(Ok(())),
            Some(head_snapshot_id) => if from_snapshot_id == Some(head_snapshot_id) {
                ConflictCheckView::Finished(Ok(()))
            } else {
                ConflictCheckView::BindFilter {
                    metadata,
                    head_snapshot_id,
                    from_snapshot_id,
                    conflict_filter,
                    filter_text,
                    case_sensitive: true,
                }
            },
        }
    }

    /// The last state after a failure.
    pub open spec fn failed(failure: T::Failure) -> Self {
        ConflictCheckView::Finished(Err(ErrorView::Outside(failure)))
    }

    /// The state after an answer. A failure ends the check; an answer that the state does not
    /// wait for changes nothing.
    pub open spec fn step(self, reply: ConflictCheckReply<T>) -> Self {
        match (self, reply) {
            (
                ConflictCheckView::BindFilter {
                    metadata,
                    head_snapshot_id,
                    from_snapshot_id,
                    filter_text,
                    ..
                },
                ConflictCheckReply::Bound(reply),
            ) => match reply {
                Ok(bound_filter) => ConflictCheckView::FindAncestors {
                    metadata,
                    head_snapshot_id,
                    from_snapshot_id,
                    filter_text,
                    bound_filter,
                },
                Err(failure) => Self::failed(failure),
            },
            (
                ConflictCheckView::FindAncestors { metadata, filter_text, bound_filter, .. },
                ConflictCheckReply::Ancestors(snapshots),
            ) => ScanView {
                metadata,
                filter_text,
                evaluators: Map::empty(),
                snapshots,
                manifests: Seq::empty(),
            }.next_snapshot(bound_filter),
            (
                ConflictCheckView::LoadList { scan, bound_filter, snapshot },
                ConflictCheckReply::List(reply),
            ) => match reply {
                Ok(list) => ScanView {
                    manifests: adding_manifests(list, snapshot.snapshot_id),
                    ..scan
                }.next_manifest(bound_filter),
                Err(failure) => Self::failed(failure),
            },
            (
                ConflictCheckView::BuildPartitionFilter { scan, manifest, build },
                ConflictCheckReply::PartitionFilter(reply),
            ) => scan.with_build(manifest, build.step(reply)),
            (
                ConflictCheckView::NewEvaluator { scan, bound_filter, manifest, .. },
                ConflictCheckReply::Evaluator(evaluator),
            ) => ConflictCheckView::MatchManifest { scan, bound_filter, manifest, evaluator },
            (
                ConflictCheckView::MatchManifest { scan, bound_filter, manifest, evaluator },
                ConflictCheckReply::ManifestMatches(reply),
            ) => {
                let scan = ScanView {
                    evaluators: scan.evaluators.insert(manifest.partition_spec_id, evaluator),
                    ..scan
                };
                match reply {
                    Ok(true) => ConflictCheckView::LoadManifest { scan, bound_filter, manifest },
                    Ok(false) => scan.next_manifest(bound_filter),
                    Err(failure) => Self::failed(failure),
                }
            },
            (
                ConflictCheckView::LoadManifest { scan, bound_filter, .. },
                ConflictCheckReply::Manifest(reply),
            ) => match reply {
                Ok(manifest) => scan.next_entry(bound_filter, added_entries(manifest.entries)),
                Err(failure) => Self::failed(failure),
            },
            (
                ConflictCheckView::MatchFile { scan, bound_filter, entry, entries, .. },
                ConflictCheckReply::FileMatches(reply),
            ) => match reply {
                Ok(true) => ConflictCheckView::Finished(
                    Err(conflict_error(scan.filter_text, entry.path())),
                ),
                Ok(false) => scan.next_entry(bound_filter, entries),
                Err(failure) => Self::failed(failure),
            },
            _ => self,
        }
    }
}

/// What a result says to the check.
pub open spec fn list_reply<T: TableTypes>(
    reply: Result<Vec<ManifestFile<T>>, T::Failure>,
) -> ConflictCheckReply<T> {
    match reply {
        Ok(list) => ConflictCheckReply::List(Ok(list@)),
        Err(failure) => ConflictCheckReply::List(Err(failure)),
    }
}

/// What a result says to the check.
pub open spec fn manifest_reply<T: TableTypes>(
    reply: Result<Manifest<T>, T::Failure>,
) -> ConflictCheckReply<T> {
    match reply {
        Ok(manifest) => ConflictCheckReply::Manifest(Ok(manifest@)),
        Err(failure) => ConflictCheckReply::Manifest(Err(failure)),
    }
}

/// Whether a manifest can list data files that the snapshot added.
pub fn lists_additions<T: TableTypes>(manifest: &ManifestFile<T>, snapshot_id: i64) -> (lists:
    bool)
    ensures
        lists == can_list_additions(*manifest, snapshot_id),
{
    let is_data = match manifest.content {
        ManifestContentType::Data => true,
        ManifestContentType::Deletes => false,
    };
    is_data && manifest.added_snapshot_id == snapshot_id && manifest.has_added_files
}

fn snapshot_queue<T: TableTypes>(snapshots: Vec<Snapshot<T>>) -> (queue: VecDeque<Snapshot<T>>)
    ensures
        queue@ == snapshots@,
{
    let ghost all = snapshots@;
    let mut queue: VecDeque<Snapshot<T>> = VecDeque::new();
    for snapshot in it: snapshots
        invariant
            it.seq() == all,
            queue@ == all.take(it.index() as int),
    {
        queue.push_back(snapshot);
    }
    assert(all.take(all.len() as int) =~= all);
    queue
}

fn adding_manifest_queue<T: TableTypes>(
    list: Vec<ManifestFile<T>>,
    snapshot_id: i64,
) -> (adding: VecDeque<ManifestFile<T>>)
    ensures
        adding@ == adding_manifests(list@, snapshot_id),
{
    let ghost all = list@;
    let mut adding: VecDeque<ManifestFile<T>> = VecDeque::new();
    proof {
        crate::seqs::lemma_filter_take_ends(
            all,
            |manifest: ManifestFile<T>| can_list_additions(manifest, snapshot_id),
        );
    }
    for manifest in it: list
        invariant
            it.seq() == all,
            adding@ == adding_manifests(all.take(it.index() as int), snapshot_id),
    {
        proof {
            crate::seqs::lemma_filter_take(
                all,
                |manifest: ManifestFile<T>| can_list_additions(manifest, snapshot_id),
                it.index() as int,
            );
        }
        if lists_additions(&manifest, snapshot_id) {
            adding.push_back(manifest);
        }
    }
    adding
}

fn added_entry_queue<T: TableTypes>(entries: Vec<ManifestEntry<T>>) -> (added: VecDeque<
    ManifestEntry<T>,
>)
    ensures
        added@ == added_entries(entries@),
{
    let ghost all = entries@;
    let mut added: VecDeque<ManifestEntry<T>> = VecDeque::new();
    proof {
        crate::seqs::lemma_filter_take_ends(all, |entry: ManifestEntry<T>| entry.status is Added);
    }
    for entry in it: entries
        invariant
            it.seq() == all,
            added@ == added_entries(all.take(it.index() as int)),
    {
        proof {
            crate::seqs::lemma_filter_take(
                all,
                |entry: ManifestEntry<T>| entry.status is Added,
                it.index() as int,
            );
        }
        match entry.status {
            ManifestStatus::Added => {
                added.push_back(entry);
            },
            ManifestStatus::Existing | ManifestStatus::Deleted => {},
        }
    }
    added
}

fn conflict<T: TableTypes>(filter_text: &str, path: &str) -> (error: Error<T>)
    ensures
        error@ == conflict_error::<T>(filter_text@, path@),
{
    let mut message = String::from_str(
        "Found conflicting files that can contain records matching ",
    );
    message.append(filter_text);
    message.append(": ");
    message.append(path);
    Error::Rule(RuleError::new(ErrorKind::DataInvalid, message))
}

impl<'a, T: TableTypes> Scan<'a, T> {
    fn next_snapshot(self, bound_filter: T::BoundPredicate) -> (state: ConflictCheck<'a, T>)
        ensures
            state@ == self@.next_snapshot(bound_filter),
    {
        let mut scan = self;
        match scan.snapshots.pop_front() {
            None => ConflictCheck::Finished(Ok(())),
            Some(snapshot) => {
                assert(scan.snapshots@ =~= self.snapshots@.drop_first());
                ConflictCheck::LoadList(AwaitingSnapshotManifests { scan, bound_filter, snapshot })
            },
        }
    }

    fn with_build(self, manifest: ManifestFile<T>, build: PartitionFilterBuild<'a, T>) -> (state:
        ConflictCheck<'a, T>)
        ensures
            state@ == self@.with_build(manifest, build@),
    {
        match build {
            PartitionFilterBuild::Finished { result: Ok(partition_filter), bound_filter } => {
                ConflictCheck::NewEvaluator(
                    AwaitingEvaluator { scan: self, bound_filter, manifest, partition_filter },
                )
            },
            PartitionFilterBuild::Finished { result: Err(error), .. } => {
                ConflictCheck::Finished(Err(error))
            },
            build => ConflictCheck::BuildPartitionFilter(
                AwaitingPartitionFilter { scan: self, manifest, build },
            ),
        }
    }

    fn next_manifest(self, bound_filter: T::BoundPredicate) -> (state: ConflictCheck<'a, T>)
        ensures
            state@ == self@.next_manifest(bound_filter),
    {
        let mut scan = self;
        match scan.manifests.pop_front() {
            None => {
                assert(scan@ =~= self@);
                scan.next_snapshot(bound_filter)
            },
            Some(manifest) => {
                assert(scan.manifests@ =~= self.manifests@.drop_first());
                match scan.evaluators.remove(&manifest.partition_spec_id) {
                    Some(evaluator) => ConflictCheck::MatchManifest(
                        AwaitingManifestMatch { scan, bound_filter, manifest, evaluator },
                    ),
                    None => {
                        assert(scan.evaluators@ =~= self.evaluators@);
                        let build = build_partition_filter(
                            scan.metadata,
                            manifest.partition_spec_id,
                            &scan.metadata.current_schema,
                            bound_filter,
                        );
                        scan.with_build(manifest, build)
                    },
                }
            },
        }
    }

    fn next_entry(
        self,
        bound_filter: T::BoundPredicate,
        entries: VecDeque<ManifestEntry<T>>,
    ) -> (state: ConflictCheck<'a, T>)
        ensures
            state@ == self@.next_entry(bound_filter, entries@),
    {
        let ghost all = entries@;
        let mut entries = entries;
        match entries.pop_front() {
            None => self.next_manifest(bound_filter),
            Some(entry) => {
                assert(entries@ =~= all.drop_first());
                ConflictCheck::MatchFile(
                    AwaitingFileMatch {
                        scan: self,
                        bound_filter,
                        entry,
                        entries,
                        include_empty_files: false,
                    },
                )
            },
        }
    }
}

/// Starts the check that no snapshot committed after `from_snapshot_id`, up to the current one,
/// added a data file that may hold rows which match `conflict_filter`. `filter_text` is the
/// filter as error messages show it.
///
/// Every such snapshot is looked at, whatever its operation: one that replaced or deleted files
/// may have added some too.
///
/// Only added data files are looked for, not delete files or removed data files.
pub fn validate_no_conflicting_data<'a, T: TableTypes>(
    metadata: &'a TableMetadata<T>,
    from_snapshot_id: Option<i64>,
    conflict_filter: &'a T::Predicate,
    filter_text: &'a str,
) -> (state: ConflictCheck<'a, T>)
    ensures
        state@ == ConflictCheckView::start(
            *metadata,
            from_snapshot_id,
            *conflict_filter,
            filter_text@,
        ),
{
    match metadata.current_snapshot_id() {
        None => ConflictCheck::Finished(Ok(())),
        Some(head_snapshot_id) => {
            let nothing_new = match from_snapshot_id {
                Some(from) => from == head_snapshot_id,
                None => false,
            };
            if nothing_new {
                ConflictCheck::Finished(Ok(()))
            } else {
                ConflictCheck::BindFilter(
                    AwaitingBoundFilter {
                        metadata,
                        head_snapshot_id,
                        from_snapshot_id,
                        conflict_filter,
                        filter_text,
                        case_sensitive: true,
                    },
                )
            }
        },
    }
}

impl<'a, T: TableTypes> AwaitingBoundFilter<'a, T> {
    /// Goes on with the bound filter.
    pub fn resume(self, reply: Result<T::BoundPredicate, T::Failure>) -> (state: ConflictCheck<
        'a,
        T,
    >)
        ensures
            state@ == self@.step(ConflictCheckReply::Bound(reply)),
    {
        match reply {
            Err(failure) => ConflictCheck::Finished(Err(Error::Outside(failure))),
            Ok(bound_filter) => ConflictCheck::FindAncestors(
                AwaitingAncestors {
                    metadata: self.metadata,
                    head_snapshot_id: self.head_snapshot_id,
                    from_snapshot_id: self.from_snapshot_id,
                    filter_text: self.filter_text,
                    bound_filter,
                },
            ),
        }
    }
}

impl<'a, T: TableTypes> AwaitingAncestors<'a, T> {
    /// Goes on with the snapshots, which are looked at in the order given.
    pub fn resume(self, snapshots: Vec<Snapshot<T>>) -> (state: ConflictCheck<'a, T>)
        ensures
            state@ == self@.step(ConflictCheckReply::Ancestors(snapshots@)),
    {
        let scan = Scan {
            metadata: self.metadata,
            filter_text: self.filter_text,
            evaluators: HashMap::new(),
            snapshots: snapshot_queue(snapshots),
            manifests: VecDeque::new(),
        };
        assert(scan.manifests@ =~= Seq::empty());
        scan.next_snapshot(self.bound_filter)
    }
}

impl<'a, T: TableTypes> AwaitingSnapshotManifests<'a, T> {
    /// Goes on with the manifest list.
    pub fn resume(self, reply: Result<Vec<ManifestFile<T>>, T::Failure>) -> (state: ConflictCheck<
        'a,
        T,
    >)
        ensures
            state@ == self@.step(list_reply(reply)),
    {
        match reply {
            Err(failure) => ConflictCheck::Finished(Err(Error::Outside(failure))),
            Ok(list) => {
                let manifests = adding_manifest_queue(list, self.snapshot.snapshot_id);
                Scan { manifests, ..self.scan }.next_manifest(self.bound_filter)
            },
        }
    }
}

impl<'a, T: TableTypes> AwaitingPartitionFilter<'a, T> {
    /// Goes on with an answer to `build`.
    pub fn resume(self, reply: PartitionFilterReply<T>) -> (state: ConflictCheck<'a, T>)
        ensures
            state@ == self@.step(ConflictCheckReply::PartitionFilter(reply)),
    {
        let build = self.build.resume(reply);
        self.scan.with_build(self.manifest, build)
    }
}

impl<'a, T: TableTypes> AwaitingEvaluator<'a, T> {
    /// Goes on with the evaluator.
    pub fn resume(self, evaluator: T::Evaluator) -> (state: ConflictCheck<'a, T>)
        ensures
            state@ == self@.step(ConflictCheckReply::Evaluator(evaluator)),
    {
        ConflictCheck::MatchManifest(
            AwaitingManifestMatch {
                scan: self.scan,
                bound_filter: self.bound_filter,
                manifest: self.manifest,
                evaluator,
            },
        )
    }
}

impl<'a, T: TableTypes> AwaitingManifestMatch<'a, T> {
    /// Goes on with whether the manifest may list matching files.
    pub fn resume(self, reply: Result<bool, T::Failure>) -> (state: ConflictCheck<'a, T>)
        ensures
            state@ == self@.step(ConflictCheckReply::ManifestMatches(reply)),
    {
        let mut scan = self.scan;
        scan.evaluators.insert(self.manifest.partition_spec_id, self.evaluator);
        match reply {
            Err(failure) => ConflictCheck::Finished(Err(Error::Outside(failure))),
            Ok(may_match) => {
                if may_match {
                    ConflictCheck::LoadManifest(
                        AwaitingManifestEntries {
                            scan,
                            bound_filter: self.bound_filter,
                            manifest: self.manifest,
                        },
                    )
                } else {
                    scan.next_manifest(self.bound_filter)
                }
            },
        }
    }
}

impl<'a, T: TableTypes> AwaitingManifestEntries<'a, T> {
    /// Goes on with the contents of the manifest.
    pub fn resume(self, reply: Result<Manifest<T>, T::Failure>) -> (state: ConflictCheck<'a, T>)
        ensures
            state@ == self@.step(manifest_reply(reply)),
    {
        match reply {
            Err(failure) => ConflictCheck::Finished(Err(Error::Outside(failure))),
            Ok(manifest) => {
                let entries = added_entry_queue(manifest.entries);
                self.scan.next_entry(self.bound_filter, entries)
            },
        }
    }
}

impl<'a, T: TableTypes> AwaitingFileMatch<'a, T> {
    /// Goes on with whether the file may hold matching rows.
    pub fn resume(self, reply: Result<bool, T::Failure>) -> (state: ConflictCheck<'a, T>)
        ensures
            state@ == self@.step(ConflictCheckReply::FileMatches(reply)),
    {
        match reply {
            Err(failure) => ConflictCheck::Finished(Err(Error::Outside(failure))),
            Ok(may_match) => {
                if may_match {
                    ConflictCheck::Finished(
                        Err(
                            conflict(
                                self.scan.filter_text,
                                self.entry.data_file.file_path.as_str(),
                            ),
                        ),
                    )
                } else {
                    self.scan.next_entry(self.bound_filter, self.entries)
                }
            },
        }
    }
}

} // verus!
