//! What the conflict check finds as a whole.

use vstd::prelude::*;

use crate::error::ErrorView;
use crate::model::{
    DataFile, ManifestEntry, ManifestFile, ManifestStatus, ManifestView, PartitionSpec, Snapshot,
    TableMetadata, TableTypes,
};
use crate::partition_filter::{PartitionFilterBuildView, PartitionFilterReply};
use crate::validate::{ConflictCheckReply, ConflictCheckView, ScanView};

verus! {

/// What a caller answers during one check.
#[verifier::reject_recursive_types(T)]
pub struct Environment<T: TableTypes> {
    /// Binds a filter to a schema.
    pub bind: spec_fn(T::Predicate, T::Schema, bool) -> Result<T::BoundPredicate, T::Failure>,
    /// The snapshots after a snapshot, up to a head.
    pub ancestors: spec_fn(TableMetadata<T>, i64, Option<i64>) -> Seq<Snapshot<T>>,
    /// The manifest list of a snapshot.
    pub list: spec_fn(Snapshot<T>) -> Result<Seq<ManifestFile<T>>, T::Failure>,
    /// The fields of the partition type of a spec.
    pub partition_type: spec_fn(PartitionSpec<T>, T::Schema) -> Result<
        T::PartitionFields,
        T::Failure,
    >,
    /// The schema with an id and some fields.
    pub build_schema: spec_fn(i32, T::PartitionFields) -> Result<T::Schema, T::Failure>,
    /// Projects a filter onto the partitions of a spec.
    pub project: spec_fn(PartitionSpec<T>, T::BoundPredicate) -> Result<T::Predicate, T::Failure>,
    /// Pushes negations down.
    pub rewrite_not: spec_fn(T::Predicate) -> T::Predicate,
    /// The evaluator of a partition filter.
    pub new_evaluator: spec_fn(T::BoundPredicate) -> T::Evaluator,
    /// Whether a manifest may list files that match.
    pub match_manifest: spec_fn(T::Evaluator, ManifestFile<T>) -> Result<bool, T::Failure>,
    /// The contents of a manifest.
    pub load: spec_fn(ManifestFile<T>) -> Result<ManifestView<T>, T::Failure>,
    /// Whether a file may hold rows that match.
    pub match_file: spec_fn(T::BoundPredicate, DataFile<T>, bool) -> Result<bool, T::Failure>,
}

/// A result of the caller's as the check passes it on.
pub open spec fn passed_on<A, T: TableTypes>(result: Result<A, T::Failure>) -> Result<
    A,
    ErrorView<T>,
> {
    match result {
        Ok(value) => Ok(value),
        Err(failure) => Err(ErrorView::Outside(failure)),
    }
}

impl<T: TableTypes> Environment<T> {
    /// The filter that a row filter puts on the partitions of a spec: the row filter projected
    /// onto the spec, with negations pushed down, bound to a schema of the partition fields that
    /// has the id of the spec. The first step that fails decides.
    pub open spec fn partition_filter(
        self,
        metadata: TableMetadata<T>,
        spec_id: i32,
        schema: T::Schema,
        bound_filter: T::BoundPredicate,
    ) -> Result<T::BoundPredicate, ErrorView<T>> {
        if !metadata.partition_specs@.contains_key(spec_id) {
            Err(crate::partition_filter::missing_spec_error(spec_id))
        } else {
            let spec = metadata.partition_specs@[spec_id];
            match (self.partition_type)(spec, schema) {
                Err(failure) => Err(ErrorView::Outside(failure)),
                Ok(fields) => match (self.build_schema)(spec.spec_id, fields) {
                    Err(failure) => Err(ErrorView::Outside(failure)),
                    Ok(partition_schema) => match (self.project)(spec, bound_filter) {
                        Err(failure) => Err(ErrorView::Outside(failure)),
                        Ok(projected) => passed_on(
                            (self.bind)((self.rewrite_not)(projected), partition_schema, true),
                        ),
                    },
                },
            }
        }
    }

    /// The answer to a state of the work on a partition filter.
    pub open spec fn filter_reply(
        self,
        build: PartitionFilterBuildView<T>,
    ) -> PartitionFilterReply<T> {
        match build {
            PartitionFilterBuildView::PartitionType { spec, schema, .. } => {
                PartitionFilterReply::Fields((self.partition_type)(spec, schema))
            },
            PartitionFilterBuildView::BuildSchema { schema_id, fields, .. } => {
                PartitionFilterReply::Schema((self.build_schema)(schema_id, fields))
            },
            PartitionFilterBuildView::Project { spec, bound_filter, .. } => {
                PartitionFilterReply::Projected((self.project)(spec, bound_filter))
            },
            PartitionFilterBuildView::RewriteNot { projected, .. } => {
                PartitionFilterReply::Rewritten((self.rewrite_not)(projected))
            },
            PartitionFilterBuildView::Bind {
                partition_schema,
                predicate,
                case_sensitive,
                ..
            } => PartitionFilterReply::Bound(
                (self.bind)(predicate, partition_schema, case_sensitive),
            ),
            PartitionFilterBuildView::Finished { bound_filter, .. } => {
                PartitionFilterReply::Bound(Ok(bound_filter))
            },
        }
    }

    /// The state of the work on a partition filter after `n` answers.
    pub open spec fn run_filter(self, build: PartitionFilterBuildView<T>, n: nat) ->
        PartitionFilterBuildView<T>
        decreases n,
    {
        if n == 0 {
            build
        } else {
            self.run_filter(build.step(self.filter_reply(build)), (n - 1) as nat)
        }
    }

    /// The answer to a state of the check.
    pub open spec fn reply(self, state: ConflictCheckView<T>) -> ConflictCheckReply<T> {
        match state {
            ConflictCheckView::BindFilter {
                metadata,
                conflict_filter,
                case_sensitive,
                ..
            } => ConflictCheckReply::Bound(
                (self.bind)(conflict_filter, metadata.current_schema, case_sensitive),
            ),
            ConflictCheckView::FindAncestors {
                metadata,
                head_snapshot_id,
                from_snapshot_id,
                ..
            } => ConflictCheckReply::Ancestors(
                (self.ancestors)(metadata, head_snapshot_id, from_snapshot_id),
            ),
            ConflictCheckView::LoadList { snapshot, .. } => ConflictCheckReply::List(
                (self.list)(snapshot),
            ),
            ConflictCheckView::BuildPartitionFilter { build, .. } => {
                ConflictCheckReply::PartitionFilter(self.filter_reply(build))
            },
            ConflictCheckView::NewEvaluator { partition_filter, .. } => {
                ConflictCheckReply::Evaluator((self.new_evaluator)(partition_filter))
            },
            ConflictCheckView::MatchManifest { manifest, evaluator, .. } => {
                ConflictCheckReply::ManifestMatches((self.match_manifest)(evaluator, manifest))
            },
            ConflictCheckView::LoadManifest { manifest, .. } => ConflictCheckReply::Manifest(
                (self.load)(manifest),
            ),
            ConflictCheckView::MatchFile { bound_filter, entry, include_empty_files, .. } => {
                ConflictCheckReply::FileMatches(
                    (self.match_file)(bound_filter, entry.data_file, include_empty_files),
                )
            },
            ConflictCheckView::Finished(_) => ConflictCheckReply::Ancestors(Seq::empty()),
        }
    }

    /// The state of the check after `n` answers.
    pub open spec fn run(self, state: ConflictCheckView<T>, n: nat) -> ConflictCheckView<T>
        decreases n,
    {
        if n == 0 {
            state
        } else {
            self.run(state.step(self.reply(state)), (n - 1) as nat)
        }
    }

    /// Whether the check ends with `outcome`.
    pub open spec fn ends_with(
        self,
        state: ConflictCheckView<T>,
        outcome: Result<(), ErrorView<T>>,
    ) -> bool {
        exists|n: nat| #[trigger] self.run(state, n) == ConflictCheckView::Finished(outcome)
    }
}

/// What a check is about: a table, and a row filter bound to its schema.
pub struct Question<T: TableTypes> {
    pub metadata: TableMetadata<T>,
    pub bound_filter: T::BoundPredicate,
    /// The filter as error messages show it.
    pub filter_text: Seq<char>,
}

impl<T: TableTypes> Question<T> {
    /// The filter on the partitions of a spec.
    pub open spec fn partition_filter(self, env: Environment<T>, spec_id: i32) -> Result<
        T::BoundPredicate,
        ErrorView<T>,
    > {
        env.partition_filter(
            self.metadata,
            spec_id,
            self.metadata.current_schema,
            self.bound_filter,
        )
    }

    /// Whether the partition summaries of a manifest leave room for matching files.
    pub open spec fn manifest_may_match(
        self,
        env: Environment<T>,
        manifest: ManifestFile<T>,
    ) -> Result<bool, ErrorView<T>> {
        match self.partition_filter(env, manifest.partition_spec_id) {
            Err(error) => Err(error),
            Ok(partition_filter) => passed_on(
                (env.match_manifest)((env.new_evaluator)(partition_filter), manifest),
            ),
        }
    }

    /// Whether the metrics of a file leave room for matching rows.
    pub open spec fn file_may_match(
        self,
        env: Environment<T>,
        file: DataFile<T>,
    ) -> Result<bool, T::Failure> {
        (env.match_file)(self.bound_filter, file, false)
    }

    /// What the added entries of a manifest come to: the first that may match is an error.
    pub open spec fn entries_outcome(
        self,
        env: Environment<T>,
        entries: Seq<ManifestEntry<T>>,
    ) -> Result<(), ErrorView<T>>
        decreases entries.len(),
    {
        if entries.len() == 0 {
            Ok(())
        } else {
            match self.file_may_match(env, entries[0].data_file) {
                Err(failure) => Err(ErrorView::Outside(failure)),
                Ok(true) => Err(
                    crate::validate::conflict_error(self.filter_text, entries[0].path()),
                ),
                Ok(false) => self.entries_outcome(env, entries.drop_first()),
            }
        }
    }

    /// What a manifest comes to: its entries count where its summaries leave room for a match.
    pub open spec fn manifest_outcome(
        self,
        env: Environment<T>,
        manifest: ManifestFile<T>,
    ) -> Result<(), ErrorView<T>> {
        match self.manifest_may_match(env, manifest) {
            Err(error) => Err(error),
            Ok(false) => Ok(()),
            Ok(true) => match (env.load)(manifest) {
                Err(failure) => Err(ErrorView::Outside(failure)),
                Ok(contents) => self.entries_outcome(
                    env,
                    contents.entries.filter(|entry: ManifestEntry<T>| entry.status is Added),
                ),
            },
        }
    }

    /// What some manifests come to: the first error among them.
    pub open spec fn manifests_outcome(
        self,
        env: Environment<T>,
        manifests: Seq<ManifestFile<T>>,
    ) -> Result<(), ErrorView<T>>
        decreases manifests.len(),
    {
        if manifests.len() == 0 {
            Ok(())
        } else if self.manifest_outcome(env, manifests[0]) is Err {
            self.manifest_outcome(env, manifests[0])
        } else {
            self.manifests_outcome(env, manifests.drop_first())
        }
    }

    /// What a snapshot comes to: its own manifests of added data files count.
    pub open spec fn snapshot_outcome(
        self,
        env: Environment<T>,
        snapshot: Snapshot<T>,
    ) -> Result<(), ErrorView<T>> {
        match (env.list)(snapshot) {
            Err(failure) => Err(ErrorView::Outside(failure)),
            Ok(list) => self.manifests_outcome(
                env,
                list.filter(
                    |manifest: ManifestFile<T>|
                        manifest.content is Data && manifest.added_snapshot_id
                            == snapshot.snapshot_id && manifest.has_added_files,
                ),
            ),
        }
    }

    /// What some snapshots come to: the first error among them.
    pub open spec fn snapshots_outcome(
        self,
        env: Environment<T>,
        snapshots: Seq<Snapshot<T>>,
    ) -> Result<(), ErrorView<T>>
        decreases snapshots.len(),
    {
        if snapshots.len() == 0 {
            Ok(())
        } else if self.snapshot_outcome(env, snapshots[0]) is Err {
            self.snapshot_outcome(env, snapshots[0])
        } else {
            self.snapshots_outcome(env, snapshots.drop_first())
        }
    }
}

impl<T: TableTypes> Environment<T> {
    /// The outcome of the whole check.
    pub open spec fn outcome(
        self,
        metadata: TableMetadata<T>,
        from_snapshot_id: Option<i64>,
        conflict_filter: T::Predicate,
        filter_text: Seq<char>,
    ) -> Result<(), ErrorView<T>> {
        match metadata.current_snapshot {
            None => Ok(()),
            Some(current) => if from_snapshot_id == Some(current.snapshot_id) {
                Ok(())
            } else {
                match (self.bind)(conflict_filter, metadata.current_schema, true) {
                    Err(failure) => Err(ErrorView::Outside(failure)),
                    Ok(bound_filter) => Question {
                        metadata,
                        bound_filter,
                        filter_text,
                    }.snapshots_outcome(
                        self,
                        (self.ancestors)(metadata, current.snapshot_id, from_snapshot_id),
                    ),
                }
            },
        }
    }
}

/// Answered by any environment, the work on a partition filter ends after at most five answers,
/// with the filter or the first failure, and gives the row filter back.
pub proof fn law_partition_filter_is_built<T: TableTypes>(
    env: Environment<T>,
    metadata: TableMetadata<T>,
    spec_id: i32,
    schema: T::Schema,
    bound_filter: T::BoundPredicate,
)
    ensures
        env.run_filter(
            PartitionFilterBuildView::start(metadata, spec_id, schema, bound_filter),
            5,
        ) == (PartitionFilterBuildView::Finished {
            result: env.partition_filter(metadata, spec_id, schema, bound_filter),
            bound_filter,
        }),
{
    reveal_with_fuel(Environment::run_filter, 6);
}

/// The manifests of a list that are looked at are the data manifests that the snapshot wrote and
/// that have added files, in order, whatever else is said of them.
pub proof fn law_own_data_manifests_with_additions_are_looked_at<T: TableTypes>(
    list: Seq<ManifestFile<T>>,
    snapshot_id: i64,
)
    ensures
        crate::validate::adding_manifests(list, snapshot_id) == list.filter(
            |manifest: ManifestFile<T>|
                manifest.content is Data && manifest.added_snapshot_id == snapshot_id
                    && manifest.has_added_files,
        ),
        forall|manifest: ManifestFile<T>| #[trigger]
            crate::validate::can_list_additions(manifest, snapshot_id)
                <==> manifest.content is Data && manifest.added_snapshot_id == snapshot_id
                && manifest.has_added_files,
{
    crate::seqs::lemma_filter_same(
        list,
        |manifest: ManifestFile<T>| crate::validate::can_list_additions(manifest, snapshot_id),
        |manifest: ManifestFile<T>|
            manifest.content is Data && manifest.added_snapshot_id == snapshot_id
                && manifest.has_added_files,
    );
}

/// The entries of a manifest that are looked at are those with status `Added`, in order.
pub proof fn law_added_entries_are_looked_at<T: TableTypes>(entries: Seq<ManifestEntry<T>>)
    ensures
        crate::validate::added_entries(entries) == entries.filter(
            |entry: ManifestEntry<T>| entry.status == ManifestStatus::Added,
        ),
{
    crate::seqs::lemma_filter_same(
        entries,
        |entry: ManifestEntry<T>| entry.status is Added,
        |entry: ManifestEntry<T>| entry.status == ManifestStatus::Added,
    );
}

/// A check whose next state ends with an outcome ends with it.
proof fn lemma_step_back<T: TableTypes>(
    env: Environment<T>,
    state: ConflictCheckView<T>,
    outcome: Result<(), ErrorView<T>>,
)
    requires
        env.ends_with(state.step(env.reply(state)), outcome),
    ensures
        env.ends_with(state, outcome),
{
    let next = state.step(env.reply(state));
    let n = choose|n: nat| #[trigger] env.run(next, n) == ConflictCheckView::Finished(outcome);
    assert(env.run(state, n + 1) == env.run(next, n));
}

/// A check that has ended ends with its outcome.
proof fn lemma_ended<T: TableTypes>(env: Environment<T>, outcome: Result<(), ErrorView<T>>)
    ensures
        env.ends_with(ConflictCheckView::Finished(outcome), outcome),
{
    assert(env.run(ConflictCheckView::Finished(outcome), 0) == ConflictCheckView::<T>::Finished(
        outcome,
    ));
}

/// A check that works on a partition filter goes on from the end of that work.
proof fn lemma_filter_runs<T: TableTypes>(
    env: Environment<T>,
    scan: ScanView<T>,
    manifest: ManifestFile<T>,
    build: PartitionFilterBuildView<T>,
    n: nat,
    outcome: Result<(), ErrorView<T>>,
)
    requires
        env.ends_with(scan.with_build(manifest, env.run_filter(build, n)), outcome),
    ensures
        env.ends_with(scan.with_build(manifest, build), outcome),
    decreases n,
{
    if n > 0 {
        let next = build.step(env.filter_reply(build));
        lemma_filter_runs(env, scan, manifest, next, (n - 1) as nat, outcome);
        if !(build is Finished) {
            lemma_step_back(env, scan.with_build(manifest, build), outcome);
        } else {
            assert(next == build);
        }
    }
}

/// Whether the evaluators that were made are those of the partition filters of their specs.
pub open spec fn evaluators_fit<T: TableTypes>(
    env: Environment<T>,
    question: Question<T>,
    evaluators: Map<i32, T::Evaluator>,
) -> bool {
    forall|spec_id: i32| #[trigger]
        evaluators.contains_key(spec_id) ==> {
            &&& question.partition_filter(env, spec_id) matches Ok(partition_filter)
            &&& evaluators[spec_id] == (env.new_evaluator)(partition_filter)
        }
}

/// Whether a scan is one that the question and the environment lead to.
pub open spec fn scan_fits<T: TableTypes>(
    env: Environment<T>,
    question: Question<T>,
    scan: ScanView<T>,
) -> bool {
    &&& scan.metadata == question.metadata
    &&& scan.filter_text == question.filter_text
    &&& evaluators_fit(env, question, scan.evaluators)
}

/// One result, or where it is no error another.
spec fn followed_by<T: TableTypes>(
    first: Result<(), ErrorView<T>>,
    second: Result<(), ErrorView<T>>,
) -> Result<(), ErrorView<T>> {
    if first is Err {
        first
    } else {
        second
    }
}

proof fn lemma_snapshots_run<T: TableTypes>(
    env: Environment<T>,
    question: Question<T>,
    scan: ScanView<T>,
)
    requires
        scan_fits(env, question, scan),
    ensures
        env.ends_with(
            scan.next_snapshot(question.bound_filter),
            question.snapshots_outcome(env, scan.snapshots),
        ),
    decreases scan.snapshots.len(), 0nat, 0nat,
{
    let bound_filter = question.bound_filter;
    let outcome = question.snapshots_outcome(env, scan.snapshots);
    let state = scan.next_snapshot(bound_filter);
    if scan.snapshots.len() == 0 {
        lemma_ended(env, outcome);
    } else {
        let snapshot = scan.snapshots[0];
        let rest = ScanView { snapshots: scan.snapshots.drop_first(), ..scan };
        match (env.list)(snapshot) {
            Err(failure) => {
                lemma_ended(env, outcome);
            },
            Ok(list) => {
                let manifests = crate::validate::adding_manifests(list, snapshot.snapshot_id);
                law_own_data_manifests_with_additions_are_looked_at(list, snapshot.snapshot_id);
                lemma_manifests_run(env, question, ScanView { manifests, ..rest });
            },
        }
        lemma_step_back(env, state, outcome);
    }
}

proof fn lemma_manifests_run<T: TableTypes>(
    env: Environment<T>,
    question: Question<T>,
    scan: ScanView<T>,
)
    requires
        scan_fits(env, question, scan),
    ensures
        env.ends_with(
            scan.next_manifest(question.bound_filter),
            followed_by(
                question.manifests_outcome(env, scan.manifests),
                question.snapshots_outcome(env, scan.snapshots),
            ),
        ),
    decreases scan.snapshots.len(), scan.manifests.len() + 1, 0nat,
{
    let bound_filter = question.bound_filter;
    let after = question.snapshots_outcome(env, scan.snapshots);
    let outcome = followed_by(question.manifests_outcome(env, scan.manifests), after);
    if scan.manifests.len() == 0 {
        lemma_snapshots_run(env, question, scan);
    } else {
        let manifest = scan.manifests[0];
        let spec_id = manifest.partition_spec_id;
        let rest = ScanView { manifests: scan.manifests.drop_first(), ..scan };
        let filter = question.partition_filter(env, spec_id);
        if scan.evaluators.contains_key(spec_id) {
            let bare = ScanView { evaluators: scan.evaluators.remove(spec_id), ..rest };
            lemma_manifest_runs(
                env,
                question,
                bare,
                manifest,
                scan.evaluators[spec_id],
            );
        } else {
            let build = PartitionFilterBuildView::start(
                scan.metadata,
                spec_id,
                scan.metadata.current_schema,
                bound_filter,
            );
            law_partition_filter_is_built(
                env,
                scan.metadata,
                spec_id,
                scan.metadata.current_schema,
                bound_filter,
            );
            let end = env.run_filter(build, 5);
            match filter {
                Err(error) => {
                    lemma_ended(env, outcome);
                },
                Ok(partition_filter) => {
                    let evaluator = (env.new_evaluator)(partition_filter);
                    lemma_manifest_runs(env, question, rest, manifest, evaluator);
                    lemma_step_back(env, rest.with_build(manifest, end), outcome);
                },
            }
            lemma_filter_runs(env, rest, manifest, build, 5, outcome);
        }
    }
}

proof fn lemma_manifest_runs<T: TableTypes>(
    env: Environment<T>,
    question: Question<T>,
    scan: ScanView<T>,
    manifest: ManifestFile<T>,
    evaluator: T::Evaluator,
)
    requires
        scan_fits(env, question, scan),
        question.partition_filter(env, manifest.partition_spec_id) is Ok,
        evaluator == (env.new_evaluator)(
            question.partition_filter(env, manifest.partition_spec_id)->Ok_0,
        ),
    ensures
        env.ends_with(
            ConflictCheckView::MatchManifest {
                scan,
                bound_filter: question.bound_filter,
                manifest,
                evaluator,
            },
            followed_by(
                question.manifest_outcome(env, manifest),
                followed_by(
                    question.manifests_outcome(env, scan.manifests),
                    question.snapshots_outcome(env, scan.snapshots),
                ),
            ),
        ),
    decreases scan.snapshots.len(), scan.manifests.len() + 1, added_count(env, manifest) + 2,
{
    let bound_filter = question.bound_filter;
    let after = followed_by(
        question.manifests_outcome(env, scan.manifests),
        question.snapshots_outcome(env, scan.snapshots),
    );
    let outcome = followed_by(question.manifest_outcome(env, manifest), after);
    let state = ConflictCheckView::MatchManifest { scan, bound_filter, manifest, evaluator };
    let kept = ScanView {
        evaluators: scan.evaluators.insert(manifest.partition_spec_id, evaluator),
        ..scan
    };
    assert(scan_fits(env, question, kept));
    match (env.match_manifest)(evaluator, manifest) {
        Err(failure) => {
            lemma_ended(env, outcome);
        },
        Ok(false) => {
            lemma_manifests_run(env, question, kept);
        },
        Ok(true) => {
            let loading = ConflictCheckView::LoadManifest { scan: kept, bound_filter, manifest };
            match (env.load)(manifest) {
                Err(failure) => {
                    lemma_ended(env, outcome);
                },
                Ok(contents) => {
                    let entries = crate::validate::added_entries(contents.entries);
                    lemma_entries_run(env, question, kept, entries);
                },
            }
            lemma_step_back(env, loading, outcome);
        },
    }
    lemma_step_back(env, state, outcome);
}

/// How many added entries a manifest has, if it can be read.
spec fn added_count<T: TableTypes>(env: Environment<T>, manifest: ManifestFile<T>) -> nat {
    match (env.load)(manifest) {
        Ok(contents) => crate::validate::added_entries(contents.entries).len(),
        Err(_) => 0,
    }
}

proof fn lemma_entries_run<T: TableTypes>(
    env: Environment<T>,
    question: Question<T>,
    scan: ScanView<T>,
    entries: Seq<ManifestEntry<T>>,
)
    requires
        scan_fits(env, question, scan),
    ensures
        env.ends_with(
            scan.next_entry(question.bound_filter, entries),
            followed_by(
                question.entries_outcome(env, entries),
                followed_by(
                    question.manifests_outcome(env, scan.manifests),
                    question.snapshots_outcome(env, scan.snapshots),
                ),
            ),
        ),
    decreases scan.snapshots.len(), scan.manifests.len() + 1, entries.len() + 1,
{
    let after = followed_by(
        question.manifests_outcome(env, scan.manifests),
        question.snapshots_outcome(env, scan.snapshots),
    );
    let outcome = followed_by(question.entries_outcome(env, entries), after);
    let state = scan.next_entry(question.bound_filter, entries);
    if entries.len() == 0 {
        lemma_manifests_run(env, question, scan);
    } else {
        match question.file_may_match(env, entries[0].data_file) {
            Ok(false) => {
                lemma_entries_run(env, question, scan, entries.drop_first());
            },
            _ => {
                lemma_ended(env, outcome);
            },
        }
        lemma_step_back(env, state, outcome);
    }
}

/// Answered by any environment, the check ends, and ends with the outcome: no error where nothing
/// was committed since the snapshot read from, and else the first error among the snapshots that
/// were.
pub proof fn law_check_reaches_outcome<T: TableTypes>(
    env: Environment<T>,
    metadata: TableMetadata<T>,
    from_snapshot_id: Option<i64>,
    conflict_filter: T::Predicate,
    filter_text: Seq<char>,
)
    ensures
        env.ends_with(
            ConflictCheckView::start(metadata, from_snapshot_id, conflict_filter, filter_text),
            env.outcome(metadata, from_snapshot_id, conflict_filter, filter_text),
        ),
{
    let start = ConflictCheckView::start(
        metadata,
        from_snapshot_id,
        conflict_filter,
        filter_text,
    );
    let outcome = env.outcome(metadata, from_snapshot_id, conflict_filter, filter_text);
    if metadata.current_snapshot is None || from_snapshot_id == Some(
        metadata.current_snapshot->Some_0.snapshot_id,
    ) {
        lemma_ended(env, outcome);
    } else {
        let head = metadata.current_snapshot->Some_0.snapshot_id;
        let bound = start.step(env.reply(start));
        match (env.bind)(conflict_filter, metadata.current_schema, true) {
            Err(failure) => {
                lemma_ended(env, outcome);
            },
            Ok(bound_filter) => {
                let question = Question { metadata, bound_filter, filter_text };
                let window = (env.ancestors)(metadata, head, from_snapshot_id);
                let scan = ScanView {
                    metadata,
                    filter_text,
                    evaluators: Map::empty(),
                    snapshots: window,
                    manifests: Seq::empty(),
                };
                lemma_snapshots_run(env, question, scan);
                lemma_step_back(env, bound, outcome);
            },
        }
        lemma_step_back(env, start, outcome);
    }
}

impl<T: TableTypes> Question<T> {
    /// Whether manifest `j` in the list of snapshot `i` can list data files that the snapshot
    /// added: it is a data manifest that the snapshot wrote, and it has added files.
    pub open spec fn adds_data_at(
        self,
        env: Environment<T>,
        window: Seq<Snapshot<T>>,
        i: int,
        j: int,
    ) -> bool {
        &&& 0 <= i < window.len()
        &&& (env.list)(window[i]) matches Ok(list)
        &&& 0 <= j < list.len()
        &&& list[j].content is Data
        &&& list[j].added_snapshot_id == window[i].snapshot_id
        &&& list[j].has_added_files
    }

    /// The manifest `j` in the list of snapshot `i`.
    pub open spec fn manifest_at(
        self,
        env: Environment<T>,
        window: Seq<Snapshot<T>>,
        i: int,
        j: int,
    ) -> ManifestFile<T> {
        (env.list)(window[i])->Ok_0[j]
    }

    /// The entry `k` of manifest `j` in the list of snapshot `i`.
    pub open spec fn entry_at(
        self,
        env: Environment<T>,
        window: Seq<Snapshot<T>>,
        i: int,
        j: int,
        k: int,
    ) -> ManifestEntry<T> {
        (env.load)(self.manifest_at(env, window, i, j))->Ok_0.entries[k]
    }

    /// Whether entry `k` of manifest `j` in the list of snapshot `i` is a data file that the
    /// snapshot added and that neither the manifest's summaries nor the file's metrics rule out.
    pub open spec fn conflict_at(
        self,
        env: Environment<T>,
        window: Seq<Snapshot<T>>,
        i: int,
        j: int,
        k: int,
    ) -> bool {
        &&& self.reads_added_file_at(env, window, i, j, k)
        &&& self.file_may_match(env, self.entry_at(env, window, i, j, k).data_file) == Ok::<
            bool,
            T::Failure,
        >(true)
    }

    /// Whether nothing that the check may ask for fails: the lists and manifests that it reads can
    /// be read, the partition specs that it meets are known, and the filters can be evaluated.
    pub open spec fn all_answered(self, env: Environment<T>, window: Seq<Snapshot<T>>) -> bool {
        &&& forall|i: int|
            0 <= i < window.len() ==> (env.list)(#[trigger] window[i]) is Ok
        &&& forall|i: int, j: int| #[trigger]
            self.adds_data_at(env, window, i, j) ==> {
                let manifest = self.manifest_at(env, window, i, j);
                &&& self.manifest_may_match(env, manifest) is Ok
                &&& self.manifest_may_match(env, manifest)->Ok_0 ==> (env.load)(manifest) is Ok
            }
        &&& forall|i: int, j: int, k: int| #[trigger]
            self.reads_added_file_at(env, window, i, j, k) ==> self.file_may_match(
                env,
                self.entry_at(env, window, i, j, k).data_file,
            ) is Ok
    }

    /// Whether entry `k` of manifest `j` in the list of snapshot `i` is a data file that the
    /// snapshot added, in a manifest whose summaries leave room for matching files.
    pub open spec fn reads_added_file_at(
        self,
        env: Environment<T>,
        window: Seq<Snapshot<T>>,
        i: int,
        j: int,
        k: int,
    ) -> bool {
        &&& self.adds_data_at(env, window, i, j)
        &&& self.manifest_may_match(env, self.manifest_at(env, window, i, j)) == Ok::<
            bool,
            ErrorView<T>,
        >(true)
        &&& (env.load)(self.manifest_at(env, window, i, j)) matches Ok(contents)
        &&& 0 <= k < contents.entries.len()
        &&& contents.entries[k].status is Added
    }
}

/// No error among entries means that none of them may match; an error is a failure to judge one,
/// or names one that may match.
pub(crate) proof fn lemma_entries_outcome<T: TableTypes>(
    env: Environment<T>,
    question: Question<T>,
    entries: Seq<ManifestEntry<T>>,
)
    ensures
        match question.entries_outcome(env, entries) {
            Ok(_) => forall|k: int|
                0 <= k < entries.len() ==> question.file_may_match(
                    env,
                    (#[trigger] entries[k]).data_file,
                ) == Ok::<bool, T::Failure>(false),
            Err(error) => exists|k: int|
                {
                    &&& 0 <= k < entries.len()
                    &&& match question.file_may_match(env, (#[trigger] entries[k]).data_file) {
                        Ok(may_match) => may_match && error == crate::validate::conflict_error::<
                            T,
                        >(question.filter_text, entries[k].path()),
                        Err(failure) => error == ErrorView::<T>::Outside(failure),
                    }
                },
        },
    decreases entries.len(),
{
    if entries.len() > 0 {
        let rest = entries.drop_first();
        lemma_entries_outcome(env, question, rest);
        match question.file_may_match(env, entries[0].data_file) {
            Ok(false) => match question.entries_outcome(env, rest) {
                Ok(_) => {
                    assert forall|k: int| 0 <= k < entries.len() implies question.file_may_match(
                        env,
                        (#[trigger] entries[k]).data_file,
                    ) == Ok::<bool, T::Failure>(false) by {
                        if k > 0 {
                            assert(rest[k - 1] == entries[k]);
                        }
                    }
                },
                Err(error) => {
                    let k = choose|k: int|
                        {
                            &&& 0 <= k < rest.len()
                            &&& match question.file_may_match(
                                env,
                                (#[trigger] rest[k]).data_file,
                            ) {
                                Ok(may_match) => may_match && error
                                    == crate::validate::conflict_error::<T>(
                                    question.filter_text,
                                    rest[k].path(),
                                ),
                                Err(failure) => error == ErrorView::<T>::Outside(failure),
                            }
                        };
                    assert(entries[k + 1] == rest[k]);
                },
            },
            _ => {
                assert(entries[0] == entries[0]);
            },
        }
    }
}

/// No error among manifests means none in each; an error is that of one of them.
pub(crate) proof fn lemma_manifests_outcome<T: TableTypes>(
    env: Environment<T>,
    question: Question<T>,
    manifests: Seq<ManifestFile<T>>,
)
    ensures
        match question.manifests_outcome(env, manifests) {
            Ok(_) => forall|j: int|
                0 <= j < manifests.len() ==> question.manifest_outcome(
                    env,
                    #[trigger] manifests[j],
                ) is Ok,
            Err(error) => exists|j: int|
                0 <= j < manifests.len() && question.manifest_outcome(
                    env,
                    #[trigger] manifests[j],
                ) == Err::<(), ErrorView<T>>(error),
        },
    decreases manifests.len(),
{
    if manifests.len() > 0 && question.manifest_outcome(env, manifests[0]) is Ok {
        let rest = manifests.drop_first();
        lemma_manifests_outcome(env, question, rest);
        match question.manifests_outcome(env, rest) {
            Ok(_) => {
                assert forall|j: int| 0 <= j < manifests.len() implies question.manifest_outcome(
                    env,
                    #[trigger] manifests[j],
                ) is Ok by {
                    if j > 0 {
                        assert(rest[j - 1] == manifests[j]);
                    }
                }
            },
            Err(error) => {
                let j = choose|j: int|
                    0 <= j < rest.len() && question.manifest_outcome(env, #[trigger] rest[j])
                        == Err::<(), ErrorView<T>>(error);
                assert(manifests[j + 1] == rest[j]);
            },
        }
    }
}

/// No error among snapshots means none in each; an error is that of one of them.
pub(crate) proof fn lemma_snapshots_outcome<T: TableTypes>(
    env: Environment<T>,
    question: Question<T>,
    snapshots: Seq<Snapshot<T>>,
)
    ensures
        match question.snapshots_outcome(env, snapshots) {
            Ok(_) => forall|i: int|
                0 <= i < snapshots.len() ==> question.snapshot_outcome(
                    env,
                    #[trigger] snapshots[i],
                ) is Ok,
            Err(error) => exists|i: int|
                0 <= i < snapshots.len() && question.snapshot_outcome(
                    env,
                    #[trigger] snapshots[i],
                ) == Err::<(), ErrorView<T>>(error),
        },
    decreases snapshots.len(),
{
    if snapshots.len() > 0 && question.snapshot_outcome(env, snapshots[0]) is Ok {
        let rest = snapshots.drop_first();
        lemma_snapshots_outcome(env, question, rest);
        match question.snapshots_outcome(env, rest) {
            Ok(_) => {
                assert forall|i: int| 0 <= i < snapshots.len() implies question.snapshot_outcome(
                    env,
                    #[trigger] snapshots[i],
                ) is Ok by {
                    if i > 0 {
                        assert(rest[i - 1] == snapshots[i]);
                    }
                }
            },
            Err(error) => {
                let i = choose|i: int|
                    0 <= i < rest.len() && question.snapshot_outcome(env, #[trigger] rest[i])
                        == Err::<(), ErrorView<T>>(error);
                assert(snapshots[i + 1] == rest[i]);
            },
        }
    }
}

/// Where the snapshots come to no error, no manifest that can list their additions does.
pub(crate) proof fn lemma_success_at<T: TableTypes>(
    env: Environment<T>,
    question: Question<T>,
    window: Seq<Snapshot<T>>,
    i: int,
    j: int,
)
    requires
        question.snapshots_outcome(env, window) is Ok,
        question.adds_data_at(env, window, i, j),
    ensures
        question.manifest_outcome(env, question.manifest_at(env, window, i, j)) is Ok,
{
    lemma_snapshots_outcome(env, question, window);
    assert(question.snapshot_outcome(env, window[i]) is Ok);
    let id = window[i].snapshot_id;
    let list = (env.list)(window[i])->Ok_0;
    let listing = |manifest: ManifestFile<T>|
        manifest.content is Data && manifest.added_snapshot_id == id && manifest.has_added_files;
    let manifests = list.filter(listing);
    crate::seqs::lemma_filter_members(list, listing);
    assert(listing(list[j]));
    assert(manifests.contains(list[j]));
    let b = choose|b: int| 0 <= b < manifests.len() && manifests[b] == list[j];
    lemma_manifests_outcome(env, question, manifests);
    assert(question.manifest_outcome(env, manifests[b]) is Ok);
}

/// Where the snapshots come to no error, every added file that is read was judged not to match.
pub(crate) proof fn lemma_success_judges<T: TableTypes>(
    env: Environment<T>,
    question: Question<T>,
    window: Seq<Snapshot<T>>,
    i: int,
    j: int,
    k: int,
)
    requires
        question.snapshots_outcome(env, window) is Ok,
        question.reads_added_file_at(env, window, i, j, k),
    ensures
        question.file_may_match(env, question.entry_at(env, window, i, j, k).data_file) == Ok::<
            bool,
            T::Failure,
        >(false),
{
    lemma_success_at(env, question, window, i, j);
    let all = (env.load)(question.manifest_at(env, window, i, j))->Ok_0.entries;
    let added = |entry: ManifestEntry<T>| entry.status is Added;
    let entries = all.filter(added);
    crate::seqs::lemma_filter_members(all, added);
    assert(added(all[k]));
    assert(entries.contains(all[k]));
    let c = choose|c: int| 0 <= c < entries.len() && entries[c] == all[k];
    lemma_entries_outcome(env, question, entries);
    assert(question.file_may_match(env, entries[c].data_file) == Ok::<bool, T::Failure>(false));
}

/// The check's outcome is no error only where there is no conflict: no snapshot committed since
/// the one read from, whatever its operation, added a data file that may match.
pub proof fn law_success_means_no_conflict<T: TableTypes>(
    env: Environment<T>,
    question: Question<T>,
    window: Seq<Snapshot<T>>,
    i: int,
    j: int,
    k: int,
)
    requires
        question.snapshots_outcome(env, window) is Ok,
    ensures
        !question.conflict_at(env, window, i, j, k),
{
    if question.conflict_at(env, window, i, j, k) {
        lemma_success_judges(env, question, window, i, j, k);
    }
}

/// An error names the file of a conflict where it is of the kind `DataInvalid` or nothing that
/// the check may ask for fails.
proof fn lemma_error_names_conflict<T: TableTypes>(
    env: Environment<T>,
    question: Question<T>,
    window: Seq<Snapshot<T>>,
    error: ErrorView<T>,
)
    requires
        question.snapshots_outcome(env, window) == Err::<(), ErrorView<T>>(error),
        error is Rule && error->Rule_0.kind is DataInvalid || question.all_answered(env, window),
    ensures
        exists|i: int, j: int, k: int| #[trigger]
            question.conflict_at(env, window, i, j, k) && error
                == crate::validate::conflict_error::<T>(
                question.filter_text,
                question.entry_at(env, window, i, j, k).path(),
            ),
{
    lemma_snapshots_outcome(env, question, window);
    let i = choose|i: int|
        0 <= i < window.len() && question.snapshot_outcome(env, #[trigger] window[i]) == Err::<
            (),
            ErrorView<T>,
        >(error);
    assert((env.list)(window[i]) is Ok);

    let id = window[i].snapshot_id;
    let list = (env.list)(window[i])->Ok_0;
    let listing = |manifest: ManifestFile<T>|
        manifest.content is Data && manifest.added_snapshot_id == id && manifest.has_added_files;
    let manifests = list.filter(listing);
    crate::seqs::lemma_filter_members(list, listing);
    lemma_manifests_outcome(env, question, manifests);
    let b = choose|b: int|
        0 <= b < manifests.len() && question.manifest_outcome(env, #[trigger] manifests[b])
            == Err::<(), ErrorView<T>>(error);
    assert(listing(manifests[b]) && list.contains(manifests[b]));
    let j = choose|j: int| 0 <= j < list.len() && list[j] == manifests[b];
    assert(question.adds_data_at(env, window, i, j));
    assert(question.manifest_at(env, window, i, j) == list[j]);
    assert(question.manifest_may_match(env, list[j]) == Ok::<bool, ErrorView<T>>(true));

    let all = (env.load)(list[j])->Ok_0.entries;
    let added = |entry: ManifestEntry<T>| entry.status is Added;
    let entries = all.filter(added);
    crate::seqs::lemma_filter_members(all, added);
    lemma_entries_outcome(env, question, entries);
    let c = choose|c: int|
        {
            &&& 0 <= c < entries.len()
            &&& match question.file_may_match(env, (#[trigger] entries[c]).data_file) {
                Ok(may_match) => may_match && error == crate::validate::conflict_error::<T>(
                    question.filter_text,
                    entries[c].path(),
                ),
                Err(failure) => error == ErrorView::<T>::Outside(failure),
            }
        };
    assert(added(entries[c]) && all.contains(entries[c]));
    let k = choose|k: int| 0 <= k < all.len() && all[k] == entries[c];
    assert(question.reads_added_file_at(env, window, i, j, k));
    assert(question.entry_at(env, window, i, j, k) == all[k]);
    assert(question.file_may_match(env, all[k].data_file) is Ok);
    assert(question.conflict_at(env, window, i, j, k));
}

/// An error of the kind `DataInvalid` names the file of a conflict and is not retryable.
pub proof fn law_refusal_names_a_conflict<T: TableTypes>(
    env: Environment<T>,
    question: Question<T>,
    window: Seq<Snapshot<T>>,
    error: ErrorView<T>,
)
    requires
        question.snapshots_outcome(env, window) == Err::<(), ErrorView<T>>(error),
        error is Rule,
        error->Rule_0.kind is DataInvalid,
    ensures
        !error->Rule_0.retryable,
        exists|i: int, j: int, k: int| #[trigger]
            question.conflict_at(env, window, i, j, k) && error
                == crate::validate::conflict_error::<T>(
                question.filter_text,
                question.entry_at(env, window, i, j, k).path(),
            ),
{
    lemma_error_names_conflict(env, question, window, error);
}

/// Where nothing fails, the check refuses if and only if there is a conflict, and the error
/// names the file of one.
pub proof fn law_conflicts_are_refused<T: TableTypes>(
    env: Environment<T>,
    question: Question<T>,
    window: Seq<Snapshot<T>>,
)
    requires
        question.all_answered(env, window),
    ensures
        question.snapshots_outcome(env, window) is Err <==> (exists|
            i: int,
            j: int,
            k: int,
        | #[trigger]
            question.conflict_at(env, window, i, j, k)),
        question.snapshots_outcome(env, window) matches Err(error) ==> exists|
            i: int,
            j: int,
            k: int,
        | #[trigger]
            question.conflict_at(env, window, i, j, k) && error
                == crate::validate::conflict_error::<T>(
                question.filter_text,
                question.entry_at(env, window, i, j, k).path(),
            ),
{
    let outcome = question.snapshots_outcome(env, window);
    match outcome {
        Ok(_) => {
            assert forall|i: int, j: int, k: int| !#[trigger]
                question.conflict_at(env, window, i, j, k) by {
                law_success_means_no_conflict(env, question, window, i, j, k);
            }
        },
        Err(error) => {
            lemma_error_names_conflict(env, question, window, error);
        },
    }
}

/// A check ends with one outcome only.
pub(crate) proof fn lemma_one_outcome<T: TableTypes>(
    env: Environment<T>,
    state: ConflictCheckView<T>,
    m: nat,
    n: nat,
)
    requires
        env.run(state, m) is Finished,
        env.run(state, n) is Finished,
    ensures
        env.run(state, m) == env.run(state, n),
    decreases m + n,
{
    let next = state.step(env.reply(state));
    if m > 0 && n > 0 {
        lemma_one_outcome(env, next, (m - 1) as nat, (n - 1) as nat);
    } else if m > 0 {
        assert(next == state);
        lemma_one_outcome(env, next, (m - 1) as nat, n);
    } else if n > 0 {
        assert(next == state);
        lemma_one_outcome(env, next, m, (n - 1) as nat);
    }
}

/// Where nothing fails, a check fails if and only if a snapshot committed after the one read
/// from, up to the current one, added a data file that may hold matching rows, whatever the
/// operation of that snapshot; it then fails with an error that names such a file.
pub proof fn law_check_fails_exactly_on_conflicts<T: TableTypes>(
    env: Environment<T>,
    metadata: TableMetadata<T>,
    head_snapshot_id: i64,
    from_snapshot_id: Option<i64>,
    conflict_filter: T::Predicate,
    bound_filter: T::BoundPredicate,
    filter_text: Seq<char>,
)
    requires
        metadata.current_snapshot matches Some(current) && current.snapshot_id == head_snapshot_id,
        from_snapshot_id != Some(head_snapshot_id),
        (env.bind)(conflict_filter, metadata.current_schema, true) == Ok::<
            T::BoundPredicate,
            T::Failure,
        >(bound_filter),
        (Question { metadata, bound_filter, filter_text }).all_answered(
            env,
            (env.ancestors)(metadata, head_snapshot_id, from_snapshot_id),
        ),
    ensures
        ({
            let start = ConflictCheckView::start(
                metadata,
                from_snapshot_id,
                conflict_filter,
                filter_text,
            );
            let question = Question { metadata, bound_filter, filter_text };
            let window = (env.ancestors)(metadata, head_snapshot_id, from_snapshot_id);
            &&& env.ends_with(start, Ok(())) <==> !(exists|i: int, j: int, k: int| #[trigger]
                question.conflict_at(env, window, i, j, k))
            &&& !env.ends_with(start, Ok(())) ==> exists|i: int, j: int, k: int| #[trigger]
                question.conflict_at(env, window, i, j, k) && env.ends_with(
                    start,
                    Err(
                        crate::validate::conflict_error::<T>(
                            filter_text,
                            question.entry_at(env, window, i, j, k).path(),
                        ),
                    ),
                )
        }),
{
    let start = ConflictCheckView::start(
        metadata,
        from_snapshot_id,
        conflict_filter,
        filter_text,
    );
    let question = Question { metadata, bound_filter, filter_text };
    let window = (env.ancestors)(metadata, head_snapshot_id, from_snapshot_id);
    let outcome = env.outcome(metadata, from_snapshot_id, conflict_filter, filter_text);
    law_check_reaches_outcome(env, metadata, from_snapshot_id, conflict_filter, filter_text);
    law_conflicts_are_refused(env, question, window);
    assert(outcome == question.snapshots_outcome(env, window));
    let n = choose|n: nat| #[trigger]
        env.run(start, n) == ConflictCheckView::Finished(outcome);
    if outcome is Err && env.ends_with(start, Ok(())) {
        let m = choose|m: nat| #[trigger]
            env.run(start, m) == ConflictCheckView::<T>::Finished(Ok(()));
        lemma_one_outcome(env, start, m, n);
    }
    match outcome {
        Ok(nothing) => {
            assert(nothing == ());
        },
        Err(_) => {},
    }
}

impl<T: TableTypes> Question<T> {
    /// Whether the filter rules out no more than that of `narrow`: it is never found not to match
    /// a manifest or a file that the other may match.
    pub open spec fn is_wider_than(self, narrow: Question<T>, env: Environment<T>) -> bool {
        &&& forall|manifest: ManifestFile<T>| #[trigger]
            narrow.manifest_may_match(env, manifest) == Ok::<bool, ErrorView<T>>(true)
                ==> self.manifest_may_match(env, manifest) != Ok::<bool, ErrorView<T>>(false)
        &&& forall|file: DataFile<T>| #[trigger]
            narrow.file_may_match(env, file) == Ok::<bool, T::Failure>(true)
                ==> self.file_may_match(env, file) != Ok::<bool, T::Failure>(false)
    }
}

/// Widening the conflict filter hides no conflict: where snapshots are refused for a conflict
/// under one filter, they are refused under every wider one.
pub proof fn law_wider_filter_hides_no_conflict<T: TableTypes>(
    env: Environment<T>,
    narrow: Question<T>,
    wide: Question<T>,
    window: Seq<Snapshot<T>>,
    error: ErrorView<T>,
)
    requires
        wide.is_wider_than(narrow, env),
        narrow.snapshots_outcome(env, window) == Err::<(), ErrorView<T>>(error),
        error is Rule,
        error->Rule_0.kind is DataInvalid,
    ensures
        wide.snapshots_outcome(env, window) is Err,
{
    lemma_error_names_conflict(env, narrow, window, error);
    let (i, j, k) = choose|i: int, j: int, k: int| #[trigger]
        narrow.conflict_at(env, window, i, j, k) && error == crate::validate::conflict_error::<T>(
            narrow.filter_text,
            narrow.entry_at(env, window, i, j, k).path(),
        );
    if wide.snapshots_outcome(env, window) is Ok {
        let manifest = narrow.manifest_at(env, window, i, j);
        assert(narrow.adds_data_at(env, window, i, j));
        assert(wide.adds_data_at(env, window, i, j));
        lemma_success_at(env, wide, window, i, j);
        assert(narrow.manifest_may_match(env, manifest) == Ok::<bool, ErrorView<T>>(true));
        assert(wide.manifest_may_match(env, manifest) == Ok::<bool, ErrorView<T>>(true));
        assert(wide.reads_added_file_at(env, window, i, j, k));
        lemma_success_judges(env, wide, window, i, j, k);
        assert(narrow.file_may_match(env, narrow.entry_at(env, window, i, j, k).data_file) == Ok::<
            bool,
            T::Failure,
        >(true));
    }
}

/// A check that ends with a conflict does not end well under a wider filter: it ends with an
/// error.
pub proof fn law_wider_check_fails_too<T: TableTypes>(
    env: Environment<T>,
    metadata: TableMetadata<T>,
    from_snapshot_id: Option<i64>,
    narrow: T::Predicate,
    narrow_text: Seq<char>,
    wide: T::Predicate,
    wide_text: Seq<char>,
    error: ErrorView<T>,
)
    requires
        forall|narrow_bound: T::BoundPredicate, wide_bound: T::BoundPredicate|
            {
                &&& (env.bind)(narrow, metadata.current_schema, true) == Ok::<
                    T::BoundPredicate,
                    T::Failure,
                >(narrow_bound)
                &&& (env.bind)(wide, metadata.current_schema, true) == Ok::<
                    T::BoundPredicate,
                    T::Failure,
                >(wide_bound)
            } ==> #[trigger] (Question {
                metadata,
                bound_filter: wide_bound,
                filter_text: wide_text,
            }).is_wider_than(
                (Question { metadata, bound_filter: narrow_bound, filter_text: narrow_text }),
                env,
            ),
        env.ends_with(
            ConflictCheckView::start(metadata, from_snapshot_id, narrow, narrow_text),
            Err(error),
        ),
        error is Rule,
        error->Rule_0.kind is DataInvalid,
    ensures
        env.outcome(metadata, from_snapshot_id, wide, wide_text) is Err,
        env.ends_with(
            ConflictCheckView::start(metadata, from_snapshot_id, wide, wide_text),
            env.outcome(metadata, from_snapshot_id, wide, wide_text),
        ),
        !env.ends_with(
            ConflictCheckView::start(metadata, from_snapshot_id, wide, wide_text),
            Ok(()),
        ),
{
    let narrow_start = ConflictCheckView::start(metadata, from_snapshot_id, narrow, narrow_text);
    let narrow_outcome = env.outcome(metadata, from_snapshot_id, narrow, narrow_text);
    law_check_reaches_outcome(env, metadata, from_snapshot_id, narrow, narrow_text);
    let m = choose|m: nat| #[trigger]
        env.run(narrow_start, m) == ConflictCheckView::<T>::Finished(Err(error));
    let n = choose|n: nat| #[trigger]
        env.run(narrow_start, n) == ConflictCheckView::Finished(narrow_outcome);
    lemma_one_outcome(env, narrow_start, m, n);
    assert(narrow_outcome == Err::<(), ErrorView<T>>(error));

    let start = ConflictCheckView::start(metadata, from_snapshot_id, wide, wide_text);
    let outcome = env.outcome(metadata, from_snapshot_id, wide, wide_text);
    let narrow_bound = (env.bind)(narrow, metadata.current_schema, true)->Ok_0;
    match (env.bind)(wide, metadata.current_schema, true) {
        Err(_) => {},
        Ok(wide_bound) => {
            let narrow_question = Question {
                metadata,
                bound_filter: narrow_bound,
                filter_text: narrow_text,
            };
            let wide_question = Question {
                metadata,
                bound_filter: wide_bound,
                filter_text: wide_text,
            };
            assert(wide_question.is_wider_than(narrow_question, env));
            let head = metadata.current_snapshot->Some_0.snapshot_id;
            let window = (env.ancestors)(metadata, head, from_snapshot_id);
            law_wider_filter_hides_no_conflict(
                env,
                narrow_question,
                wide_question,
                window,
                error,
            );
        },
    }
    law_check_reaches_outcome(env, metadata, from_snapshot_id, wide, wide_text);
    if env.ends_with(start, Ok(())) {
        let a = choose|a: nat| #[trigger]
            env.run(start, a) == ConflictCheckView::<T>::Finished(Ok(()));
        let b = choose|b: nat| #[trigger] env.run(start, b) == ConflictCheckView::Finished(outcome);
        lemma_one_outcome(env, start, a, b);
    }
}

/// Snapshots that are free of conflicts stay so when only the newest `n` of them are looked at.
pub proof fn law_shorter_window_is_free_too<T: TableTypes>(
    env: Environment<T>,
    question: Question<T>,
    window: Seq<Snapshot<T>>,
    n: int,
)
    requires
        0 <= n <= window.len(),
        question.snapshots_outcome(env, window) == Ok::<(), ErrorView<T>>(()),
    ensures
        question.snapshots_outcome(env, window.take(n)) == Ok::<(), ErrorView<T>>(()),
{
    lemma_snapshots_outcome(env, question, window);
    lemma_snapshots_outcome(env, question, window.take(n));
    match question.snapshots_outcome(env, window.take(n)) {
        Ok(nothing) => {
            assert(nothing == ());
        },
        Err(error) => {
            let i = choose|i: int|
                0 <= i < n && question.snapshot_outcome(env, #[trigger] window.take(n)[i])
                    == Err::<(), ErrorView<T>>(error);
            assert(window.take(n)[i] == window[i]);
        },
    }
}

/// A check that passes from one starting snapshot passes from every later one: where the window
/// of the later start holds the newest snapshots of the earlier one's, up to as few as none, the
/// check ends well over it too.
pub proof fn law_later_start_passes_too<T: TableTypes>(
    env: Environment<T>,
    metadata: TableMetadata<T>,
    earlier: Option<i64>,
    later: Option<i64>,
    conflict_filter: T::Predicate,
    filter_text: Seq<char>,
    n: int,
)
    requires
        metadata.current_snapshot matches Some(current) ==> later == Some(current.snapshot_id) || {
            &&& earlier != Some(current.snapshot_id)
            &&& 0 <= n <= (env.ancestors)(metadata, current.snapshot_id, earlier).len()
            &&& (env.ancestors)(metadata, current.snapshot_id, later) == (env.ancestors)(
                metadata,
                current.snapshot_id,
                earlier,
            ).take(n)
        },
        env.ends_with(
            ConflictCheckView::start(metadata, earlier, conflict_filter, filter_text),
            Ok(()),
        ),
    ensures
        env.ends_with(
            ConflictCheckView::start(metadata, later, conflict_filter, filter_text),
            Ok(()),
        ),
{
    let earlier_start = ConflictCheckView::start(metadata, earlier, conflict_filter, filter_text);
    let earlier_outcome = env.outcome(metadata, earlier, conflict_filter, filter_text);
    law_check_reaches_outcome(env, metadata, earlier, conflict_filter, filter_text);
    law_check_reaches_outcome(env, metadata, later, conflict_filter, filter_text);
    let a = choose|a: nat| #[trigger]
        env.run(earlier_start, a) == ConflictCheckView::<T>::Finished(Ok(()));
    let b = choose|b: nat| #[trigger]
        env.run(earlier_start, b) == ConflictCheckView::Finished(earlier_outcome);
    lemma_one_outcome(env, earlier_start, a, b);
    assert(earlier_outcome == Ok::<(), ErrorView<T>>(()));
    if metadata.current_snapshot is Some && later != Some(
        metadata.current_snapshot->Some_0.snapshot_id,
    ) {
        let head = metadata.current_snapshot->Some_0.snapshot_id;
        let window = (env.ancestors)(metadata, head, earlier);
        let question = Question {
            metadata,
            bound_filter: (env.bind)(conflict_filter, metadata.current_schema, true)->Ok_0,
            filter_text,
        };
        law_shorter_window_is_free_too(env, question, window, n);
    }
}

} // verus!
