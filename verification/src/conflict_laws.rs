//! Which snapshots, manifests and files decide the conflict check.

use vstd::prelude::*;

use crate::error::{ErrorKind, ErrorView, RuleErrorView};
use crate::model::{ManifestEntry, ManifestFile, Snapshot, TableMetadata, TableTypes};
use crate::partition_filter::PartitionFilterBuildView;
use crate::validate::ConflictCheckView;
use crate::validate_laws::{Environment, Question};

verus! {

impl<T: TableTypes> Environment<T> {
    /// Whether the list of snapshot `i` holds at place `j` a data manifest that the snapshot wrote
    /// and that has added files.
    pub open spec fn own_additions_at(self, window: Seq<Snapshot<T>>, i: int, j: int) -> bool {
        &&& 0 <= i < window.len()
        &&& (self.list)(window[i]) matches Ok(list)
        &&& 0 <= j < list.len()
        &&& list[j].content is Data
        &&& list[j].added_snapshot_id == window[i].snapshot_id
        &&& list[j].has_added_files
    }

    /// What is found of the partition summaries of a manifest, if it gets so far.
    pub open spec fn summaries_say(
        self,
        metadata: TableMetadata<T>,
        bound_filter: T::BoundPredicate,
        manifest: ManifestFile<T>,
        found: Result<bool, T::Failure>,
    ) -> bool {
        let spec = metadata.partition_specs@[manifest.partition_spec_id];
        &&& metadata.partition_specs@.contains_key(manifest.partition_spec_id)
        &&& (self.partition_type)(spec, metadata.current_schema) matches Ok(fields)
        &&& (self.build_schema)(spec.spec_id, fields) matches Ok(partition_schema)
        &&& (self.project)(spec, bound_filter) matches Ok(projected)
        &&& (self.bind)((self.rewrite_not)(projected), partition_schema, true) matches Ok(
            partition_filter,
        )
        &&& (self.match_manifest)((self.new_evaluator)(partition_filter), manifest) == found
    }

    /// What is found of the metrics of entry `k` of a manifest, where the manifest gets read and
    /// the entry is an added file.
    pub open spec fn metrics_say(
        self,
        metadata: TableMetadata<T>,
        bound_filter: T::BoundPredicate,
        manifest: ManifestFile<T>,
        k: int,
        found: Result<bool, T::Failure>,
    ) -> bool {
        &&& self.summaries_say(metadata, bound_filter, manifest, Ok(true))
        &&& (self.load)(manifest) matches Ok(contents)
        &&& 0 <= k < contents.entries.len()
        &&& contents.entries[k].status is Added
        &&& (self.match_file)(bound_filter, contents.entries[k].data_file, false) == found
    }

    /// Whether entry `k` of manifest `j` in the list of snapshot `i` is a data file that the
    /// snapshot added and that neither summaries nor metrics rule out.
    pub open spec fn added_match_at(
        self,
        metadata: TableMetadata<T>,
        bound_filter: T::BoundPredicate,
        window: Seq<Snapshot<T>>,
        i: int,
        j: int,
        k: int,
    ) -> bool {
        &&& self.own_additions_at(window, i, j)
        &&& self.metrics_say(
            metadata,
            bound_filter,
            (self.list)(window[i])->Ok_0[j],
            k,
            Ok(true),
        )
    }

    /// Whether a manifest gives rise to `error`: its partition spec is missing, a step on the way
    /// to one of its files fails, or one of its added files may match.
    pub open spec fn manifest_gives(
        self,
        metadata: TableMetadata<T>,
        bound_filter: T::BoundPredicate,
        filter_text: Seq<char>,
        manifest: ManifestFile<T>,
        error: ErrorView<T>,
    ) -> bool {
        let spec_id = manifest.partition_spec_id;
        let spec = metadata.partition_specs@[spec_id];
        if !metadata.partition_specs@.contains_key(spec_id) {
            error == ErrorView::<T>::Rule(
                RuleErrorView {
                    kind: ErrorKind::Unexpected,
                    message: "Could not find partition spec for id "@ + crate::text::decimal(
                        spec_id as int,
                    ),
                    retryable: false,
                },
            )
        } else {
            match (self.partition_type)(spec, metadata.current_schema) {
                Err(failure) => error == ErrorView::<T>::Outside(failure),
                Ok(fields) => match (self.build_schema)(spec.spec_id, fields) {
                    Err(failure) => error == ErrorView::<T>::Outside(failure),
                    Ok(partition_schema) => match (self.project)(spec, bound_filter) {
                        Err(failure) => error == ErrorView::<T>::Outside(failure),
                        Ok(projected) => match (self.bind)(
                            (self.rewrite_not)(projected),
                            partition_schema,
                            true,
                        ) {
                            Err(failure) => error == ErrorView::<T>::Outside(failure),
                            Ok(partition_filter) => self.matching_gives(
                                bound_filter,
                                filter_text,
                                manifest,
                                (self.new_evaluator)(partition_filter),
                                error,
                            ),
                        },
                    },
                },
            }
        }
    }

    /// Whether judging a manifest by `evaluator`, reading it and judging its added files gives
    /// rise to `error`.
    pub open spec fn matching_gives(
        self,
        bound_filter: T::BoundPredicate,
        filter_text: Seq<char>,
        manifest: ManifestFile<T>,
        evaluator: T::Evaluator,
        error: ErrorView<T>,
    ) -> bool {
        match (self.match_manifest)(evaluator, manifest) {
            Err(failure) => error == ErrorView::<T>::Outside(failure),
            Ok(false) => false,
            Ok(true) => match (self.load)(manifest) {
                Err(failure) => error == ErrorView::<T>::Outside(failure),
                Ok(contents) => exists|k: int|
                    {
                        &&& 0 <= k < contents.entries.len()
                        &&& (#[trigger] contents.entries[k]).status is Added
                        &&& match (self.match_file)(
                            bound_filter,
                            contents.entries[k].data_file,
                            false,
                        ) {
                            Err(failure) => error == ErrorView::<T>::Outside(failure),
                            Ok(false) => false,
                            Ok(true) => error == ErrorView::<T>::Rule(
                                RuleErrorView {
                                    kind: ErrorKind::DataInvalid,
                                    message:
                                        "Found conflicting files that can contain records matching "@
                                        + filter_text + ": "@
                                        + contents.entries[k].data_file.file_path@,
                                    retryable: false,
                                },
                            ),
                        }
                    },
            },
        }
    }
}

/// A table without a snapshot has nothing to conflict with, and neither has one whose current
/// snapshot is the one read from: the check ends well at once. In every other case it first has
/// the filter bound to the table's schema, with case told apart, and then asks for the snapshots
/// from the current one back to the one read from, whatever their ids are.
pub proof fn law_only_an_unmoved_head_needs_no_check<T: TableTypes>(
    env: Environment<T>,
    metadata: TableMetadata<T>,
    from_snapshot_id: Option<i64>,
    conflict_filter: T::Predicate,
    filter_text: Seq<char>,
)
    ensures
        ({
            let start = ConflictCheckView::start(
                metadata,
                from_snapshot_id,
                conflict_filter,
                filter_text,
            );
            match metadata.current_snapshot {
                None => start == ConflictCheckView::<T>::Finished(Ok(())),
                Some(current) => if from_snapshot_id == Some(current.snapshot_id) {
                    start == ConflictCheckView::<T>::Finished(Ok(()))
                } else {
                    &&& start == ConflictCheckView::<T>::BindFilter {
                        metadata,
                        head_snapshot_id: current.snapshot_id,
                        from_snapshot_id,
                        conflict_filter,
                        filter_text,
                        case_sensitive: true,
                    }
                    &&& env.run(start, 1) == match (env.bind)(
                        conflict_filter,
                        metadata.current_schema,
                        true,
                    ) {
                        Ok(bound_filter) => ConflictCheckView::<T>::FindAncestors {
                            metadata,
                            head_snapshot_id: current.snapshot_id,
                            from_snapshot_id,
                            filter_text,
                            bound_filter,
                        },
                        Err(failure) => ConflictCheckView::<T>::Finished(
                            Err(ErrorView::Outside(failure)),
                        ),
                    }
                },
            }
        }),
{
    reveal_with_fuel(Environment::run, 2);
}

proof fn lemma_ends_only_with_outcome<T: TableTypes>(
    env: Environment<T>,
    metadata: TableMetadata<T>,
    from_snapshot_id: Option<i64>,
    conflict_filter: T::Predicate,
    filter_text: Seq<char>,
    end: Result<(), ErrorView<T>>,
)
    requires
        env.ends_with(
            ConflictCheckView::start(metadata, from_snapshot_id, conflict_filter, filter_text),
            end,
        ),
    ensures
        end == env.outcome(metadata, from_snapshot_id, conflict_filter, filter_text),
{
    let start = ConflictCheckView::start(metadata, from_snapshot_id, conflict_filter, filter_text);
    let outcome = env.outcome(metadata, from_snapshot_id, conflict_filter, filter_text);
    crate::validate_laws::law_check_reaches_outcome(
        env,
        metadata,
        from_snapshot_id,
        conflict_filter,
        filter_text,
    );
    let m = choose|m: nat| #[trigger] env.run(start, m) == ConflictCheckView::Finished(end);
    let n = choose|n: nat| #[trigger] env.run(start, n) == ConflictCheckView::Finished(outcome);
    crate::validate_laws::lemma_one_outcome(env, start, m, n);
}

/// A snapshot committed after the one read from, up to the current one, that added a data file
/// which may match makes the check fail. It does so whatever the operation of the snapshot is and
/// whatever else its manifest list says of the manifest than that it is a data manifest which the
/// snapshot wrote and which has added files.
pub proof fn law_added_match_is_refused<T: TableTypes>(
    env: Environment<T>,
    metadata: TableMetadata<T>,
    current: Snapshot<T>,
    from_snapshot_id: Option<i64>,
    conflict_filter: T::Predicate,
    filter_text: Seq<char>,
    bound_filter: T::BoundPredicate,
    i: int,
    j: int,
    k: int,
)
    requires
        metadata.current_snapshot == Some(current),
        from_snapshot_id != Some(current.snapshot_id),
        (env.bind)(conflict_filter, metadata.current_schema, true) == Ok::<
            T::BoundPredicate,
            T::Failure,
        >(bound_filter),
        env.added_match_at(
            metadata,
            bound_filter,
            (env.ancestors)(metadata, current.snapshot_id, from_snapshot_id),
            i,
            j,
            k,
        ),
    ensures
        !env.ends_with(
            ConflictCheckView::start(metadata, from_snapshot_id, conflict_filter, filter_text),
            Ok(()),
        ),
        exists|error: ErrorView<T>| #[trigger]
            env.ends_with(
                ConflictCheckView::start(metadata, from_snapshot_id, conflict_filter, filter_text),
                Err(error),
            ),
{
    let window = (env.ancestors)(metadata, current.snapshot_id, from_snapshot_id);
    let start = ConflictCheckView::start(metadata, from_snapshot_id, conflict_filter, filter_text);
    let question = Question { metadata, bound_filter, filter_text };
    let outcome = env.outcome(metadata, from_snapshot_id, conflict_filter, filter_text);
    assert(question.adds_data_at(env, window, i, j));
    assert(question.reads_added_file_at(env, window, i, j, k));
    assert(question.conflict_at(env, window, i, j, k));
    if outcome is Ok {
        crate::validate_laws::law_success_means_no_conflict(env, question, window, i, j, k);
    }
    crate::validate_laws::law_check_reaches_outcome(
        env,
        metadata,
        from_snapshot_id,
        conflict_filter,
        filter_text,
    );
    assert(env.ends_with(start, Err(outcome->Err_0)));
    if env.ends_with(start, Ok(())) {
        lemma_ends_only_with_outcome(
            env,
            metadata,
            from_snapshot_id,
            conflict_filter,
            filter_text,
            Ok(()),
        );
    }
}

/// A check that ends well has judged everything: the filter could be bound, the list of every
/// snapshot could be read, and every data manifest that such a snapshot wrote and that has added
/// files was judged by its summaries and, where these leave room, read and each of its added
/// files found not to match.
pub proof fn law_pass_means_all_was_judged<T: TableTypes>(
    env: Environment<T>,
    metadata: TableMetadata<T>,
    current: Snapshot<T>,
    from_snapshot_id: Option<i64>,
    conflict_filter: T::Predicate,
    filter_text: Seq<char>,
)
    requires
        metadata.current_snapshot == Some(current),
        from_snapshot_id != Some(current.snapshot_id),
        env.ends_with(
            ConflictCheckView::start(metadata, from_snapshot_id, conflict_filter, filter_text),
            Ok(()),
        ),
    ensures
        (env.bind)(conflict_filter, metadata.current_schema, true) matches Ok(bound_filter) && {
            let window = (env.ancestors)(metadata, current.snapshot_id, from_snapshot_id);
            &&& forall|i: int| 0 <= i < window.len() ==> (env.list)(#[trigger] window[i]) is Ok
            &&& forall|i: int, j: int| #[trigger]
                env.own_additions_at(window, i, j) ==> {
                    let manifest = (env.list)(window[i])->Ok_0[j];
                    ||| env.summaries_say(metadata, bound_filter, manifest, Ok(false))
                    ||| {
                        &&& env.summaries_say(metadata, bound_filter, manifest, Ok(true))
                        &&& (env.load)(manifest) matches Ok(contents)
                        &&& forall|k: int|
                            0 <= k < contents.entries.len() && (
                            #[trigger] contents.entries[k]).status is Added ==> (env.match_file)(
                                bound_filter,
                                contents.entries[k].data_file,
                                false,
                            ) == Ok::<bool, T::Failure>(false)
                    }
                }
        },
{
    lemma_ends_only_with_outcome(
        env,
        metadata,
        from_snapshot_id,
        conflict_filter,
        filter_text,
        Ok(()),
    );
    let bound_filter = (env.bind)(conflict_filter, metadata.current_schema, true)->Ok_0;
    let window = (env.ancestors)(metadata, current.snapshot_id, from_snapshot_id);
    let question = Question { metadata, bound_filter, filter_text };
    crate::validate_laws::lemma_snapshots_outcome(env, question, window);
    assert forall|i: int| 0 <= i < window.len() implies (env.list)(#[trigger] window[i]) is Ok by {
        assert(question.snapshot_outcome(env, window[i]) is Ok);
    }
    assert forall|i: int, j: int| #[trigger] env.own_additions_at(window, i, j) implies {
        let manifest = (env.list)(window[i])->Ok_0[j];
        ||| env.summaries_say(metadata, bound_filter, manifest, Ok(false))
        ||| {
            &&& env.summaries_say(metadata, bound_filter, manifest, Ok(true))
            &&& (env.load)(manifest) matches Ok(contents)
            &&& forall|k: int|
                0 <= k < contents.entries.len() && (#[trigger] contents.entries[k]).status is Added
                    ==> (env.match_file)(bound_filter, contents.entries[k].data_file, false)
                    == Ok::<bool, T::Failure>(false)
        }
    } by {
        assert(question.adds_data_at(env, window, i, j));
        crate::validate_laws::lemma_success_at(env, question, window, i, j);
        let manifest = (env.list)(window[i])->Ok_0[j];
        assert(question.manifest_may_match(env, manifest) is Ok);
        if question.manifest_may_match(env, manifest)->Ok_0 {
            assert(env.summaries_say(metadata, bound_filter, manifest, Ok(true)));
            let contents = (env.load)(manifest)->Ok_0;
            assert forall|k: int|
                0 <= k < contents.entries.len() && (
                #[trigger] contents.entries[k]).status is Added implies (env.match_file)(
                bound_filter,
                contents.entries[k].data_file,
                false,
            ) == Ok::<bool, T::Failure>(false) by {
                assert(question.reads_added_file_at(env, window, i, j, k));
                crate::validate_laws::lemma_success_judges(env, question, window, i, j, k);
            }
        }
    }
}

/// A check that fails has its reason: binding the filter failed, the list of a snapshot could not
/// be read, or a data manifest that a snapshot wrote and that has added files gives rise to the
/// error. A failure is passed on as it came; an added file that may match is named, with the
/// filter, by an error of the kind `DataInvalid` that is not retryable.
pub proof fn law_every_error_has_its_reason<T: TableTypes>(
    env: Environment<T>,
    metadata: TableMetadata<T>,
    from_snapshot_id: Option<i64>,
    conflict_filter: T::Predicate,
    filter_text: Seq<char>,
    error: ErrorView<T>,
)
    requires
        env.ends_with(
            ConflictCheckView::start(metadata, from_snapshot_id, conflict_filter, filter_text),
            Err(error),
        ),
    ensures
        metadata.current_snapshot matches Some(current) && from_snapshot_id != Some(
            current.snapshot_id,
        ) && match (env.bind)(conflict_filter, metadata.current_schema, true) {
            Err(failure) => error == ErrorView::<T>::Outside(failure),
            Ok(bound_filter) => {
                let window = (env.ancestors)(metadata, current.snapshot_id, from_snapshot_id);
                ||| exists|i: int|
                    0 <= i < window.len() && (env.list)(#[trigger] window[i]) is Err && error
                        == ErrorView::<T>::Outside((env.list)(window[i])->Err_0)
                ||| exists|i: int, j: int| #[trigger]
                    env.own_additions_at(window, i, j) && env.manifest_gives(
                        metadata,
                        bound_filter,
                        filter_text,
                        (env.list)(window[i])->Ok_0[j],
                        error,
                    )
            },
        },
{
    lemma_ends_only_with_outcome(
        env,
        metadata,
        from_snapshot_id,
        conflict_filter,
        filter_text,
        Err(error),
    );
    let current = metadata.current_snapshot->Some_0;
    match (env.bind)(conflict_filter, metadata.current_schema, true) {
        Err(_) => {},
        Ok(bound_filter) => {
            let window = (env.ancestors)(metadata, current.snapshot_id, from_snapshot_id);
            let question = Question { metadata, bound_filter, filter_text };
            crate::validate_laws::lemma_snapshots_outcome(env, question, window);
            let i = choose|i: int|
                0 <= i < window.len() && question.snapshot_outcome(env, #[trigger] window[i])
                    == Err::<(), ErrorView<T>>(error);
            match (env.list)(window[i]) {
                Err(_) => {},
                Ok(list) => {
                    let id = window[i].snapshot_id;
                    let own = |manifest: ManifestFile<T>|
                        manifest.content is Data && manifest.added_snapshot_id == id
                            && manifest.has_added_files;
                    let manifests = list.filter(own);
                    crate::seqs::lemma_filter_members(list, own);
                    crate::validate_laws::lemma_manifests_outcome(env, question, manifests);
                    let b = choose|b: int|
                        0 <= b < manifests.len() && question.manifest_outcome(
                            env,
                            #[trigger] manifests[b],
                        ) == Err::<(), ErrorView<T>>(error);
                    assert(own(manifests[b]) && list.contains(manifests[b]));
                    let j = choose|j: int| 0 <= j < list.len() && list[j] == manifests[b];
                    assert(env.own_additions_at(window, i, j));
                    lemma_manifest_gives(env, question, list[j], error);
                },
            }
        },
    }
}

/// A check passes where there is nothing to refuse: the filter can be bound, the lists can be read,
/// and every data manifest that a snapshot wrote and that has added files is ruled out by its
/// summaries, or can be read and each of its added files is ruled out by its metrics.
pub proof fn law_check_without_match_passes<T: TableTypes>(
    env: Environment<T>,
    metadata: TableMetadata<T>,
    current: Snapshot<T>,
    from_snapshot_id: Option<i64>,
    conflict_filter: T::Predicate,
    filter_text: Seq<char>,
    bound_filter: T::BoundPredicate,
)
    requires
        metadata.current_snapshot == Some(current),
        (env.bind)(conflict_filter, metadata.current_schema, true) == Ok::<
            T::BoundPredicate,
            T::Failure,
        >(bound_filter),
        ({
            let window = (env.ancestors)(metadata, current.snapshot_id, from_snapshot_id);
            &&& forall|i: int| 0 <= i < window.len() ==> (env.list)(#[trigger] window[i]) is Ok
            &&& forall|i: int, j: int| #[trigger]
                env.own_additions_at(window, i, j) ==> {
                    let manifest = (env.list)(window[i])->Ok_0[j];
                    ||| env.summaries_say(metadata, bound_filter, manifest, Ok(false))
                    ||| {
                        &&& env.summaries_say(metadata, bound_filter, manifest, Ok(true))
                        &&& (env.load)(manifest) matches Ok(contents)
                        &&& forall|k: int|
                            0 <= k < contents.entries.len() && (
                            #[trigger] contents.entries[k]).status is Added ==> (env.match_file)(
                                bound_filter,
                                contents.entries[k].data_file,
                                false,
                            ) == Ok::<bool, T::Failure>(false)
                    }
                }
        }),
    ensures
        env.ends_with(
            ConflictCheckView::start(metadata, from_snapshot_id, conflict_filter, filter_text),
            Ok(()),
        ),
{
    let outcome = env.outcome(metadata, from_snapshot_id, conflict_filter, filter_text);
    crate::validate_laws::law_check_reaches_outcome(
        env,
        metadata,
        from_snapshot_id,
        conflict_filter,
        filter_text,
    );
    match outcome {
        Ok(nothing) => {
            assert(nothing == ());
        },
        Err(error) => {
            law_every_error_has_its_reason(
                env,
                metadata,
                from_snapshot_id,
                conflict_filter,
                filter_text,
                error,
            );
            let window = (env.ancestors)(metadata, current.snapshot_id, from_snapshot_id);
            let (i, j) = choose|i: int, j: int| #[trigger]
                env.own_additions_at(window, i, j) && env.manifest_gives(
                    metadata,
                    bound_filter,
                    filter_text,
                    (env.list)(window[i])->Ok_0[j],
                    error,
                );
            assert(env.own_additions_at(window, i, j));
        },
    }
}

proof fn lemma_manifest_gives<T: TableTypes>(
    env: Environment<T>,
    question: Question<T>,
    manifest: ManifestFile<T>,
    error: ErrorView<T>,
)
    requires
        question.manifest_outcome(env, manifest) == Err::<(), ErrorView<T>>(error),
    ensures
        env.manifest_gives(
            question.metadata,
            question.bound_filter,
            question.filter_text,
            manifest,
            error,
        ),
{
    if question.manifest_may_match(env, manifest) == Ok::<bool, ErrorView<T>>(true) && (env.load)(
        manifest,
    ) is Ok {
        let all = (env.load)(manifest)->Ok_0.entries;
        let added = |entry: ManifestEntry<T>| entry.status is Added;
        let entries = all.filter(added);
        crate::seqs::lemma_filter_members(all, added);
        crate::validate_laws::lemma_entries_outcome(env, question, entries);
        let c = choose|c: int|
            {
                &&& 0 <= c < entries.len()
                &&& match question.file_may_match(env, (#[trigger] entries[c]).data_file) {
                    Ok(may_match) => may_match && error == crate::validate::conflict_error::<T>(
                        question.filter_text,
                        entries[c].path(),
                    ),
                    Err(failure) => error == ErrorView::<T>::Outside(failure),
                }
            };
        assert(added(entries[c]) && all.contains(entries[c]));
        let k = choose|k: int| 0 <= k < all.len() && all[k] == entries[c];
        assert(all[k].status is Added);
    }
}

/// The work on a partition filter goes through its steps in order, each with what the ones before
/// gave, and gives the row filter back: the fields of the partition type of the table's spec under
/// the schema, a schema of these fields with the id of the spec, the projection of the row filter
/// onto the spec, its negations pushed down, and this bound to the partition schema with case told
/// apart. A spec that the table lacks is named by an error of the kind `Unexpected`; the first
/// step that fails ends the work with its failure.
pub proof fn law_partition_filter_goes_through_its_steps<T: TableTypes>(
    env: Environment<T>,
    metadata: TableMetadata<T>,
    spec_id: i32,
    schema: T::Schema,
    bound_filter: T::BoundPredicate,
)
    ensures
        ({
            let end = env.run_filter(
                PartitionFilterBuildView::start(metadata, spec_id, schema, bound_filter),
                5,
            );
            let spec = metadata.partition_specs@[spec_id];
            &&& end is Finished
            &&& end->Finished_bound_filter == bound_filter
            &&& if !metadata.partition_specs@.contains_key(spec_id) {
                end->result == Err::<T::BoundPredicate, ErrorView<T>>(
                    ErrorView::Rule(
                        RuleErrorView {
                            kind: ErrorKind::Unexpected,
                            message: "Could not find partition spec for id "@
                                + crate::text::decimal(spec_id as int),
                            retryable: false,
                        },
                    ),
                )
            } else {
                match (env.partition_type)(spec, schema) {
                    Err(failure) => end->result == Err::<T::BoundPredicate, ErrorView<T>>(
                        ErrorView::Outside(failure),
                    ),
                    Ok(fields) => match (env.build_schema)(spec.spec_id, fields) {
                        Err(failure) => end->result == Err::<T::BoundPredicate, ErrorView<T>>(
                            ErrorView::Outside(failure),
                        ),
                        Ok(partition_schema) => match (env.project)(spec, bound_filter) {
                            Err(failure) => end->result == Err::<T::BoundPredicate, ErrorView<T>>(
                                ErrorView::Outside(failure),
                            ),
                            Ok(projected) => match (env.bind)(
                                (env.rewrite_not)(projected),
                                partition_schema,
                                true,
                            ) {
                                Err(failure) => end->result == Err::<
                                    T::BoundPredicate,
                                    ErrorView<T>,
                                >(ErrorView::Outside(failure)),
                                Ok(filter) => end->result == Ok::<T::BoundPredicate, ErrorView<T>>(
                                    filter,
                                ),
                            },
                        },
                    },
                }
            }
        }),
{
    reveal_with_fuel(Environment::run_filter, 6);
}

} // verus!
