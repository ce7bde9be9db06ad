//! What each step of the conflict check leads to.
//!
//! A law here speaks of one call: it takes the arguments and the result of a call that was made,
//! and says how the one follows from the other.

use vstd::prelude::*;

use crate::error::{Error, ErrorKind};
use crate::model::{
    Manifest, ManifestEntry, ManifestFile, Snapshot, TableMetadata, TableTypes,
};
use crate::partition_filter::{
    build_partition_filter, PartitionFilterBuild, PartitionFilterReply,
};
use crate::validate::{
    validate_no_conflicting_data, AwaitingAncestors, AwaitingBoundFilter, AwaitingEvaluator,
    AwaitingFileMatch, AwaitingManifestEntries, AwaitingManifestMatch, AwaitingPartitionFilter,
    AwaitingSnapshotManifests, ConflictCheck, Scan,
};

verus! {

/// Whether an error is the one for a partition spec that the table lacks.
pub open spec fn says_spec_is_missing<T: TableTypes>(error: Error<T>, spec_id: i32) -> bool {
    error matches Error::Rule(rule) && {
        &&& rule.kind == ErrorKind::Unexpected
        &&& rule.message@ == "Could not find partition spec for id "@ + crate::text::decimal(
            spec_id as int,
        )
        &&& !rule.retryable
    }
}

/// Whether an error is the one for a file that may match.
pub open spec fn says_file_conflicts<T: TableTypes>(
    error: Error<T>,
    filter_text: Seq<char>,
    path: Seq<char>,
) -> bool {
    error matches Error::Rule(rule) && {
        &&& rule.kind == ErrorKind::DataInvalid
        &&& rule.message@ == "Found conflicting files that can contain records matching "@
            + filter_text + ": "@ + path
        &&& !rule.retryable
    }
}

/// Whether a check has ended with a failure, passed on as it came.
pub open spec fn ended_with<'a, T: TableTypes>(
    state: ConflictCheck<'a, T>,
    failure: T::Failure,
) -> bool {
    state matches ConflictCheck::Finished(Err(Error::Outside(cause))) && cause == failure
}

/// Whether a scan is about a table and a filter, and holds these evaluators, snapshots and
/// manifests.
pub open spec fn holds<'a, T: TableTypes>(
    scan: Scan<'a, T>,
    metadata: TableMetadata<T>,
    filter_text: Seq<char>,
    evaluators: Map<i32, T::Evaluator>,
    snapshots: Seq<Snapshot<T>>,
    manifests: Seq<ManifestFile<T>>,
) -> bool {
    &&& *scan.metadata == metadata
    &&& scan.filter_text@ == filter_text
    &&& scan.evaluators@ == evaluators
    &&& scan.snapshots@ == snapshots
    &&& scan.manifests@ == manifests
}

/// Whether a check goes on with some snapshots: the list of the first of them is
/// to be loaded, and where there is none the check has ended well.
pub open spec fn turns_to_snapshots<'a, T: TableTypes>(
    state: ConflictCheck<'a, T>,
    bound_filter: T::BoundPredicate,
    metadata: TableMetadata<T>,
    filter_text: Seq<char>,
    evaluators: Map<i32, T::Evaluator>,
    snapshots: Seq<Snapshot<T>>,
) -> bool {
    if snapshots.len() == 0 {
        state matches ConflictCheck::Finished(Ok(_))
    } else {
        state matches ConflictCheck::LoadList(wait) && {
            &&& wait.snapshot == snapshots[0]
            &&& wait.bound_filter == bound_filter
            &&& holds(
                wait.scan,
                metadata,
                filter_text,
                evaluators,
                snapshots.drop_first(),
                Seq::empty(),
            )
        }
    }
}

/// Whether a check goes on with some manifests: the first of them is to be judged by the evaluator
/// of its partition spec; where there is none yet, it is to be built from the table's spec, and a
/// spec that the table lacks ends the check. Where there are no manifests, the check goes on with
/// the snapshots.
pub open spec fn turns_to_manifests<'a, T: TableTypes>(
    state: ConflictCheck<'a, T>,
    bound_filter: T::BoundPredicate,
    metadata: TableMetadata<T>,
    filter_text: Seq<char>,
    evaluators: Map<i32, T::Evaluator>,
    snapshots: Seq<Snapshot<T>>,
    manifests: Seq<ManifestFile<T>>,
) -> bool {
    if manifests.len() == 0 {
        turns_to_snapshots(state, bound_filter, metadata, filter_text, evaluators, snapshots)
    } else {
        let spec_id = manifests[0].partition_spec_id;
        let later = manifests.drop_first();
        if evaluators.contains_key(spec_id) {
            state matches ConflictCheck::MatchManifest(wait) && {
                &&& wait.manifest == manifests[0]
                &&& wait.evaluator == evaluators[spec_id]
                &&& wait.bound_filter == bound_filter
                &&& holds(
                    wait.scan,
                    metadata,
                    filter_text,
                    evaluators.remove(spec_id),
                    snapshots,
                    later,
                )
            }
        } else if metadata.partition_specs@.contains_key(spec_id) {
            state matches ConflictCheck::BuildPartitionFilter(wait) && {
                &&& wait.manifest == manifests[0]
                &&& wait.build matches PartitionFilterBuild::PartitionType {
                    spec,
                    schema,
                    bound_filter: given,
                }
                &&& *spec == metadata.partition_specs@[spec_id]
                &&& *schema == metadata.current_schema
                &&& given == bound_filter
                &&& holds(wait.scan, metadata, filter_text, evaluators, snapshots, later)
            }
        } else {
            state matches ConflictCheck::Finished(Err(error)) && says_spec_is_missing(
                error,
                spec_id,
            )
        }
    }
}

/// Whether a check goes on with some added entries: the first of them is to be judged by its
/// metrics, where a file without rows is no match. Where there are none, the check goes on with
/// the manifests.
pub open spec fn turns_to_entries<'a, 'b, T: TableTypes>(
    state: ConflictCheck<'a, T>,
    bound_filter: T::BoundPredicate,
    scan: Scan<'b, T>,
    entries: Seq<ManifestEntry<T>>,
) -> bool {
    if entries.len() == 0 {
        turns_to_manifests(
            state,
            bound_filter,
            *scan.metadata,
            scan.filter_text@,
            scan.evaluators@,
            scan.snapshots@,
            scan.manifests@,
        )
    } else {
        state matches ConflictCheck::MatchFile(wait) && {
            &&& wait.entry == entries[0]
            &&& wait.entries@ == entries.drop_first()
            &&& wait.bound_filter == bound_filter
            &&& !wait.include_empty_files
            &&& holds(
                wait.scan,
                *scan.metadata,
                scan.filter_text@,
                scan.evaluators@,
                scan.snapshots@,
                scan.manifests@,
            )
        }
    }
}

/// The check ends well at once where the table has no current snapshot or the current one is the
/// one read from. In every other case the filter is to be bound, with case told apart, and the
/// current snapshot is the newest one to look at, whatever its id.
pub proof fn law_check_starts_unless_nothing_is_new<'a, T: TableTypes>(
    metadata: &'a TableMetadata<T>,
    from_snapshot_id: Option<i64>,
    conflict_filter: &'a T::Predicate,
    filter_text: &'a str,
    state: ConflictCheck<'a, T>,
)
    requires
        call_ensures(
            validate_no_conflicting_data::<T>,
            (metadata, from_snapshot_id, conflict_filter, filter_text),
            state,
        ),
    ensures
        match metadata.current_snapshot {
            None => state matches ConflictCheck::Finished(Ok(_)),
            Some(current) => if from_snapshot_id == Some(current.snapshot_id) {
                state matches ConflictCheck::Finished(Ok(_))
            } else {
                state matches ConflictCheck::BindFilter(wait) && {
                    &&& *wait.metadata == *metadata
                    &&& wait.head_snapshot_id == current.snapshot_id
                    &&& wait.from_snapshot_id == from_snapshot_id
                    &&& *wait.conflict_filter == *conflict_filter
                    &&& wait.filter_text@ == filter_text@
                    &&& wait.case_sensitive
                }
            },
        },
{
}

/// With the filter bound, the snapshots up to the same head are to be found.
pub proof fn law_snapshots_are_looked_for_next<'a, T: TableTypes>(
    wait: AwaitingBoundFilter<'a, T>,
    reply: Result<T::BoundPredicate, T::Failure>,
    state: ConflictCheck<'a, T>,
)
    requires
        call_ensures(AwaitingBoundFilter::<'a, T>::resume, (wait, reply), state),
    ensures
        reply matches Ok(bound_filter) ==> (state matches ConflictCheck::FindAncestors(next) && {
            &&& *next.metadata == *wait.metadata
            &&& next.head_snapshot_id == wait.head_snapshot_id
            &&& next.from_snapshot_id == wait.from_snapshot_id
            &&& next.filter_text@ == wait.filter_text@
            &&& next.bound_filter == bound_filter
        }),
        reply matches Err(failure) ==> ended_with(state, failure),
{
}

/// Every snapshot that was found is gone through, in order and whatever its operation.
pub proof fn law_every_snapshot_is_gone_through<'a, T: TableTypes>(
    wait: AwaitingAncestors<'a, T>,
    snapshots: Vec<Snapshot<T>>,
    state: ConflictCheck<'a, T>,
)
    requires
        call_ensures(AwaitingAncestors::<'a, T>::resume, (wait, snapshots), state),
    ensures
        turns_to_snapshots(
            state,
            wait.bound_filter,
            *wait.metadata,
            wait.filter_text@,
            Map::empty(),
            snapshots@,
        ),
{
}

/// Of a snapshot's list, the data manifests that the snapshot wrote and that have added files are
/// gone through, in order and whatever else is said of them.
pub proof fn law_own_data_manifests_are_gone_through<'a, T: TableTypes>(
    wait: AwaitingSnapshotManifests<'a, T>,
    reply: Result<Vec<ManifestFile<T>>, T::Failure>,
    state: ConflictCheck<'a, T>,
)
    requires
        call_ensures(AwaitingSnapshotManifests::<'a, T>::resume, (wait, reply), state),
    ensures
        reply matches Ok(list) ==> ({
            let id = wait.snapshot.snapshot_id;
            turns_to_manifests(
                state,
                wait.bound_filter,
                *wait.scan.metadata,
                wait.scan.filter_text@,
                wait.scan.evaluators@,
                wait.scan.snapshots@,
                list@.filter(
                    |manifest: ManifestFile<T>|
                        manifest.content is Data && manifest.added_snapshot_id == id
                            && manifest.has_added_files,
                ),
            )
        }),
        reply matches Err(failure) ==> ended_with(state, failure),
{
    if reply is Ok {
        crate::validate_laws::law_own_data_manifests_with_additions_are_looked_at(
            reply->Ok_0@,
            wait.snapshot.snapshot_id,
        );
        let manifests = crate::validate::adding_manifests(
            reply->Ok_0@,
            wait.snapshot.snapshot_id,
        );
        assert(manifests.len() == 0 ==> manifests =~= Seq::empty());
    }
}

/// The work on a partition filter goes on, and once it has ended an evaluator is to be made of the
/// filter; its error ends the check.
pub proof fn law_partition_filter_becomes_an_evaluator<'a, T: TableTypes>(
    wait: AwaitingPartitionFilter<'a, T>,
    reply: PartitionFilterReply<T>,
    build: PartitionFilterBuild<'a, T>,
    state: ConflictCheck<'a, T>,
)
    requires
        call_ensures(PartitionFilterBuild::<'a, T>::resume, (wait.build, reply), build),
        call_ensures(AwaitingPartitionFilter::<'a, T>::resume, (wait, reply), state),
    ensures
        match build {
            PartitionFilterBuild::Finished { result: Ok(filter), bound_filter } => {
                state matches ConflictCheck::NewEvaluator(next) && {
                    &&& next.partition_filter == filter
                    &&& next.bound_filter == bound_filter
                    &&& next.manifest == wait.manifest
                    &&& holds(
                        next.scan,
                        *wait.scan.metadata,
                        wait.scan.filter_text@,
                        wait.scan.evaluators@,
                        wait.scan.snapshots@,
                        wait.scan.manifests@,
                    )
                }
            },
            PartitionFilterBuild::Finished { result: Err(error), .. } => {
                state matches ConflictCheck::Finished(Err(ended)) && ended@ == error@
            },
            _ => state matches ConflictCheck::BuildPartitionFilter(next) && {
                &&& next.build@ == build@
                &&& next.manifest == wait.manifest
                &&& holds(
                    next.scan,
                    *wait.scan.metadata,
                    wait.scan.filter_text@,
                    wait.scan.evaluators@,
                    wait.scan.snapshots@,
                    wait.scan.manifests@,
                )
            },
        },
{
}

/// The evaluator that was made judges the manifest that it was made for.
pub proof fn law_evaluator_judges_the_manifest<'a, T: TableTypes>(
    wait: AwaitingEvaluator<'a, T>,
    evaluator: T::Evaluator,
    state: ConflictCheck<'a, T>,
)
    requires
        call_ensures(AwaitingEvaluator::<'a, T>::resume, (wait, evaluator), state),
    ensures
        state matches ConflictCheck::MatchManifest(next) && {
            &&& next.evaluator == evaluator
            &&& next.manifest == wait.manifest
            &&& next.bound_filter == wait.bound_filter
            &&& holds(
                next.scan,
                *wait.scan.metadata,
                wait.scan.filter_text@,
                wait.scan.evaluators@,
                wait.scan.snapshots@,
                wait.scan.manifests@,
            )
        },
{
}

/// A manifest is read where its summaries leave room for matching files, and passed over where
/// they do not. Either way its evaluator is kept for the other manifests of the same spec.
pub proof fn law_manifest_is_read_where_it_may_match<'a, T: TableTypes>(
    wait: AwaitingManifestMatch<'a, T>,
    reply: Result<bool, T::Failure>,
    state: ConflictCheck<'a, T>,
)
    requires
        call_ensures(AwaitingManifestMatch::<'a, T>::resume, (wait, reply), state),
    ensures
        ({
            let evaluators = wait.scan.evaluators@.insert(
                wait.manifest.partition_spec_id,
                wait.evaluator,
            );
            &&& reply == Ok::<bool, T::Failure>(true) ==> (state matches
                ConflictCheck::LoadManifest(next) && {
                &&& next.manifest == wait.manifest
                &&& next.bound_filter == wait.bound_filter
                &&& holds(
                    next.scan,
                    *wait.scan.metadata,
                    wait.scan.filter_text@,
                    evaluators,
                    wait.scan.snapshots@,
                    wait.scan.manifests@,
                )
            })
            &&& reply == Ok::<bool, T::Failure>(false) ==> turns_to_manifests(
                state,
                wait.bound_filter,
                *wait.scan.metadata,
                wait.scan.filter_text@,
                evaluators,
                wait.scan.snapshots@,
                wait.scan.manifests@,
            )
            &&& reply matches Err(failure) ==> ended_with(state, failure)
        }),
{
    assert(wait.scan.manifests@.len() == 0 ==> wait.scan.manifests@ =~= Seq::empty());
}

/// Of a manifest, the entries with status `Added` are gone through, in order.
pub proof fn law_added_entries_are_gone_through<'a, T: TableTypes>(
    wait: AwaitingManifestEntries<'a, T>,
    reply: Result<Manifest<T>, T::Failure>,
    state: ConflictCheck<'a, T>,
)
    requires
        call_ensures(AwaitingManifestEntries::<'a, T>::resume, (wait, reply), state),
    ensures
        reply matches Ok(manifest) ==> turns_to_entries(
            state,
            wait.bound_filter,
            wait.scan,
            manifest.entries@.filter(|entry: ManifestEntry<T>| entry.status is Added),
        ),
        reply matches Err(failure) ==> ended_with(state, failure),
{
    assert(wait.scan.manifests@.len() == 0 ==> wait.scan.manifests@ =~= Seq::empty());
}

/// A file that may match ends the check with an error that names it; any other lets the check go
/// on with the next entry.
pub proof fn law_matching_file_ends_the_check<'a, T: TableTypes>(
    wait: AwaitingFileMatch<'a, T>,
    reply: Result<bool, T::Failure>,
    state: ConflictCheck<'a, T>,
)
    requires
        call_ensures(AwaitingFileMatch::<'a, T>::resume, (wait, reply), state),
    ensures
        reply == Ok::<bool, T::Failure>(true) ==> (state matches ConflictCheck::Finished(Err(error))
            && says_file_conflicts(
            error,
            wait.scan.filter_text@,
            wait.entry.data_file.file_path@,
        )),
        reply == Ok::<bool, T::Failure>(false) ==> turns_to_entries(
            state,
            wait.bound_filter,
            wait.scan,
            wait.entries@,
        ),
        reply matches Err(failure) ==> ended_with(state, failure),
{
    assert(wait.scan.manifests@.len() == 0 ==> wait.scan.manifests@ =~= Seq::empty());
}

/// The work on a partition filter starts with the table's spec of that id, under the given schema;
/// a spec that the table lacks ends it.
pub proof fn law_partition_filter_starts_with_the_spec<'a, T: TableTypes>(
    metadata: &'a TableMetadata<T>,
    spec_id: i32,
    schema: &'a T::Schema,
    bound_filter: T::BoundPredicate,
    state: PartitionFilterBuild<'a, T>,
)
    requires
        call_ensures(
            build_partition_filter::<T>,
            (metadata, spec_id, schema, bound_filter),
            state,
        ),
    ensures
        metadata.partition_specs@.contains_key(spec_id) ==> (state matches
            PartitionFilterBuild::PartitionType { spec, schema: under, bound_filter: given } && {
            &&& *spec == metadata.partition_specs@[spec_id]
            &&& *under == *schema
            &&& given == bound_filter
        }),
        !metadata.partition_specs@.contains_key(spec_id) ==> (state matches
            PartitionFilterBuild::Finished { result: Err(error), bound_filter: given } && {
            &&& says_spec_is_missing(error, spec_id)
            &&& given == bound_filter
        }),
{
}

/// Whether the work on a partition filter has ended with a failure, passed on as it came.
pub open spec fn filter_failed<'a, T: TableTypes>(
    state: PartitionFilterBuild<'a, T>,
    failure: T::Failure,
    bound_filter: T::BoundPredicate,
) -> bool {
    state matches PartitionFilterBuild::Finished {
        result: Err(Error::Outside(cause)),
        bound_filter: given,
    } && cause == failure && given == bound_filter
}

/// Each step of the work on a partition filter hands what it got to the next one: the fields of
/// the partition type become a schema with the id of the spec, the row filter is projected onto
/// the spec, negations are pushed down, and the result is bound to the partition schema, with case
/// told apart. A failure ends the work; an answer to another question changes nothing.
pub proof fn law_partition_filter_steps<'a, T: TableTypes>(
    before: PartitionFilterBuild<'a, T>,
    reply: PartitionFilterReply<T>,
    after: PartitionFilterBuild<'a, T>,
)
    requires
        call_ensures(PartitionFilterBuild::<'a, T>::resume, (before, reply), after),
    ensures
        match (before, reply) {
            (
                PartitionFilterBuild::PartitionType { spec, bound_filter, .. },
                PartitionFilterReply::Fields(Ok(fields)),
            ) => after matches PartitionFilterBuild::BuildSchema {
                spec: of,
                schema_id,
                fields: built,
                bound_filter: given,
            } && *of == *spec && schema_id == spec.spec_id && built == fields && given
                == bound_filter,
            (
                PartitionFilterBuild::PartitionType { bound_filter, .. },
                PartitionFilterReply::Fields(Err(failure)),
            ) => filter_failed(after, failure, bound_filter),
            (
                PartitionFilterBuild::BuildSchema { spec, bound_filter, .. },
                PartitionFilterReply::Schema(Ok(schema)),
            ) => after matches PartitionFilterBuild::Project {
                spec: onto,
                partition_schema,
                bound_filter: given,
            } && *onto == *spec && partition_schema == schema && given == bound_filter,
            (
                PartitionFilterBuild::BuildSchema { bound_filter, .. },
                PartitionFilterReply::Schema(Err(failure)),
            ) => filter_failed(after, failure, bound_filter),
            (
                PartitionFilterBuild::Project { partition_schema, bound_filter, .. },
                PartitionFilterReply::Projected(Ok(predicate)),
            ) => after matches PartitionFilterBuild::RewriteNot {
                partition_schema: kept,
                projected,
                bound_filter: given,
            } && kept == partition_schema && projected == predicate && given == bound_filter,
            (
                PartitionFilterBuild::Project { bound_filter, .. },
                PartitionFilterReply::Projected(Err(failure)),
            ) => filter_failed(after, failure, bound_filter),
            (
                PartitionFilterBuild::RewriteNot { partition_schema, bound_filter, .. },
                PartitionFilterReply::Rewritten(rewritten),
            ) => after matches PartitionFilterBuild::Bind {
                partition_schema: kept,
                predicate,
                case_sensitive,
                bound_filter: given,
            } && kept == partition_schema && predicate == rewritten && case_sensitive && given
                == bound_filter,
            (
                PartitionFilterBuild::Bind { bound_filter, .. },
                PartitionFilterReply::Bound(Ok(filter)),
            ) => after matches PartitionFilterBuild::Finished {
                result: Ok(bound),
                bound_filter: given,
            } && bound == filter && given == bound_filter,
            (
                PartitionFilterBuild::Bind { bound_filter, .. },
                PartitionFilterReply::Bound(Err(failure)),
            ) => filter_failed(after, failure, bound_filter),
            _ => after@ == before@,
        },
{
}

} // verus!
