//! What each step of a commit leads to.
//!
//! A law here speaks of one call: it takes the arguments and the result of a call that was made,
//! and says how the one follows from the other.

use vstd::prelude::*;

use crate::action::{
    AwaitingAddedFiles, AwaitingCommit, AwaitingDuplicateFiles, AwaitingProducer,
    AwaitingSnapshotId, CommitPlan, OverwriteAction, OverwriteCommit,
};
use crate::error::Error;
use crate::ids::Uuid;
use crate::model::TableTypes;

verus! {

/// Whether a plan holds what an action asks for, under the identifier `commit_uuid`.
pub open spec fn plans<'a, T: TableTypes>(
    plan: CommitPlan<'a, T>,
    action: OverwriteAction<T>,
    commit_uuid: Uuid,
) -> bool {
    &&& plan.check_duplicate == action@.check_duplicate
    &&& plan.commit_uuid == commit_uuid
    &&& *plan.key_metadata == action@.key_metadata
    &&& plan.snapshot_properties@ == action@.snapshot_properties
    &&& plan.added_data_files@ == action@.added_data_files
    &&& plan.deleted_data_files@ == action@.deleted_data_files
}

/// Whether two plans hold the same.
pub open spec fn same_plan<'a, 'b, T: TableTypes>(
    one: CommitPlan<'a, T>,
    other: CommitPlan<'b, T>,
) -> bool {
    &&& one.check_duplicate == other.check_duplicate
    &&& one.commit_uuid == other.commit_uuid
    &&& *one.key_metadata == *other.key_metadata
    &&& one.snapshot_properties@ == other.snapshot_properties@
    &&& one.added_data_files@ == other.added_data_files@
    &&& one.deleted_data_files@ == other.deleted_data_files@
}

/// A commit starts with a plan that holds what the action asks for, whatever files it adds or
/// removes. It is identified by the caller's choice, or else by the fresh identifier.
pub proof fn law_commit_starts_with_the_plan<'a, T: TableTypes>(
    action: &'a OverwriteAction<T>,
    fresh: Uuid,
    state: OverwriteCommit<'a, T>,
)
    requires
        call_ensures(OverwriteAction::<T>::commit_as, (action, fresh), state),
    ensures
        state matches OverwriteCommit::NewProducer(wait) && match action@.commit_uuid {
            Some(chosen) => plans(wait.plan, *action, chosen),
            None => plans(wait.plan, *action, fresh),
        },
{
}

/// A commit starts with a plan that holds what the action asks for. It is identified by the
/// caller's choice, or else by an identifier of version 7.
pub proof fn law_commit_draws_an_identifier_where_none_was_chosen<'a, T: TableTypes>(
    action: &'a OverwriteAction<T>,
    state: OverwriteCommit<'a, T>,
)
    requires
        call_ensures(OverwriteAction::<T>::commit, (action,), state),
    ensures
        state matches OverwriteCommit::NewProducer(wait) && plans(
            wait.plan,
            *action,
            wait.plan.commit_uuid,
        ) && match action@.commit_uuid {
            Some(chosen) => wait.plan.commit_uuid == chosen,
            None => wait.plan.commit_uuid.is_version_7(),
        },
{
}

/// Once the producer is made, the added files are validated.
pub proof fn law_added_files_are_validated_first<'a, T: TableTypes>(
    wait: AwaitingProducer<'a, T>,
    state: OverwriteCommit<'a, T>,
)
    requires
        call_ensures(AwaitingProducer::<'a, T>::resume, (wait,), state),
    ensures
        state matches OverwriteCommit::ValidateAddedFiles(next) && same_plan(next.plan, wait.plan),
{
}

/// Valid added files are looked for in the table where the plan asks for it, and only there;
/// invalid ones end the commit with the failure.
pub proof fn law_duplicates_are_looked_for_where_asked<'a, T: TableTypes>(
    wait: AwaitingAddedFiles<'a, T>,
    reply: Result<(), T::Failure>,
    state: OverwriteCommit<'a, T>,
)
    requires
        call_ensures(AwaitingAddedFiles::<'a, T>::resume, (wait, reply), state),
    ensures
        reply is Ok && wait.plan.check_duplicate ==> (state matches
            OverwriteCommit::ValidateDuplicateFiles(next) && same_plan(next.plan, wait.plan)),
        reply is Ok && !wait.plan.check_duplicate ==> (state matches OverwriteCommit::SnapshotId(
            next,
        ) && same_plan(next.plan, wait.plan)),
        reply matches Err(failure) ==> (state matches OverwriteCommit::Finished(
            Err(Error::Outside(cause)),
        ) && cause == failure),
{
}

/// Files that are in the table already end the commit with the failure.
pub proof fn law_duplicates_end_the_commit<'a, T: TableTypes>(
    wait: AwaitingDuplicateFiles<'a, T>,
    reply: Result<(), T::Failure>,
    state: OverwriteCommit<'a, T>,
)
    requires
        call_ensures(AwaitingDuplicateFiles::<'a, T>::resume, (wait, reply), state),
    ensures
        reply is Ok ==> (state matches OverwriteCommit::SnapshotId(next) && same_plan(
            next.plan,
            wait.plan,
        )),
        reply matches Err(failure) ==> (state matches OverwriteCommit::Finished(
            Err(Error::Outside(cause)),
        ) && cause == failure),
{
}

/// The operation that is committed removes the paths of the files that the plan removes, and no
/// others, in the producer's snapshot.
pub proof fn law_operation_removes_the_planned_files<'a, T: TableTypes>(
    wait: AwaitingSnapshotId<'a, T>,
    snapshot_id: i64,
    state: OverwriteCommit<'a, T>,
)
    requires
        call_ensures(AwaitingSnapshotId::<'a, T>::resume, (wait, snapshot_id), state),
    ensures
        state matches OverwriteCommit::Commit(next) && {
            let files = wait.plan.deleted_data_files@;
            &&& same_plan(next.plan, wait.plan)
            &&& next.operation.snapshot_id == snapshot_id
            &&& forall|path: Seq<char>| #[trigger]
                next.operation.deleted_file_paths@.contains(path) <==> exists|i: int|
                    0 <= i < files.len() && (#[trigger] files[i]).file_path@ == path
        },
{
    let files = wait.plan.deleted_data_files@;
    assert forall|path: Seq<char>| #[trigger]
        crate::action::file_paths(files).contains(path) <==> exists|i: int|
            0 <= i < files.len() && (#[trigger] files[i]).file_path@ == path by {
        crate::commit_laws::law_removed_paths_are_those_named(files, path);
    }
}

/// What the producer makes of the commit is what comes of it.
pub proof fn law_commit_ends_as_the_producer_says<'a, T: TableTypes>(
    wait: AwaitingCommit<'a, T>,
    reply: Result<T::ActionCommit, T::Failure>,
    state: OverwriteCommit<'a, T>,
)
    requires
        call_ensures(AwaitingCommit::<'a, T>::resume, (wait, reply), state),
    ensures
        reply matches Ok(commit) ==> (state matches OverwriteCommit::Finished(Ok(done)) && done
            == commit),
        reply matches Err(failure) ==> (state matches OverwriteCommit::Finished(
            Err(Error::Outside(cause)),
        ) && cause == failure),
{
}

} // verus!
