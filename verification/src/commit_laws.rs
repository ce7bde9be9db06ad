//! What the overwrite action and its commit do as a whole.

use vstd::prelude::*;

use crate::action::{
    CommitPlanView, CommitReply, OverwriteActionView, OverwriteCommitView,
};
use crate::error::ErrorView;
use crate::ids::Uuid;
use crate::model::{DataFile, TableTypes};
use crate::operation::OverwriteOperationView;

verus! {

/// What a snapshot producer answers during one commit.
#[verifier::reject_recursive_types(T)]
pub struct Producer<T: TableTypes> {
    /// What the validation of the added files finds.
    pub added_files: spec_fn(CommitPlanView<T>) -> Result<(), T::Failure>,
    /// What the search for duplicates of the added files finds.
    pub duplicate_files: spec_fn(CommitPlanView<T>) -> Result<(), T::Failure>,
    /// The id of the new snapshot.
    pub snapshot_id: i64,
    /// What comes of committing an operation.
    pub commit: spec_fn(CommitPlanView<T>, OverwriteOperationView) -> Result<
        T::ActionCommit,
        T::Failure,
    >,
}

impl<T: TableTypes> Producer<T> {
    /// The answer to a state of the commit.
    pub open spec fn reply(self, state: OverwriteCommitView<T>) -> CommitReply<T> {
        match state {
            OverwriteCommitView::NewProducer(_) => CommitReply::Made,
            OverwriteCommitView::ValidateAddedFiles(plan) => CommitReply::Validated(
                (self.added_files)(plan),
            ),
            OverwriteCommitView::ValidateDuplicateFiles(plan) => CommitReply::Validated(
                (self.duplicate_files)(plan),
            ),
            OverwriteCommitView::SnapshotId(_) => CommitReply::SnapshotId(self.snapshot_id),
            OverwriteCommitView::Commit { plan, operation, .. } => CommitReply::Committed(
                (self.commit)(plan, operation),
            ),
            OverwriteCommitView::Finished(_) => CommitReply::Made,
        }
    }

    /// The state after `n` answers.
    pub open spec fn run(self, state: OverwriteCommitView<T>, n: nat) -> OverwriteCommitView<T>
        decreases n,
    {
        if n == 0 {
            state
        } else {
            self.run(state.step(self.reply(state)), (n - 1) as nat)
        }
    }

    /// What comes of committing a plan: the first check that refuses it decides; duplicates are
    /// looked for only where the plan asks for it; then the removal of the named files is
    /// committed in the producer's snapshot.
    pub open spec fn outcome(self, plan: CommitPlanView<T>) -> Result<T::ActionCommit, T::Failure> {
        if (self.added_files)(plan) is Err {
            Err((self.added_files)(plan)->Err_0)
        } else if plan.check_duplicate && (self.duplicate_files)(plan) is Err {
            Err((self.duplicate_files)(plan)->Err_0)
        } else {
            (self.commit)(
                plan,
                OverwriteOperationView {
                    deleted_file_paths: crate::action::file_paths(plan.deleted_data_files),
                    snapshot_id: self.snapshot_id,
                },
            )
        }
    }
}

/// Answered by any producer, the commit of a plan ends after at most five answers with the
/// plan's outcome; a refusal is passed on as it came.
pub proof fn law_commit_reaches_outcome<T: TableTypes>(
    producer: Producer<T>,
    plan: CommitPlanView<T>,
)
    ensures
        producer.run(OverwriteCommitView::NewProducer(plan), 5) == (match producer.outcome(plan) {
            Ok(commit) => OverwriteCommitView::<T>::Finished(Ok(commit)),
            Err(failure) => OverwriteCommitView::Finished(Err(ErrorView::Outside(failure))),
        }),
{
    reveal_with_fuel(Producer::run, 6);
}

/// A refused check ends the commit before the producer is asked to commit anything.
pub proof fn law_refused_plan_is_never_committed<T: TableTypes>(
    producer: Producer<T>,
    plan: CommitPlanView<T>,
    n: nat,
)
    requires
        (producer.added_files)(plan) is Err || plan.check_duplicate && (producer.duplicate_files)(
            plan,
        ) is Err,
    ensures
        !(producer.run(OverwriteCommitView::NewProducer(plan), n) is Commit),
{
    let start = OverwriteCommitView::NewProducer(plan);
    reveal_with_fuel(Producer::run, 4);
    if n >= 3 {
        lemma_finished_stays(producer, producer.run(start, 3), (n - 3) as nat);
        lemma_run_adds(producer, start, 3, (n - 3) as nat);
    }
}

proof fn lemma_finished_stays<T: TableTypes>(
    producer: Producer<T>,
    state: OverwriteCommitView<T>,
    n: nat,
)
    requires
        state is Finished,
    ensures
        producer.run(state, n) == state,
    decreases n,
{
    if n > 0 {
        lemma_finished_stays(producer, state, (n - 1) as nat);
    }
}

proof fn lemma_run_adds<T: TableTypes>(
    producer: Producer<T>,
    state: OverwriteCommitView<T>,
    m: nat,
    n: nat,
)
    ensures
        producer.run(state, m + n) == producer.run(producer.run(state, m), n),
    decreases m,
{
    if m > 0 {
        lemma_run_adds(producer, state.step(producer.reply(state)), (m - 1) as nat, n);
    }
}

/// The files that a commit removes are those that the caller named, however often and in
/// whatever order: a path is removed where some named file has it.
pub proof fn law_removed_paths_are_those_named<T: TableTypes>(
    files: Seq<DataFile<T>>,
    path: Seq<char>,
)
    ensures
        crate::action::file_paths(files).contains(path) <==> exists|i: int|
            0 <= i < files.len() && (#[trigger] files[i]).file_path@ == path,
{
    let paths = files.map_values(|file: DataFile<T>| file.file_path@);
    if crate::action::file_paths(files).contains(path) {
        let i = choose|i: int| 0 <= i < paths.len() && paths[i] == path;
        assert(files[i].file_path@ == path);
    }
    if exists|i: int| 0 <= i < files.len() && (#[trigger] files[i]).file_path@ == path {
        let i = choose|i: int| 0 <= i < files.len() && (#[trigger] files[i]).file_path@ == path;
        assert(paths[i] == path);
    }
}

/// Naming files in two calls removes the files of both.
pub proof fn law_removed_paths_add_up<T: TableTypes>(
    first: Seq<DataFile<T>>,
    second: Seq<DataFile<T>>,
)
    ensures
        crate::action::file_paths(first + second) == crate::action::file_paths(first).union(
            crate::action::file_paths(second),
        ),
{
    let both = first + second;
    assert forall|path: Seq<char>| #[trigger]
        crate::action::file_paths(both).contains(path) <==> crate::action::file_paths(first).union(
            crate::action::file_paths(second),
        ).contains(path) by {
        law_removed_paths_are_those_named(both, path);
        law_removed_paths_are_those_named(first, path);
        law_removed_paths_are_those_named(second, path);
        if crate::action::file_paths(first).contains(path) {
            let i = choose|i: int|
                0 <= i < first.len() && (#[trigger] first[i]).file_path@ == path;
            assert(both[i].file_path@ == path);
        }
        if crate::action::file_paths(second).contains(path) {
            let i = choose|i: int|
                0 <= i < second.len() && (#[trigger] second[i]).file_path@ == path;
            assert(both[first.len() + i].file_path@ == path);
        }
        if crate::action::file_paths(both).contains(path) {
            let i = choose|i: int| 0 <= i < both.len() && (#[trigger] both[i]).file_path@ == path;
            if i < first.len() {
                assert(first[i].file_path@ == path);
            } else {
                assert(second[i - first.len()].file_path@ == path);
            }
        }
    }
    assert(crate::action::file_paths(both) =~= crate::action::file_paths(first).union(
        crate::action::file_paths(second),
    ));
}

/// An identifier that the caller chose identifies the commit, whatever fresh one is drawn.
pub proof fn law_chosen_uuid_is_used<T: TableTypes>(
    action: OverwriteActionView<T>,
    chosen: Uuid,
    fresh: Uuid,
)
    requires
        action.commit_uuid == Some(chosen),
    ensures
        action.plan(fresh).commit_uuid == chosen,
{
}

/// The plan of a commit holds what the caller asked for, field by field and whatever the other
/// fields hold; the identifier is the caller's where the caller chose one, and else the fresh one.
pub proof fn law_plan_holds_what_was_asked_for<T: TableTypes>(
    action: OverwriteActionView<T>,
    fresh: Uuid,
)
    ensures
        action.plan(fresh).check_duplicate == action.check_duplicate,
        action.plan(fresh).key_metadata == action.key_metadata,
        action.plan(fresh).snapshot_properties == action.snapshot_properties,
        action.plan(fresh).added_data_files == action.added_data_files,
        action.plan(fresh).deleted_data_files == action.deleted_data_files,
        action.commit_uuid is None ==> action.plan(fresh).commit_uuid == fresh,
        action.commit_uuid is Some ==> action.plan(fresh).commit_uuid == action.commit_uuid->Some_0,
{
}

/// Answered by any producer, a commit first has the added files validated. A failure there refuses
/// the commit, whatever the action asks for besides.
pub proof fn law_invalid_added_files_refuse_the_commit<T: TableTypes>(
    producer: Producer<T>,
    action: OverwriteActionView<T>,
    fresh: Uuid,
    plan: CommitPlanView<T>,
    failure: T::Failure,
    n: nat,
)
    requires
        plan.check_duplicate == action.check_duplicate,
        plan.commit_uuid == (if action.commit_uuid is Some {
            action.commit_uuid->Some_0
        } else {
            fresh
        }),
        plan.key_metadata == action.key_metadata,
        plan.snapshot_properties == action.snapshot_properties,
        plan.added_data_files == action.added_data_files,
        plan.deleted_data_files == action.deleted_data_files,
        (producer.added_files)(plan) == Err::<(), T::Failure>(failure),
    ensures
        n >= 2 ==> producer.run(OverwriteCommitView::NewProducer(action.plan(fresh)), n)
            == OverwriteCommitView::<T>::Finished(Err(ErrorView::Outside(failure))),
        !(producer.run(OverwriteCommitView::NewProducer(action.plan(fresh)), n) is Commit),
{
    law_plan_holds_what_was_asked_for(action, fresh);
    assert(action.plan(fresh) == plan);
    let start = OverwriteCommitView::NewProducer(plan);
    reveal_with_fuel(Producer::run, 4);
    if n >= 2 {
        lemma_finished_stays(producer, producer.run(start, 2), (n - 2) as nat);
        lemma_run_adds(producer, start, 2, (n - 2) as nat);
    }
}

/// Answered by any producer, a commit of an action that asks for the duplicate check is refused
/// where that check fails, whatever files the action adds or removes: nothing is committed.
pub proof fn law_duplicates_refuse_the_commit<T: TableTypes>(
    producer: Producer<T>,
    action: OverwriteActionView<T>,
    fresh: Uuid,
    plan: CommitPlanView<T>,
    failure: T::Failure,
    n: nat,
)
    requires
        action.check_duplicate,
        plan.check_duplicate == action.check_duplicate,
        plan.commit_uuid == (if action.commit_uuid is Some {
            action.commit_uuid->Some_0
        } else {
            fresh
        }),
        plan.key_metadata == action.key_metadata,
        plan.snapshot_properties == action.snapshot_properties,
        plan.added_data_files == action.added_data_files,
        plan.deleted_data_files == action.deleted_data_files,
        (producer.added_files)(plan) is Ok,
        (producer.duplicate_files)(plan) == Err::<(), T::Failure>(failure),
    ensures
        n >= 3 ==> producer.run(OverwriteCommitView::NewProducer(action.plan(fresh)), n)
            == OverwriteCommitView::<T>::Finished(Err(ErrorView::Outside(failure))),
        !(producer.run(OverwriteCommitView::NewProducer(action.plan(fresh)), n) is Commit),
{
    law_plan_holds_what_was_asked_for(action, fresh);
    assert(action.plan(fresh) == plan);
    let start = OverwriteCommitView::NewProducer(plan);
    reveal_with_fuel(Producer::run, 4);
    if n >= 3 {
        lemma_finished_stays(producer, producer.run(start, 3), (n - 3) as nat);
        lemma_run_adds(producer, start, 3, (n - 3) as nat);
    }
}

/// Answered by any producer, a commit that no check refuses is what the producer makes of it: the
/// producer is handed what the caller asked for, and is to remove, in its own snapshot, the paths
/// of the files that the caller named. The duplicate check is asked for only where the caller
/// wants it.
pub proof fn law_unrefused_commit_is_the_producers<T: TableTypes>(
    producer: Producer<T>,
    action: OverwriteActionView<T>,
    fresh: Uuid,
    plan: CommitPlanView<T>,
    n: nat,
)
    requires
        plan.check_duplicate == action.check_duplicate,
        plan.commit_uuid == (if action.commit_uuid is Some {
            action.commit_uuid->Some_0
        } else {
            fresh
        }),
        plan.key_metadata == action.key_metadata,
        plan.snapshot_properties == action.snapshot_properties,
        plan.added_data_files == action.added_data_files,
        plan.deleted_data_files == action.deleted_data_files,
        (producer.added_files)(plan) is Ok,
        action.check_duplicate ==> (producer.duplicate_files)(plan) is Ok,
        n >= 5,
    ensures
        ({
            let files = action.deleted_data_files;
            let operation = OverwriteOperationView {
                deleted_file_paths: Set::new(
                    |path: Seq<char>|
                        exists|i: int|
                            0 <= i < files.len() && (#[trigger] files[i]).file_path@ == path,
                ),
                snapshot_id: producer.snapshot_id,
            };
            producer.run(OverwriteCommitView::NewProducer(action.plan(fresh)), n) == (match (
            producer.commit)(plan, operation) {
                Ok(commit) => OverwriteCommitView::<T>::Finished(Ok(commit)),
                Err(failure) => OverwriteCommitView::Finished(Err(ErrorView::Outside(failure))),
            })
        }),
        !action.check_duplicate ==> forall|m: nat|
            !(#[trigger] producer.run(OverwriteCommitView::NewProducer(action.plan(fresh)), m)
                is ValidateDuplicateFiles),
{
    law_plan_holds_what_was_asked_for(action, fresh);
    assert(action.plan(fresh) == plan);
    let start = OverwriteCommitView::NewProducer(plan);
    let files = action.deleted_data_files;
    let paths = Set::new(
        |path: Seq<char>|
            exists|i: int| 0 <= i < files.len() && (#[trigger] files[i]).file_path@ == path,
    );
    assert forall|path: Seq<char>| #[trigger]
        paths.contains(path) <==> crate::action::file_paths(files).contains(path) by {
        law_removed_paths_are_those_named(files, path);
    }
    assert(paths =~= crate::action::file_paths(files));
    reveal_with_fuel(Producer::run, 6);
    lemma_finished_stays(producer, producer.run(start, 5), (n - 5) as nat);
    lemma_run_adds(producer, start, 5, (n - 5) as nat);
    if !action.check_duplicate {
        assert forall|m: nat| !(#[trigger] producer.run(start, m) is ValidateDuplicateFiles) by {
            if m >= 4 {
                assert(producer.run(start, 4) is Finished);
                lemma_finished_stays(producer, producer.run(start, 4), (m - 4) as nat);
                lemma_run_adds(producer, start, 4, (m - 4) as nat);
            }
        }
    }
}

} // verus!
