//! The overwrite action: what a caller asks for, and how it is committed.
//!
//! [`OverwriteAction::commit`] starts the commit. Each state but the last waits for the snapshot
//! producer to do one thing; its `resume` takes what came of it and gives the next state.

use std::collections::HashMap;

use vstd::hash_set::StringHashSet;
use vstd::prelude::*;

use crate::error::{Error, ErrorView};
use crate::ids::{now_v7, Uuid};
use crate::model::{DataFile, TableTypes};
use crate::operation::{OverwriteOperation, OverwriteOperationView};

verus! {

/// A request to add data files to a table and to remove others from it in one snapshot.
pub struct OverwriteAction<T: TableTypes> {
    check_duplicate: bool,
    commit_uuid: Option<Uuid>,
    key_metadata: Option<Vec<u8>>,
    snapshot_properties: HashMap<String, String>,
    added_data_files: Vec<DataFile<T>>,
    deleted_data_files: Vec<DataFile<T>>,
}

/// What an `OverwriteAction` asks for.
#[verifier::ext_equal]
pub struct OverwriteActionView<T: TableTypes> {
    /// Whether added files must not be in the table already.
    pub check_duplicate: bool,
    /// The identifier of the commit, if the caller chose one.
    pub commit_uuid: Option<Uuid>,
    pub key_metadata: Option<Vec<u8>>,
    pub snapshot_properties: Map<String, String>,
    pub added_data_files: Seq<DataFile<T>>,
    pub deleted_data_files: Seq<DataFile<T>>,
}

impl<T: TableTypes> View for OverwriteAction<T> {
    type V = OverwriteActionView<T>;

    closed spec fn view(&self) -> OverwriteActionView<T> {
        OverwriteActionView {
            check_duplicate: self.check_duplicate,
            commit_uuid: self.commit_uuid,
            key_metadata: self.key_metadata,
            snapshot_properties: self.snapshot_properties@,
            added_data_files: self.added_data_files@,
            deleted_data_files: self.deleted_data_files@,
        }
    }
}

/// The paths of some files.
pub open spec fn file_paths<T: TableTypes>(files: Seq<DataFile<T>>) -> Set<Seq<char>> {
    files.map_values(|file: DataFile<T>| file.file_path@).to_set()
}

impl<T: TableTypes> OverwriteAction<T> {
    /// An action that adds and removes nothing, and checks for duplicates.
    pub fn new() -> (action: Self)
        ensures
            action@ == (OverwriteActionView::<T> {
                check_duplicate: true,
                commit_uuid: None,
                key_metadata: None,
                snapshot_properties: Map::empty(),
                added_data_files: Seq::empty(),
                deleted_data_files: Seq::empty(),
            }),
    {
        OverwriteAction {
            check_duplicate: true,
            commit_uuid: None,
            key_metadata: None,
            snapshot_properties: HashMap::new(),
            added_data_files: Vec::new(),
            deleted_data_files: Vec::new(),
        }
    }

    /// Sets whether to check that added files are not in the table already.
    pub fn with_check_duplicate(self, v: bool) -> (action: Self)
        ensures
            action@ == (OverwriteActionView { check_duplicate: v, ..self@ }),
    {
        OverwriteAction { check_duplicate: v, ..self }
    }

    /// Adds data files to the snapshot, after those that were added before.
    pub fn add_data_files(self, data_files: Vec<DataFile<T>>) -> (action: Self)
        ensures
            action@ == (OverwriteActionView {
                added_data_files: self@.added_data_files + data_files@,
                ..self@
            }),
    {
        let mut more = data_files;
        let mut files = self.added_data_files;
        files.append(&mut more);
        OverwriteAction { added_data_files: files, ..self }
    }

    /// Names data files to be removed from the table, after those that were named before.
    pub fn delete_data_files(self, data_files: Vec<DataFile<T>>) -> (action: Self)
        ensures
            action@ == (OverwriteActionView {
                deleted_data_files: self@.deleted_data_files + data_files@,
                ..self@
            }),
    {
        let mut more = data_files;
        let mut files = self.deleted_data_files;
        files.append(&mut more);
        OverwriteAction { deleted_data_files: files, ..self }
    }

    /// Sets the identifier of the commit.
    pub fn set_commit_uuid(self, commit_uuid: Uuid) -> (action: Self)
        ensures
            action@ == (OverwriteActionView { commit_uuid: Some(commit_uuid), ..self@ }),
    {
        OverwriteAction { commit_uuid: Some(commit_uuid), ..self }
    }

    /// Sets the key metadata of manifest files.
    pub fn set_key_metadata(self, key_metadata: Vec<u8>) -> (action: Self)
        ensures
            action@ == (OverwriteActionView { key_metadata: Some(key_metadata), ..self@ }),
    {
        OverwriteAction { key_metadata: Some(key_metadata), ..self }
    }

    /// Sets the summary properties of the snapshot, in place of those that were set before.
    pub fn set_snapshot_properties(self, snapshot_properties: HashMap<String, String>) -> (action:
        Self)
        ensures
            action@ == (OverwriteActionView {
                snapshot_properties: snapshot_properties@,
                ..self@
            }),
    {
        OverwriteAction { snapshot_properties, ..self }
    }
}

/// What is handed to the snapshot producer, and what the rest of the commit needs.
pub struct CommitPlan<'a, T: TableTypes> {
    pub check_duplicate: bool,
    pub commit_uuid: Uuid,
    pub key_metadata: &'a Option<Vec<u8>>,
    pub snapshot_properties: &'a HashMap<String, String>,
    pub added_data_files: &'a Vec<DataFile<T>>,
    pub deleted_data_files: &'a Vec<DataFile<T>>,
}

/// What a `CommitPlan` holds.
#[verifier::ext_equal]
pub struct CommitPlanView<T: TableTypes> {
    pub check_duplicate: bool,
    pub commit_uuid: Uuid,
    pub key_metadata: Option<Vec<u8>>,
    pub snapshot_properties: Map<String, String>,
    pub added_data_files: Seq<DataFile<T>>,
    pub deleted_data_files: Seq<DataFile<T>>,
}

impl<'a, T: TableTypes> View for CommitPlan<'a, T> {
    type V = CommitPlanView<T>;

    open spec fn view(&self) -> CommitPlanView<T> {
        CommitPlanView {
            check_duplicate: self.check_duplicate,
            commit_uuid: self.commit_uuid,
            key_metadata: *self.key_metadata,
            snapshot_properties: self.snapshot_properties@,
            added_data_files: self.added_data_files@,
            deleted_data_files: self.deleted_data_files@,
        }
    }
}

/// How the new snapshot's manifests are arranged before they are listed: as they are.
#[derive(Clone, Copy, Debug, PartialEq, Eq, Structural)]
pub struct DefaultManifestProcess;

/// Waits for a snapshot producer to be made from `plan`.
pub struct AwaitingProducer<'a, T: TableTypes> {
    pub plan: CommitPlan<'a, T>,
}

/// Waits for the producer to validate the added files.
pub struct AwaitingAddedFiles<'a, T: TableTypes> {
    pub plan: CommitPlan<'a, T>,
}

/// Waits for the producer to look for added files that are in the table already.
pub struct AwaitingDuplicateFiles<'a, T: TableTypes> {
    pub plan: CommitPlan<'a, T>,
}

/// Waits for the producer's snapshot id.
pub struct AwaitingSnapshotId<'a, T: TableTypes> {
    pub plan: CommitPlan<'a, T>,
}

/// Waits for the producer to commit `operation` with `process`.
pub struct AwaitingCommit<'a, T: TableTypes> {
    pub plan: CommitPlan<'a, T>,
    pub operation: OverwriteOperation,
    pub process: DefaultManifestProcess,
}

/// A state of the commit.
pub enum OverwriteCommit<'a, T: TableTypes> {
    NewProducer(AwaitingProducer<'a, T>),
    ValidateAddedFiles(AwaitingAddedFiles<'a, T>),
    ValidateDuplicateFiles(AwaitingDuplicateFiles<'a, T>),
    SnapshotId(AwaitingSnapshotId<'a, T>),
    Commit(AwaitingCommit<'a, T>),
    /// The updates and requirements of the commit, or why there are none.
    Finished(Result<T::ActionCommit, Error<T>>),
}

/// What an `OverwriteCommit` holds.
pub enum OverwriteCommitView<T: TableTypes> {
    NewProducer(CommitPlanView<T>),
    ValidateAddedFiles(CommitPlanView<T>),
    ValidateDuplicateFiles(CommitPlanView<T>),
    SnapshotId(CommitPlanView<T>),
    Commit {
        plan: CommitPlanView<T>,
        operation: OverwriteOperationView,
        process: DefaultManifestProcess,
    },
    Finished(Result<T::ActionCommit, ErrorView<T>>),
}

/// What the producer answers to a state of the commit.
pub enum CommitReply<T: TableTypes> {
    Made,
    Validated(Result<(), T::Failure>),
    SnapshotId(i64),
    Committed(Result<T::ActionCommit, T::Failure>),
}

impl<'a, T: TableTypes> View for OverwriteCommit<'a, T> {
    type V = OverwriteCommitView<T>;

    open spec fn view(&self) -> OverwriteCommitView<T> {
        match *self {
            OverwriteCommit::NewProducer(state) => OverwriteCommitView::NewProducer(state.plan@),
            OverwriteCommit::ValidateAddedFiles(state) => OverwriteCommitView::ValidateAddedFiles(
                state.plan@,
            ),
            OverwriteCommit::ValidateDuplicateFiles(state) => {
                OverwriteCommitView::ValidateDuplicateFiles(state.plan@)
            },
            OverwriteCommit::SnapshotId(state) => OverwriteCommitView::SnapshotId(state.plan@),
            OverwriteCommit::Commit(state) => OverwriteCommitView::Commit {
                plan: state.plan@,
                operation: state.operation@,
                process: state.process,
            },
            OverwriteCommit::Finished(Ok(commit)) => OverwriteCommitView::Finished(Ok(commit)),
            OverwriteCommit::Finished(Err(error)) => OverwriteCommitView::Finished(Err(error@)),
        }
    }
}

impl<T: TableTypes> OverwriteActionView<T> {
    /// The plan of a commit; `fresh` identifies it where the caller chose no identifier.
    pub open spec fn plan(self, fresh: Uuid) -> CommitPlanView<T> {
        CommitPlanView {
            check_duplicate: self.check_duplicate,
            commit_uuid: match self.commit_uuid {
                Some(chosen) => chosen,
                None => fresh,
            },
            key_metadata: self.key_metadata,
            snapshot_properties: self.snapshot_properties,
            added_data_files: self.added_data_files,
            deleted_data_files: self.deleted_data_files,
        }
    }
}

impl<T: TableTypes> OverwriteCommitView<T> {
    /// The state after an answer. A failure ends the commit; an answer that the state does not
    /// wait for changes nothing.
    pub open spec fn step(self, reply: CommitReply<T>) -> Self {
        match (self, reply) {
            (
                OverwriteCommitView::NewProducer(plan),
                CommitReply::Made,
            ) => OverwriteCommitView::ValidateAddedFiles(plan),
            (
                OverwriteCommitView::ValidateAddedFiles(plan),
                CommitReply::Validated(Ok(_)),
            ) => if plan.check_duplicate {
                OverwriteCommitView::ValidateDuplicateFiles(plan)
            } else {
                OverwriteCommitView::SnapshotId(plan)
            },
            (
                OverwriteCommitView::ValidateDuplicateFiles(plan),
                CommitReply::Validated(Ok(_)),
            ) => OverwriteCommitView::SnapshotId(plan),
            (
                OverwriteCommitView::ValidateAddedFiles(_)
                | OverwriteCommitView::ValidateDuplicateFiles(_),
                CommitReply::Validated(Err(failure)),
            ) => OverwriteCommitView::Finished(Err(ErrorView::Outside(failure))),
            (
                OverwriteCommitView::SnapshotId(plan),
                CommitReply::SnapshotId(snapshot_id),
            ) => OverwriteCommitView::Commit {
                plan,
                operation: OverwriteOperationView {
                    deleted_file_paths: file_paths(plan.deleted_data_files),
                    snapshot_id,
                },
                process: DefaultManifestProcess,
            },
            (
                OverwriteCommitView::Commit { .. },
                CommitReply::Committed(Ok(commit)),
            ) => OverwriteCommitView::Finished(Ok(commit)),
            (
                OverwriteCommitView::Commit { .. },
                CommitReply::Committed(Err(failure)),
            ) => OverwriteCommitView::Finished(Err(ErrorView::Outside(failure))),
            _ => self,
        }
    }
}

/// Collects the paths of some files.
pub fn collect_file_paths<T: TableTypes>(files: &Vec<DataFile<T>>) -> (paths: StringHashSet)
    ensures
        paths@ == file_paths(files@),
{
    let mut paths = StringHashSet::new();
    let ghost all = files@.map_values(|file: DataFile<T>| file.file_path@);
    assert(all.take(0).to_set() =~= Set::empty());
    for i in 0..files.len()
        invariant
            all == files@.map_values(|file: DataFile<T>| file.file_path@),
            paths@ == all.take(i as int).to_set(),
    {
        paths.insert(files[i].file_path.clone());
        proof {
            let before = all.take(i as int);
            let after = all.take(i + 1);
            assert(after =~= before.push(all[i as int]));
            assert forall|path: Seq<char>| #[trigger]
                after.to_set().contains(path) <==> before.to_set().insert(all[i as int]).contains(
                    path,
                ) by {
                if before.contains(path) {
                    let j = choose|j: int| 0 <= j < before.len() && before[j] == path;
                    assert(after[j] == path);
                }
                assert(after[i as int] == all[i as int]);
            }
            assert(after.to_set() =~= before.to_set().insert(all[i as int]));
        }
    }
    assert(all.take(all.len() as int) =~= all);
    paths
}

impl<T: TableTypes> OverwriteAction<T> {
    fn plan(&self, commit_uuid: Uuid) -> (plan: CommitPlan<'_, T>)
        ensures
            plan@ == (CommitPlanView { commit_uuid, ..self@.plan(commit_uuid) }),
    {
        CommitPlan {
            check_duplicate: self.check_duplicate,
            commit_uuid,
            key_metadata: &self.key_metadata,
            snapshot_properties: &self.snapshot_properties,
            added_data_files: &self.added_data_files,
            deleted_data_files: &self.deleted_data_files,
        }
    }

    /// Starts a commit, which `fresh` identifies unless the caller chose an identifier.
    pub fn commit_as(&self, fresh: Uuid) -> (state: OverwriteCommit<'_, T>)
        ensures
            state@ == OverwriteCommitView::NewProducer(self@.plan(fresh)),
    {
        let commit_uuid = match self.commit_uuid {
            Some(chosen) => chosen,
            None => fresh,
        };
        OverwriteCommit::NewProducer(AwaitingProducer { plan: self.plan(commit_uuid) })
    }

    /// Starts a commit, under a new identifier unless the caller chose one.
    pub fn commit(&self) -> (state: OverwriteCommit<'_, T>)
        ensures
            exists|fresh: Uuid|
                {
                    &&& state@ == OverwriteCommitView::NewProducer(#[trigger] self@.plan(fresh))
                    &&& self@.commit_uuid is None ==> fresh.is_version_7()
                },
    {
        match self.commit_uuid {
            Some(chosen) => self.commit_as(chosen),
            None => {
                let fresh = now_v7();
                self.commit_as(fresh)
            },
        }
    }
}

impl<'a, T: TableTypes> AwaitingProducer<'a, T> {
    /// Goes on once the producer is made.
    pub fn resume(self) -> (state: OverwriteCommit<'a, T>)
        ensures
            state@ == OverwriteCommitView::NewProducer(self.plan@).step(CommitReply::Made),
    {
        OverwriteCommit::ValidateAddedFiles(AwaitingAddedFiles { plan: self.plan })
    }
}

impl<'a, T: TableTypes> AwaitingAddedFiles<'a, T> {
    /// Goes on with what the validation found.
    pub fn resume(self, reply: Result<(), T::Failure>) -> (state: OverwriteCommit<'a, T>)
        ensures
            state@ == OverwriteCommitView::ValidateAddedFiles(self.plan@).step(
                CommitReply::Validated(reply),
            ),
    {
        match reply {
            Err(failure) => OverwriteCommit::Finished(Err(Error::Outside(failure))),
            Ok(_) => {
                if self.plan.check_duplicate {
                    OverwriteCommit::ValidateDuplicateFiles(
                        AwaitingDuplicateFiles { plan: self.plan },
                    )
                } else {
                    OverwriteCommit::SnapshotId(AwaitingSnapshotId { plan: self.plan })
                }
            },
        }
    }
}

impl<'a, T: TableTypes> AwaitingDuplicateFiles<'a, T> {
    /// Goes on with what the validation found.
    pub fn resume(self, reply: Result<(), T::Failure>) -> (state: OverwriteCommit<'a, T>)
        ensures
            state@ == OverwriteCommitView::ValidateDuplicateFiles(self.plan@).step(
                CommitReply::Validated(reply),
            ),
    {
        match reply {
            Err(failure) => OverwriteCommit::Finished(Err(Error::Outside(failure))),
            Ok(_) => OverwriteCommit::SnapshotId(AwaitingSnapshotId { plan: self.plan }),
        }
    }
}

impl<'a, T: TableTypes> AwaitingSnapshotId<'a, T> {
    /// Goes on with the snapshot id.
    pub fn resume(self, snapshot_id: i64) -> (state: OverwriteCommit<'a, T>)
        ensures
            state@ == OverwriteCommitView::SnapshotId(self.plan@).step(
                CommitReply::SnapshotId(snapshot_id),
            ),
    {
        let deleted_file_paths = collect_file_paths(self.plan.deleted_data_files);
        OverwriteCommit::Commit(
            AwaitingCommit {
                plan: self.plan,
                operation: OverwriteOperation { deleted_file_paths, snapshot_id },
                process: DefaultManifestProcess,
            },
        )
    }
}

impl<'a, T: TableTypes> AwaitingCommit<'a, T> {
    /// Goes on with what came of the commit.
    pub fn resume(self, reply: Result<T::ActionCommit, T::Failure>) -> (state: OverwriteCommit<
        'a,
        T,
    >)
        ensures
            state@ == (OverwriteCommitView::Commit {
                plan: self.plan@,
                operation: self.operation@,
                process: self.process,
            }).step(CommitReply::Committed(reply)),
    {
        match reply {
            Err(failure) => OverwriteCommit::Finished(Err(Error::Outside(failure))),
            Ok(commit) => OverwriteCommit::Finished(Ok(commit)),
        }
    }
}

} // verus!
