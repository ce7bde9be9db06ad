//! Which manifests of the current snapshot the new snapshot keeps, and which it replaces.
//!
//! [`OverwriteOperation::existing_manifest`] starts the walk over the current manifest list. Each
//! state but the last waits for one answer; its `resume` takes the answer and gives the next
//! state.

use std::collections::VecDeque;

use vstd::prelude::*;

use crate::error::{Error, ErrorView};
use crate::ids::Uuid;
use crate::model::{
    Manifest, ManifestFile, ManifestView, Snapshot, TableMetadata, TableTypes,
};
use crate::operation::{
    ManifestRewrite, ManifestRewriteView, OverwriteOperation, OverwriteOperationView,
};

verus! {

/// How far the walk over the manifest list has come.
pub struct Progress<'a, T: TableTypes> {
    pub operation: &'a OverwriteOperation,
    pub table: &'a TableMetadata<T>,
    /// The manifests that are still to be looked at.
    pub rest: VecDeque<ManifestFile<T>>,
    /// The manifests of the new snapshot, so far.
    pub kept: Vec<ManifestFile<T>>,
}

/// What a `Progress` holds.
#[verifier::ext_equal]
pub struct ProgressView<T: TableTypes> {
    pub operation: OverwriteOperationView,
    pub table: TableMetadata<T>,
    pub rest: Seq<ManifestFile<T>>,
    pub kept: Seq<ManifestFile<T>>,
}

impl<'a, T: TableTypes> View for Progress<'a, T> {
    type V = ProgressView<T>;

    open spec fn view(&self) -> ProgressView<T> {
        ProgressView {
            operation: self.operation@,
            table: *self.table,
            rest: self.rest@,
            kept: self.kept@,
        }
    }
}

/// Waits for the manifest list of `snapshot`.
pub struct AwaitingManifestList<'a, T: TableTypes> {
    pub operation: &'a OverwriteOperation,
    pub table: &'a TableMetadata<T>,
    pub snapshot: &'a Snapshot<T>,
}

/// Waits for the contents of the manifest `current`.
pub struct AwaitingManifest<'a, T: TableTypes> {
    pub progress: Progress<'a, T>,
    pub current: ManifestFile<T>,
}

/// Waits for `rewrite` to be written.
pub struct AwaitingWrite<'a, T: TableTypes> {
    pub progress: Progress<'a, T>,
    pub rewrite: ManifestRewrite<T>,
}

/// A state of the walk.
pub enum ExistingManifests<'a, T: TableTypes> {
    /// The manifest list is to be loaded.
    LoadList(AwaitingManifestList<'a, T>),
    /// A manifest is to be loaded.
    LoadManifest(AwaitingManifest<'a, T>),
    /// A rewritten manifest is to be written.
    WriteManifest(AwaitingWrite<'a, T>),
    /// The manifests that the new snapshot lists, or why there are none.
    Finished(Result<Vec<ManifestFile<T>>, Error<T>>),
}

/// What an `ExistingManifests` holds.
pub enum ExistingManifestsView<T: TableTypes> {
    LoadList {
        operation: OverwriteOperationView,
        table: TableMetadata<T>,
        snapshot: Snapshot<T>,
    },
    LoadManifest { progress: ProgressView<T>, current: ManifestFile<T> },
    WriteManifest { progress: ProgressView<T>, rewrite: ManifestRewriteView<T> },
    Finished(Result<Seq<ManifestFile<T>>, ErrorView<T>>),
}

/// An answer to a state of the walk.
pub enum ExistingManifestsReply<T: TableTypes> {
    List(Result<Seq<ManifestFile<T>>, T::Failure>),
    Manifest(Result<ManifestView<T>, T::Failure>),
    Written(Result<ManifestFile<T>, T::Failure>),
}

impl<'a, T: TableTypes> View for AwaitingManifestList<'a, T> {
    type V = ExistingManifestsView<T>;

    open spec fn view(&self) -> ExistingManifestsView<T> {
        ExistingManifestsView::LoadList {
            operation: self.operation@,
            table: *self.table,
            snapshot: *self.snapshot,
        }
    }
}

impl<'a, T: TableTypes> View for AwaitingManifest<'a, T> {
    type V = ExistingManifestsView<T>;

    open spec fn view(&self) -> ExistingManifestsView<T> {
        ExistingManifestsView::LoadManifest { progress: self.progress@, current: self.current }
    }
}

impl<'a, T: TableTypes> View for AwaitingWrite<'a, T> {
    type V = ExistingManifestsView<T>;

    open spec fn view(&self) -> ExistingManifestsView<T> {
        ExistingManifestsView::WriteManifest { progress: self.progress@, rewrite: self.rewrite@ }
    }
}

impl<'a, T: TableTypes> View for ExistingManifests<'a, T> {
    type V = ExistingManifestsView<T>;

    open spec fn view(&self) -> ExistingManifestsView<T> {
        match *self {
            ExistingManifests::LoadList(state) => state@,
            ExistingManifests::LoadManifest(state) => state@,
            ExistingManifests::WriteManifest(state) => state@,
            ExistingManifests::Finished(Ok(kept)) => ExistingManifestsView::Finished(Ok(kept@)),
            ExistingManifests::Finished(Err(error)) => ExistingManifestsView::Finished(
                Err(error@),
            ),
        }
    }
}

/// Whether a manifest may list live files. One that lists deleted files only says nothing that
/// the absence of those files does not say.
pub open spec fn may_be_live<T: TableTypes>(manifest_file: ManifestFile<T>) -> bool {
    manifest_file.has_added_files || manifest_file.has_existing_files
}

/// The manifests of a list that may list live files.
pub open spec fn live_manifests<T: TableTypes>(list: Seq<ManifestFile<T>>) -> Seq<
    ManifestFile<T>,
> {
    list.filter(|manifest_file: ManifestFile<T>| may_be_live(manifest_file))
}

impl<T: TableTypes> ProgressView<T> {
    /// The state that looks at the next manifest.
    pub open spec fn proceed(self) -> ExistingManifestsView<T> {
        if self.rest.len() == 0 {
            ExistingManifestsView::Finished(Ok(self.kept))
        } else {
            ExistingManifestsView::LoadManifest {
                progress: ProgressView { rest: self.rest.drop_first(), ..self },
                current: self.rest[0],
            }
        }
    }

    /// The state after `manifest_file` has joined the new snapshot.
    pub open spec fn keep(self, manifest_file: ManifestFile<T>) -> ExistingManifestsView<T> {
        ProgressView { kept: self.kept.push(manifest_file), ..self }.proceed()
    }
}

impl<T: TableTypes> ExistingManifestsView<T> {
    /// The first state: a table without a snapshot has no manifests to keep.
    pub open spec fn start(operation: OverwriteOperationView, table: TableMetadata<T>) -> Self {
        match table.current_snapshot {
            None => ExistingManifestsView::Finished(Ok(Seq::empty())),
            Some(snapshot) => ExistingManifestsView::LoadList { operation, table, snapshot },
        }
    }

    /// The state after an answer. `id` names the manifest that is rewritten, where one is. A
    /// failure ends the walk; an answer that the state does not wait for changes nothing.
    pub open spec fn step(self, reply: ExistingManifestsReply<T>, id: Uuid) -> Self {
        match (self, reply) {
            (
                ExistingManifestsView::LoadList { operation, table, .. },
                ExistingManifestsReply::List(Ok(list)),
            ) => ProgressView {
                operation,
                table,
                rest: live_manifests(list),
                kept: Seq::empty(),
            }.proceed(),
            (
                ExistingManifestsView::LoadList { .. },
                ExistingManifestsReply::List(Err(failure)),
            ) => ExistingManifestsView::Finished(Err(ErrorView::Outside(failure))),
            (
                ExistingManifestsView::LoadManifest { progress, current },
                ExistingManifestsReply::Manifest(Ok(manifest)),
            ) => if progress.operation.touches(manifest.entries) {
                ExistingManifestsView::WriteManifest {
                    progress,
                    rewrite: progress.operation.rewrite(progress.table, current, manifest, id),
                }
            } else {
                progress.keep(current)
            },
            (
                ExistingManifestsView::LoadManifest { .. },
                ExistingManifestsReply::Manifest(Err(failure)),
            ) => ExistingManifestsView::Finished(Err(ErrorView::Outside(failure))),
            (
                ExistingManifestsView::WriteManifest { progress, .. },
                ExistingManifestsReply::Written(Ok(manifest_file)),
            ) => progress.keep(manifest_file),
            (
                ExistingManifestsView::WriteManifest { .. },
                ExistingManifestsReply::Written(Err(failure)),
            ) => ExistingManifestsView::Finished(Err(ErrorView::Outside(failure))),
            _ => self,
        }
    }
}

/// What a result says to the walk.
pub open spec fn list_reply<T: TableTypes>(
    reply: Result<Vec<ManifestFile<T>>, T::Failure>,
) -> ExistingManifestsReply<T> {
    match reply {
        Ok(list) => ExistingManifestsReply::List(Ok(list@)),
        Err(failure) => ExistingManifestsReply::List(Err(failure)),
    }
}

/// What a result says to the walk.
pub open spec fn manifest_reply<T: TableTypes>(
    reply: Result<Manifest<T>, T::Failure>,
) -> ExistingManifestsReply<T> {
    match reply {
        Ok(manifest) => ExistingManifestsReply::Manifest(Ok(manifest@)),
        Err(failure) => ExistingManifestsReply::Manifest(Err(failure)),
    }
}

/// Picks the manifests that may list live files.
fn live_manifest_queue<T: TableTypes>(list: Vec<ManifestFile<T>>) -> (live: VecDeque<
    ManifestFile<T>,
>)
    ensures
        live@ == live_manifests(list@),
{
    let ghost all = list@;
    let mut live: VecDeque<ManifestFile<T>> = VecDeque::new();
    proof {
        crate::seqs::lemma_filter_take_ends(all, |manifest_file: ManifestFile<T>| may_be_live(manifest_file));
    }
    for manifest_file in it: list
        invariant
            it.seq() == all,
            live@ == live_manifests(all.take(it.index() as int)),
    {
        proof {
            crate::seqs::lemma_filter_take(
                all,
                |manifest_file: ManifestFile<T>| may_be_live(manifest_file),
                it.index() as int,
            );
        }
        if manifest_file.has_added_files || manifest_file.has_existing_files {
            live.push_back(manifest_file);
        }
    }
    live
}

impl<'a, T: TableTypes> Progress<'a, T> {
    fn proceed(self) -> (state: ExistingManifests<'a, T>)
        ensures
            state@ == self@.proceed(),
    {
        let Progress { operation, table, mut rest, kept } = self;
        match rest.pop_front() {
            None => ExistingManifests::Finished(Ok(kept)),
            Some(current) => {
                let progress = Progress { operation, table, rest, kept };
                assert(progress@.rest =~= self@.rest.drop_first());
                ExistingManifests::LoadManifest(AwaitingManifest { progress, current })
            },
        }
    }

    fn keep(self, manifest_file: ManifestFile<T>) -> (state: ExistingManifests<'a, T>)
        ensures
            state@ == self@.keep(manifest_file),
    {
        let Progress { operation, table, rest, mut kept } = self;
        kept.push(manifest_file);
        Progress { operation, table, rest, kept }.proceed()
    }
}

impl OverwriteOperation {
    /// Starts the walk over the manifests of the table's current snapshot.
    pub fn existing_manifest<'a, T: TableTypes>(
        &'a self,
        table: &'a TableMetadata<T>,
    ) -> (state: ExistingManifests<'a, T>)
        ensures
            state@ == ExistingManifestsView::start(self@, *table),
    {
        match &table.current_snapshot {
            None => {
                let kept: Vec<ManifestFile<T>> = Vec::new();
                assert(kept@ =~= Seq::empty());
                ExistingManifests::Finished(Ok(kept))
            },
            Some(snapshot) => ExistingManifests::LoadList(
                AwaitingManifestList { operation: self, table, snapshot },
            ),
        }
    }
}

impl<'a, T: TableTypes> AwaitingManifestList<'a, T> {
    /// Goes on with the manifest list.
    pub fn resume(self, reply: Result<Vec<ManifestFile<T>>, T::Failure>) -> (state:
        ExistingManifests<'a, T>)
        ensures
            forall|id: Uuid| state@ == #[trigger] self@.step(list_reply(reply), id),
    {
        match reply {
            Err(failure) => ExistingManifests::Finished(Err(Error::Outside(failure))),
            Ok(list) => {
                let kept: Vec<ManifestFile<T>> = Vec::new();
                assert(kept@ =~= Seq::empty());
                Progress {
                    operation: self.operation,
                    table: self.table,
                    rest: live_manifest_queue(list),
                    kept,
                }.proceed()
            },
        }
    }
}

impl<'a, T: TableTypes> AwaitingManifest<'a, T> {
    /// Goes on with the contents of the manifest; a rewritten one is named by `id`.
    pub fn resume_as(self, reply: Result<Manifest<T>, T::Failure>, id: Uuid) -> (state:
        ExistingManifests<'a, T>)
        ensures
            state@ == self@.step(manifest_reply(reply), id),
    {
        match reply {
            Err(failure) => ExistingManifests::Finished(Err(Error::Outside(failure))),
            Ok(manifest) => {
                if self.progress.operation.has_deletes(&manifest) {
                    let rewrite = self.progress.operation.rewrite_manifest_as(
                        self.progress.table,
                        self.current,
                        manifest,
                        id,
                    );
                    ExistingManifests::WriteManifest(
                        AwaitingWrite { progress: self.progress, rewrite },
                    )
                } else {
                    self.progress.keep(self.current)
                }
            },
        }
    }

    /// Goes on with the contents of the manifest; a rewritten one gets a new name.
    pub fn resume(self, reply: Result<Manifest<T>, T::Failure>) -> (state: ExistingManifests<
        'a,
        T,
    >)
        ensures
            exists|id: Uuid|
                {
                    &&& state@ == #[trigger] self@.step(manifest_reply(reply), id)
                    &&& state@ is WriteManifest ==> id.is_version_7()
                },
    {
        let ghost before = self@;
        match reply {
            Err(failure) => {
                let ghost id = Uuid { bits: 0 };
                let state = ExistingManifests::Finished(Err(Error::Outside(failure)));
                assert(state@ == before.step(manifest_reply(reply), id));
                state
            },
            Ok(manifest) => {
                if self.progress.operation.has_deletes(&manifest) {
                    let rewrite = self.progress.operation.rewrite_manifest(
                        self.progress.table,
                        self.current,
                        manifest,
                    );
                    let state = ExistingManifests::WriteManifest(
                        AwaitingWrite { progress: self.progress, rewrite },
                    );
                    proof {
                        let id = choose|id: Uuid| #[trigger]
                            id.is_version_7() && rewrite@ == self.progress.operation@.rewrite(
                                *self.progress.table,
                                self.current,
                                manifest@,
                                id,
                            );
                        assert(state@ == before.step(manifest_reply(reply), id));
                    }
                    state
                } else {
                    let ghost id = Uuid { bits: 0 };
                    let state = self.progress.keep(self.current);
                    proof {
                        assert(state@ == before.step(manifest_reply(reply), id));
                    }
                    state
                }
            },
        }
    }
}

impl<'a, T: TableTypes> AwaitingWrite<'a, T> {
    /// Goes on with the manifest that was written.
    pub fn resume(self, reply: Result<ManifestFile<T>, T::Failure>) -> (state: ExistingManifests<
        'a,
        T,
    >)
        ensures
            forall|id: Uuid|
                state@ == #[trigger] self@.step(ExistingManifestsReply::Written(reply), id),
    {
        match reply {
            Err(failure) => ExistingManifests::Finished(Err(Error::Outside(failure))),
            Ok(manifest_file) => self.progress.keep(manifest_file),
        }
    }
}

} // verus!
