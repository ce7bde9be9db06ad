//! What an overwrite does to a table as a whole.

use vstd::prelude::*;

use crate::error::ErrorView;
use crate::existing::{ExistingManifestsReply, ExistingManifestsView, ProgressView};
use crate::ids::Uuid;
use crate::model::{
    DataFile, ManifestEntry, ManifestFile, ManifestStatus, ManifestView, Snapshot, TableMetadata,
    TableTypes,
};
use crate::operation::{ManifestRewriteView, OverwriteOperationView};

verus! {

/// Every live entry of a manifest is in the rewritten one: as deleted by the operation's snapshot
/// where the operation removes the file, and else carried over with its snapshot id, its sequence
/// numbers and its file unchanged.
pub proof fn law_rewrite_lists_every_live_entry<T: TableTypes>(
    operation: OverwriteOperationView,
    entries: Seq<ManifestEntry<T>>,
    i: int,
)
    requires
        0 <= i < entries.len(),
        !(entries[i].status is Deleted),
    ensures
        operation.deleted_file_paths.contains(entries[i].data_file.file_path@)
            ==> operation.rewritten_entries(entries).contains(
            (ManifestEntry {
                status: ManifestStatus::Deleted,
                snapshot_id: Some(operation.snapshot_id),
                ..entries[i]
            }),
        ),
        !operation.deleted_file_paths.contains(entries[i].data_file.file_path@)
            ==> operation.rewritten_entries(entries).contains(
            (ManifestEntry { status: ManifestStatus::Existing, ..entries[i] }),
        ),
{
    let alive = |entry: ManifestEntry<T>| entry.alive();
    let live = entries.filter(alive);
    crate::seqs::lemma_filter_members(entries, alive);
    let j = choose|j: int| 0 <= j < live.len() && live[j] == entries[i];
    assert(operation.rewritten_entries(entries)[j] == operation.rewritten_entry(entries[i]));
}

/// A rewritten manifest lists nothing but the rewritten live entries of the manifest it replaces.
/// In particular no entry comes from one that was deleted before.
pub proof fn law_rewrite_lists_live_entries_only<T: TableTypes>(
    operation: OverwriteOperationView,
    entries: Seq<ManifestEntry<T>>,
    j: int,
)
    requires
        0 <= j < operation.rewritten_entries(entries).len(),
    ensures
        exists|i: int|
            0 <= i < entries.len() && (#[trigger] entries[i]).alive()
                && operation.rewritten_entries(entries)[j] == operation.rewritten_entry(entries[i]),
{
    let alive = |entry: ManifestEntry<T>| entry.alive();
    let live = entries.filter(alive);
    crate::seqs::lemma_filter_members(entries, alive);
    assert(alive(live[j]) && entries.contains(live[j]));
    let i = choose|i: int| 0 <= i < entries.len() && entries[i] == live[j];
    assert(entries[i].alive());
}

/// After a rewrite the operation has nothing left to remove from the manifest: a second overwrite
/// of the same files leaves it alone.
pub proof fn law_rewrite_is_settled<T: TableTypes>(
    operation: OverwriteOperationView,
    entries: Seq<ManifestEntry<T>>,
)
    ensures
        !operation.touches(operation.rewritten_entries(entries)),
{
    let written = operation.rewritten_entries(entries);
    assert forall|j: int| 0 <= j < written.len() implies !operation.removes(
        #[trigger] written[j],
    ) by {
        law_rewrite_lists_live_entries_only(operation, entries, j);
    }
}

/// A file that one overwrite removed does not come back when a later overwrite rewrites the same
/// manifest: its entry is left out.
pub proof fn law_removed_file_stays_removed<T: TableTypes>(
    first: OverwriteOperationView,
    second: OverwriteOperationView,
    entries: Seq<ManifestEntry<T>>,
    k: int,
)
    requires
        0 <= k < second.rewritten_entries(first.rewritten_entries(entries)).len(),
    ensures
        !first.deleted_file_paths.contains(
            second.rewritten_entries(first.rewritten_entries(entries))[k].data_file.file_path@,
        ),
{
    let once = first.rewritten_entries(entries);
    law_rewrite_lists_live_entries_only(second, once, k);
    let j = choose|j: int|
        0 <= j < once.len() && (#[trigger] once[j]).alive() && second.rewritten_entries(once)[k]
            == second.rewritten_entry(once[j]);
    law_rewrite_is_settled(first, entries);
    assert(!first.removes(once[j]));
}

/// A rewritten manifest keeps the schema, the partition spec and the key metadata of the one it
/// replaces, whatever the table's own are, and belongs to the operation's snapshot.
pub proof fn law_rewrite_keeps_partition_spec<T: TableTypes>(
    operation: OverwriteOperationView,
    table: TableMetadata<T>,
    manifest_file: ManifestFile<T>,
    manifest: ManifestView<T>,
    id: Uuid,
)
    ensures
        operation.rewrite(table, manifest_file, manifest, id).metadata == manifest.metadata,
        operation.rewrite(table, manifest_file, manifest, id).key_metadata
            == manifest_file.key_metadata,
        operation.rewrite(table, manifest_file, manifest, id).snapshot_id == Some(
            operation.snapshot_id,
        ),
{
}

/// Whether two manifests list the same files under the same statuses, in the same order.
pub open spec fn same_files<T: TableTypes>(
    left: Seq<ManifestEntry<T>>,
    right: Seq<ManifestEntry<T>>,
) -> bool {
    &&& left.len() == right.len()
    &&& forall|i: int|
        0 <= i < left.len() ==> {
            &&& (#[trigger] left[i]).status == right[i].status
            &&& left[i].data_file == right[i].data_file
        }
}

/// What a caller answers in one walk over the manifests of a table.
#[verifier::reject_recursive_types(T)]
pub struct ManifestStore<T: TableTypes> {
    /// The manifest list of a snapshot.
    pub list: spec_fn(Snapshot<T>) -> Result<Seq<ManifestFile<T>>, T::Failure>,
    /// The contents of a manifest.
    pub load: spec_fn(ManifestFile<T>) -> Result<ManifestView<T>, T::Failure>,
    /// What comes of writing a manifest.
    pub write: spec_fn(ManifestRewriteView<T>) -> Result<ManifestFile<T>, T::Failure>,
    /// The identifier under which the manifest at a place of the new list is rewritten.
    pub ids: spec_fn(int) -> Uuid,
}

impl<T: TableTypes> ManifestStore<T> {
    /// The answer to a state of the walk.
    pub open spec fn reply(self, state: ExistingManifestsView<T>) -> ExistingManifestsReply<T> {
        match state {
            ExistingManifestsView::LoadList { snapshot, .. } => ExistingManifestsReply::List(
                (self.list)(snapshot),
            ),
            ExistingManifestsView::LoadManifest { current, .. } => {
                ExistingManifestsReply::Manifest((self.load)(current))
            },
            ExistingManifestsView::WriteManifest { rewrite, .. } => {
                ExistingManifestsReply::Written((self.write)(rewrite))
            },
            ExistingManifestsView::Finished(_) => ExistingManifestsReply::List(Ok(Seq::empty())),
        }
    }

    /// The identifier that a state of the walk draws, should it rewrite a manifest.
    pub open spec fn id(self, state: ExistingManifestsView<T>) -> Uuid {
        match state {
            ExistingManifestsView::LoadManifest { progress, .. } => (self.ids)(
                progress.kept.len() as int,
            ),
            _ => (self.ids)(0),
        }
    }

    /// The state after `n` answers.
    pub open spec fn walk(self, state: ExistingManifestsView<T>, n: nat) -> ExistingManifestsView<
        T,
    >
        decreases n,
    {
        if n == 0 {
            state
        } else {
            self.walk(state.step(self.reply(state), self.id(state)), (n - 1) as nat)
        }
    }

    /// The manifests that are written in the course of `n` answers, in order.
    pub open spec fn writes(self, state: ExistingManifestsView<T>, n: nat) -> Seq<
        ManifestRewriteView<T>,
    >
        decreases n,
    {
        if n == 0 {
            Seq::empty()
        } else {
            let later = self.writes(state.step(self.reply(state), self.id(state)), (n - 1) as nat);
            match state {
                ExistingManifestsView::WriteManifest { rewrite, .. } => seq![rewrite] + later,
                _ => later,
            }
        }
    }

    /// The manifests to be written in place of those, among some manifests of which the first
    /// takes place `k` of the new list, that the operation removes a file of.
    pub open spec fn rewrites(
        self,
        operation: OverwriteOperationView,
        table: TableMetadata<T>,
        manifests: Seq<ManifestFile<T>>,
        k: int,
    ) -> Seq<ManifestRewriteView<T>>
        decreases manifests.len(),
    {
        if manifests.len() == 0 {
            Seq::empty()
        } else {
            let later = self.rewrites(operation, table, manifests.drop_first(), k + 1);
            match (self.load)(manifests[0]) {
                Ok(manifest) if operation.touches(manifest.entries) => seq![
                    operation.rewrite(table, manifests[0], manifest, (self.ids)(k)),
                ] + later,
                _ => later,
            }
        }
    }

    /// What becomes of one manifest, which takes place `k` of the new list: it is kept, or
    /// replaced where the operation removes a file of it.
    pub open spec fn settle(
        self,
        operation: OverwriteOperationView,
        table: TableMetadata<T>,
        manifest_file: ManifestFile<T>,
        k: int,
    ) -> Result<ManifestFile<T>, T::Failure> {
        match (self.load)(manifest_file) {
            Err(failure) => Err(failure),
            Ok(manifest) => if operation.touches(manifest.entries) {
                (self.write)(operation.rewrite(table, manifest_file, manifest, (self.ids)(k)))
            } else {
                Ok(manifest_file)
            },
        }
    }

    /// What becomes of each of some manifests, of which the first takes place `k`.
    pub open spec fn settle_all(
        self,
        operation: OverwriteOperationView,
        table: TableMetadata<T>,
        manifests: Seq<ManifestFile<T>>,
        k: int,
    ) -> Seq<Result<ManifestFile<T>, T::Failure>> {
        Seq::new(manifests.len(), |j: int| self.settle(operation, table, manifests[j], k + j))
    }

    /// The manifest list of the new snapshot before its own manifests are added: every manifest
    /// that may list live files, kept or replaced, in order.
    pub open spec fn outcome(
        self,
        operation: OverwriteOperationView,
        table: TableMetadata<T>,
    ) -> Result<Seq<ManifestFile<T>>, T::Failure> {
        match table.current_snapshot {
            None => Ok(Seq::empty()),
            Some(snapshot) => match (self.list)(snapshot) {
                Err(failure) => Err(failure),
                Ok(list) => crate::seqs::collect(
                    self.settle_all(operation, table, crate::existing::live_manifests(list), 0),
                ),
            },
        }
    }

    /// The manifests that a walk over the table has to write: one in place of each manifest that
    /// may list live files and that the operation removes a file of, in order.
    pub open spec fn due_writes(
        self,
        operation: OverwriteOperationView,
        table: TableMetadata<T>,
    ) -> Seq<ManifestRewriteView<T>> {
        match table.current_snapshot {
            None => Seq::empty(),
            Some(snapshot) => match (self.list)(snapshot) {
                Err(_) => Seq::empty(),
                Ok(list) => self.rewrites(
                    operation,
                    table,
                    crate::existing::live_manifests(list),
                    0,
                ),
            },
        }
    }
}

impl<T: TableTypes> ManifestStore<T> {
    /// Whether one of the manifests lists `file` as live.
    pub open spec fn lists_live(self, list: Seq<ManifestFile<T>>, file: DataFile<T>) -> bool {
        exists|k: int, i: int| #[trigger] self.lists_live_at(list, k, i, file)
    }

    /// Whether entry `i` of manifest `k` lists `file` as live.
    pub open spec fn lists_live_at(
        self,
        list: Seq<ManifestFile<T>>,
        k: int,
        i: int,
        file: DataFile<T>,
    ) -> bool {
        &&& 0 <= k < list.len()
        &&& (self.load)(list[k]) matches Ok(manifest)
        &&& 0 <= i < manifest.entries.len()
        &&& !(manifest.entries[i].status is Deleted)
        &&& manifest.entries[i].data_file == file
    }

    /// The files that the manifests of a list hold as live.
    pub open spec fn live_files(self, list: Seq<ManifestFile<T>>) -> Set<DataFile<T>> {
        Set::new(|file: DataFile<T>| self.lists_live(list, file))
    }

    /// Whether a manifest can be read and lists `entries`, as far as their statuses and files go.
    pub open spec fn reads_as(
        self,
        manifest_file: ManifestFile<T>,
        entries: Seq<ManifestEntry<T>>,
    ) -> bool {
        (self.load)(manifest_file) matches Ok(manifest) && same_files(manifest.entries, entries)
    }

    /// Whether a manifest that was written reads back with the statuses and files that were
    /// written to it.
    pub open spec fn reads_back(self) -> bool {
        forall|rewrite: ManifestRewriteView<T>|
            (#[trigger] (self.write)(rewrite)) matches Ok(manifest_file) ==> self.reads_as(
                manifest_file,
                rewrite.entries,
            )
    }

    /// Whether the manifests of a list that claim to have neither added nor existing files hold
    /// no live file.
    pub open spec fn counts_are_true(self, list: Seq<ManifestFile<T>>) -> bool {
        forall|k: int, i: int, file: DataFile<T>| #[trigger]
            self.lists_live_at(list, k, i, file) ==> list[k].has_added_files
                || list[k].has_existing_files
    }
}

/// A walk's result as its last state holds it.
pub open spec fn finished<T: TableTypes>(
    result: Result<Seq<ManifestFile<T>>, T::Failure>,
) -> ExistingManifestsView<T> {
    match result {
        Ok(kept) => ExistingManifestsView::Finished(Ok(kept)),
        Err(failure) => ExistingManifestsView::Finished(Err(ErrorView::Outside(failure))),
    }
}

/// What is kept already, followed by a further result.
spec fn kept_then<T: TableTypes>(
    kept: Seq<ManifestFile<T>>,
    more: Result<Seq<ManifestFile<T>>, T::Failure>,
) -> Result<Seq<ManifestFile<T>>, T::Failure> {
    match more {
        Ok(manifests) => Ok(kept + manifests),
        Err(failure) => Err(failure),
    }
}

proof fn lemma_walk_rest<T: TableTypes>(store: ManifestStore<T>, progress: ProgressView<T>) -> (n:
    nat)
    ensures
        store.walk(progress.proceed(), n) == finished(
            kept_then(
                progress.kept,
                crate::seqs::collect(
                    store.settle_all(
                        progress.operation,
                        progress.table,
                        progress.rest,
                        progress.kept.len() as int,
                    ),
                ),
            ),
        ),
        crate::seqs::collect(
            store.settle_all(
                progress.operation,
                progress.table,
                progress.rest,
                progress.kept.len() as int,
            ),
        ) is Ok ==> store.writes(progress.proceed(), n) == store.rewrites(
            progress.operation,
            progress.table,
            progress.rest,
            progress.kept.len() as int,
        ),
        n <= 2 * progress.rest.len(),
    decreases progress.rest.len(),
{
    let k = progress.kept.len() as int;
    let operation = progress.operation;
    let table = progress.table;
    let all = store.settle_all(operation, table, progress.rest, k);
    let start = progress.proceed();
    if progress.rest.len() == 0 {
        assert(progress.kept + Seq::<ManifestFile<T>>::empty() =~= progress.kept);
        0
    } else {
        let current = progress.rest[0];
        let tail = ProgressView { rest: progress.rest.drop_first(), ..progress };
        let loaded = start.step(store.reply(start), store.id(start));
        assert(all[0] == store.settle(operation, table, current, k));
        assert(all.drop_first() =~= store.settle_all(operation, table, tail.rest, k + 1));
        match store.settle(operation, table, current, k) {
            Err(failure) => {
                let last = finished::<T>(Err(failure));
                if loaded is WriteManifest {
                    assert(loaded.step(store.reply(loaded), store.id(loaded)) == last);
                    reveal_with_fuel(ManifestStore::walk, 3);
                    2
                } else {
                    assert(loaded == last);
                    reveal_with_fuel(ManifestStore::walk, 2);
                    1
                }
            },
            Ok(manifest_file) => {
                let next = ProgressView { kept: tail.kept.push(manifest_file), ..tail };
                let n = lemma_walk_rest(store, next);
                match crate::seqs::collect(store.settle_all(operation, table, next.rest, k + 1)) {
                    Ok(manifests) => {
                        assert(next.kept + manifests =~= progress.kept + (seq![manifest_file]
                            + manifests));
                    },
                    Err(_) => {},
                }
                if loaded is WriteManifest {
                    assert(loaded.step(store.reply(loaded), store.id(loaded)) == next.proceed());
                    assert(store.walk(loaded, n + 1) == store.walk(next.proceed(), n));
                    assert(store.walk(start, n + 2) == store.walk(loaded, n + 1));
                    let rewrite = loaded->rewrite;
                    assert(store.writes(loaded, n + 1) == seq![rewrite] + store.writes(
                        next.proceed(),
                        n,
                    ));
                    assert(store.writes(start, n + 2) == store.writes(loaded, n + 1));
                    n + 2
                } else {
                    assert(loaded == next.proceed());
                    assert(store.walk(start, n + 1) == store.walk(loaded, n));
                    assert(store.writes(start, n + 1) == store.writes(loaded, n));
                    n + 1
                }
            },
        }
    }
}

proof fn lemma_walk_end<T: TableTypes>(
    store: ManifestStore<T>,
    operation: OverwriteOperationView,
    table: TableMetadata<T>,
) -> (n: nat)
    ensures
        store.walk(ExistingManifestsView::start(operation, table), n) == finished(
            store.outcome(operation, table),
        ),
        store.outcome(operation, table) is Ok ==> store.writes(
            ExistingManifestsView::start(operation, table),
            n,
        ) == store.due_writes(operation, table),
{
    let start = ExistingManifestsView::start(operation, table);
    match table.current_snapshot {
        None => 0,
        Some(snapshot) => {
            let listed = start.step(store.reply(start), store.id(start));
            match (store.list)(snapshot) {
                Err(failure) => {
                    assert(store.walk(listed, 0) == listed);
                    assert(store.walk(start, 1) == store.walk(listed, 0));
                    1
                },
                Ok(list) => {
                    let progress = ProgressView {
                        operation,
                        table,
                        rest: crate::existing::live_manifests(list),
                        kept: Seq::empty(),
                    };
                    let n = lemma_walk_rest(store, progress);
                    let more = crate::seqs::collect(
                        store.settle_all(operation, table, progress.rest, 0),
                    );
                    if more is Ok {
                        assert(progress.kept + more->Ok_0 =~= more->Ok_0);
                    }
                    assert(store.walk(start, n + 1) == store.walk(listed, n));
                    assert(store.writes(start, n + 1) == store.writes(listed, n));
                    n + 1
                },
            }
        },
    }
}

/// Answered by any store, the walk over the manifests of a table ends, and ends with the
/// outcome: every manifest that may list live files is kept as it is or replaced, or the first
/// failure is passed on.
pub proof fn law_walk_reaches_outcome<T: TableTypes>(
    store: ManifestStore<T>,
    operation: OverwriteOperationView,
    table: TableMetadata<T>,
)
    ensures
        exists|n: nat|
            #[trigger] store.walk(ExistingManifestsView::start(operation, table), n) == finished(
                store.outcome(operation, table),
            ),
{
    let n = lemma_walk_end(store, operation, table);
    assert(store.walk(ExistingManifestsView::start(operation, table), n) == finished(
        store.outcome(operation, table),
    ));
}

/// A walk ends with one result only, and having written the same manifests.
proof fn lemma_one_end<T: TableTypes>(
    store: ManifestStore<T>,
    state: ExistingManifestsView<T>,
    m: nat,
    n: nat,
)
    requires
        store.walk(state, m) is Finished,
        store.walk(state, n) is Finished,
    ensures
        store.walk(state, m) == store.walk(state, n),
        store.writes(state, m) == store.writes(state, n),
    decreases m + n,
{
    let next = state.step(store.reply(state), store.id(state));
    if m > 0 && n > 0 {
        lemma_one_end(store, next, (m - 1) as nat, (n - 1) as nat);
    } else if m > 0 {
        assert(next == state);
        lemma_one_end(store, next, (m - 1) as nat, n);
    } else if n > 0 {
        assert(next == state);
        lemma_one_end(store, next, m, (n - 1) as nat);
    }
}

/// A walk that ends, ends with the outcome and with nothing else. Where it ends well it has
/// written exactly the manifests that were due, each once and in order.
pub proof fn law_ended_walk_has_the_outcome<T: TableTypes>(
    store: ManifestStore<T>,
    operation: OverwriteOperationView,
    table: TableMetadata<T>,
    n: nat,
)
    requires
        store.walk(ExistingManifestsView::start(operation, table), n) is Finished,
    ensures
        store.walk(ExistingManifestsView::start(operation, table), n) == finished(
            store.outcome(operation, table),
        ),
        store.outcome(operation, table) is Ok ==> store.writes(
            ExistingManifestsView::start(operation, table),
            n,
        ) == store.due_writes(operation, table),
{
    let m = lemma_walk_end(store, operation, table);
    lemma_one_end(store, ExistingManifestsView::start(operation, table), m, n);
}

/// The new list holds, in order, what becomes of each manifest that may list live files: the
/// manifest itself where the operation removes no file of it, and else the one written in its
/// place.
pub proof fn law_new_list_settles_each_live_manifest<T: TableTypes>(
    store: ManifestStore<T>,
    operation: OverwriteOperationView,
    table: TableMetadata<T>,
    snapshot: Snapshot<T>,
    list: Seq<ManifestFile<T>>,
    kept: Seq<ManifestFile<T>>,
)
    requires
        table.current_snapshot == Some(snapshot),
        (store.list)(snapshot) == Ok::<Seq<ManifestFile<T>>, T::Failure>(list),
        store.outcome(operation, table) == Ok::<Seq<ManifestFile<T>>, T::Failure>(kept),
    ensures
        kept.len() == crate::existing::live_manifests(list).len(),
        forall|k: int|
            0 <= k < kept.len() ==> store.settle(
                operation,
                table,
                crate::existing::live_manifests(list)[k],
                k,
            ) == Ok::<ManifestFile<T>, T::Failure>(#[trigger] kept[k]),
{
    let live = crate::existing::live_manifests(list);
    let all = store.settle_all(operation, table, live, 0);
    crate::seqs::lemma_collect(all);
    assert forall|k: int| 0 <= k < kept.len() implies store.settle(operation, table, live[k], k)
        == Ok::<ManifestFile<T>, T::Failure>(#[trigger] kept[k]) by {
        assert(all[k] == Ok::<ManifestFile<T>, T::Failure>(kept[k]));
    }
}

/// Where a manifest cannot be read or written the walk fails, and with the failure of the first
/// such manifest.
pub proof fn law_first_failure_is_the_outcome<T: TableTypes>(
    store: ManifestStore<T>,
    operation: OverwriteOperationView,
    table: TableMetadata<T>,
    snapshot: Snapshot<T>,
    list: Seq<ManifestFile<T>>,
    k: int,
    failure: T::Failure,
)
    requires
        table.current_snapshot == Some(snapshot),
        (store.list)(snapshot) == Ok::<Seq<ManifestFile<T>>, T::Failure>(list),
        0 <= k < crate::existing::live_manifests(list).len(),
        store.settle(operation, table, crate::existing::live_manifests(list)[k], k) == Err::<
            ManifestFile<T>,
            T::Failure,
        >(failure),
        forall|j: int|
            0 <= j < k ==> store.settle(
                operation,
                table,
                #[trigger] crate::existing::live_manifests(list)[j],
                j,
            ) is Ok,
    ensures
        store.outcome(operation, table) == Err::<Seq<ManifestFile<T>>, T::Failure>(failure),
{
    let live = crate::existing::live_manifests(list);
    let all = store.settle_all(operation, table, live, 0);
    crate::seqs::lemma_collect(all);
    assert(all[k] == Err::<ManifestFile<T>, T::Failure>(failure));
    assert forall|j: int| 0 <= j < k implies (#[trigger] all[j]) is Ok by {
        assert(all[j] == store.settle(operation, table, live[j], j));
    }
}

/// A manifest of the new list holds as live the files that the manifest in whose place it stands
/// held as live, but for those that the operation removes.
proof fn lemma_settled_live_files<T: TableTypes>(
    store: ManifestStore<T>,
    operation: OverwriteOperationView,
    table: TableMetadata<T>,
    before: ManifestFile<T>,
    after: ManifestFile<T>,
    k: int,
    file: DataFile<T>,
)
    requires
        store.reads_back(),
        store.settle(operation, table, before, k) == Ok::<ManifestFile<T>, T::Failure>(after),
    ensures
        store.lists_live(seq![after], file) <==> store.lists_live(seq![before], file)
            && !operation.deleted_file_paths.contains(file.file_path@),
{
    let manifest = (store.load)(before)->Ok_0;
    if operation.touches(manifest.entries) {
        let rewrite = operation.rewrite(table, before, manifest, (store.ids)(k));
        assert((store.write)(rewrite) == Ok::<ManifestFile<T>, T::Failure>(after));
        let written = operation.rewritten_entries(manifest.entries);
        assert(store.reads_as(after, written));
        let read = (store.load)(after)->Ok_0.entries;
        if store.lists_live(seq![after], file) {
            let (z, j) = choose|z: int, j: int| #[trigger]
                store.lists_live_at(seq![after], z, j, file);
            assert(read[j].status == written[j].status);
            law_rewrite_lists_live_entries_only(operation, manifest.entries, j);
            let i = choose|i: int|
                0 <= i < manifest.entries.len() && (#[trigger] manifest.entries[i]).alive()
                    && written[j] == operation.rewritten_entry(manifest.entries[i]);
            assert(store.lists_live_at(seq![before], 0, i, file));
        }
        if store.lists_live(seq![before], file) && !operation.deleted_file_paths.contains(
            file.file_path@,
        ) {
            let (z, i) = choose|z: int, i: int| #[trigger]
                store.lists_live_at(seq![before], z, i, file);
            law_rewrite_lists_every_live_entry(operation, manifest.entries, i);
            let entry = ManifestEntry { status: ManifestStatus::Existing, ..manifest.entries[i] };
            let j = choose|j: int| 0 <= j < written.len() && written[j] == entry;
            assert(read[j].status == written[j].status);
            assert(store.lists_live_at(seq![after], 0, j, file));
        }
    } else {
        assert(after == before);
        if store.lists_live(seq![before], file) {
            let (z, i) = choose|z: int, i: int| #[trigger]
                store.lists_live_at(seq![before], z, i, file);
            assert(!operation.removes(manifest.entries[i]));
        }
    }
}

/// A list holds a file as live where one of its manifests does.
proof fn lemma_lists_live_in_one<T: TableTypes>(
    store: ManifestStore<T>,
    list: Seq<ManifestFile<T>>,
    file: DataFile<T>,
)
    ensures
        store.lists_live(list, file) <==> exists|k: int|
            0 <= k < list.len() && store.lists_live(seq![#[trigger] list[k]], file),
{
    if store.lists_live(list, file) {
        let (k, i) = choose|k: int, i: int| #[trigger] store.lists_live_at(list, k, i, file);
        assert(store.lists_live_at(seq![list[k]], 0, i, file));
    }
    if exists|k: int| 0 <= k < list.len() && store.lists_live(seq![#[trigger] list[k]], file) {
        let k = choose|k: int|
            0 <= k < list.len() && store.lists_live(seq![#[trigger] list[k]], file);
        let (z, i) = choose|z: int, i: int| #[trigger]
            store.lists_live_at(seq![list[k]], z, i, file);
        assert(store.lists_live_at(list, k, i, file));
    }
}

/// An overwrite removes from the table the files that it names, and no others: the manifests of
/// the new list hold as live exactly the live files of the current snapshot whose paths are not
/// among the removed ones. This rests on written manifests reading back with the statuses and
/// files written to them, and on manifests without live files being the only ones that claim to
/// have none.
pub proof fn law_overwrite_removes_exactly_the_named_files<T: TableTypes>(
    store: ManifestStore<T>,
    operation: OverwriteOperationView,
    table: TableMetadata<T>,
    snapshot: Snapshot<T>,
    list: Seq<ManifestFile<T>>,
    kept: Seq<ManifestFile<T>>,
)
    requires
        table.current_snapshot == Some(snapshot),
        (store.list)(snapshot) == Ok::<Seq<ManifestFile<T>>, T::Failure>(list),
        store.outcome(operation, table) == Ok::<Seq<ManifestFile<T>>, T::Failure>(kept),
        store.reads_back(),
        store.counts_are_true(list),
    ensures
        forall|file: DataFile<T>| #[trigger]
            store.live_files(kept).contains(file) <==> store.live_files(list).contains(file)
                && !operation.deleted_file_paths.contains(file.file_path@),
{
    let live = crate::existing::live_manifests(list);
    let may_be_live = |manifest_file: ManifestFile<T>| crate::existing::may_be_live(manifest_file);
    crate::seqs::lemma_filter_members(list, may_be_live);
    law_new_list_settles_each_live_manifest(store, operation, table, snapshot, list, kept);
    assert forall|file: DataFile<T>| #[trigger]
        store.live_files(kept).contains(file) <==> store.live_files(list).contains(file)
            && !operation.deleted_file_paths.contains(file.file_path@) by {
        lemma_lists_live_in_one(store, kept, file);
        lemma_lists_live_in_one(store, list, file);
        if store.lists_live(kept, file) {
            let k = choose|k: int|
                0 <= k < kept.len() && store.lists_live(seq![#[trigger] kept[k]], file);
            lemma_settled_live_files(store, operation, table, live[k], kept[k], k, file);
            assert(list.contains(live[k]));
            let m = choose|m: int| 0 <= m < list.len() && list[m] == live[k];
            assert(store.lists_live(seq![list[m]], file));
        }
        if store.lists_live(list, file) && !operation.deleted_file_paths.contains(
            file.file_path@,
        ) {
            let (m, i) = choose|m: int, i: int| #[trigger] store.lists_live_at(list, m, i, file);
            assert(may_be_live(list[m]));
            assert(live.contains(list[m]));
            let k = choose|k: int| 0 <= k < live.len() && live[k] == list[m];
            assert(store.lists_live_at(seq![live[k]], 0, i, file));
            assert(store.settle(operation, table, live[k], k) == Ok::<ManifestFile<T>, T::Failure>(
                kept[k],
            ));
            lemma_settled_live_files(store, operation, table, live[k], kept[k], k, file);
            assert(store.lists_live(seq![kept[k]], file));
        }
    }
}

/// Whenever the walk over the current snapshot ends well, the manifests that it ends with hold as
/// live exactly the live files of that snapshot whose paths are not among the removed ones.
pub proof fn law_finished_walk_removes_exactly_the_named_files<T: TableTypes>(
    store: ManifestStore<T>,
    operation: OverwriteOperationView,
    table: TableMetadata<T>,
    snapshot: Snapshot<T>,
    list: Seq<ManifestFile<T>>,
    kept: Seq<ManifestFile<T>>,
    n: nat,
)
    requires
        table.current_snapshot == Some(snapshot),
        (store.list)(snapshot) == Ok::<Seq<ManifestFile<T>>, T::Failure>(list),
        store.walk(ExistingManifestsView::start(operation, table), n)
            == ExistingManifestsView::<T>::Finished(Ok(kept)),
        store.reads_back(),
        store.counts_are_true(list),
    ensures
        forall|file: DataFile<T>| #[trigger]
            store.live_files(kept).contains(file) <==> store.live_files(list).contains(file)
                && !operation.deleted_file_paths.contains(file.file_path@),
{
    law_ended_walk_has_the_outcome(store, operation, table, n);
    law_overwrite_removes_exactly_the_named_files(store, operation, table, snapshot, list, kept);
}

} // verus!
