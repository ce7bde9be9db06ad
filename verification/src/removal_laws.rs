//! What an overwrite does to each single entry: none is lost, none is doubled, and none is touched
//! a second time.

use vstd::prelude::*;

use crate::existing::ExistingManifestsView;
use crate::model::{
    DataFile, ManifestEntry, ManifestFile, ManifestStatus, Snapshot, TableMetadata, TableTypes,
};
use crate::operation::{ManifestRewriteView, OverwriteOperationView};
use crate::overwrite_laws::ManifestStore;

verus! {

/// The files that a manifest lists as live, in order and as often as it lists them.
pub open spec fn live_files_of<T: TableTypes>(entries: Seq<ManifestEntry<T>>) -> Seq<DataFile<T>> {
    entries.filter(|entry: ManifestEntry<T>| !(entry.status is Deleted)).map_values(
        |entry: ManifestEntry<T>| entry.data_file,
    )
}

impl OverwriteOperationView {
    /// Whether the operation leaves a file in the table.
    pub open spec fn spares<T: TableTypes>(self, file: DataFile<T>) -> bool {
        !self.deleted_file_paths.contains(file.file_path@)
    }

    /// The live entries that the operation leaves live, in order, each carried over.
    pub open spec fn survivors<T: TableTypes>(self, entries: Seq<ManifestEntry<T>>) -> Seq<
        ManifestEntry<T>,
    > {
        entries.filter(
            |entry: ManifestEntry<T>|
                !(entry.status is Deleted) && self.spares(entry.data_file),
        ).map_values(
            |entry: ManifestEntry<T>|
                ManifestEntry { status: ManifestStatus::Existing, ..entry },
        )
    }

    /// The live entries that the operation removes, in order, each deleted by its snapshot.
    pub open spec fn deletions<T: TableTypes>(self, entries: Seq<ManifestEntry<T>>) -> Seq<
        ManifestEntry<T>,
    > {
        entries.filter(
            |entry: ManifestEntry<T>|
                !(entry.status is Deleted) && !self.spares(entry.data_file),
        ).map_values(
            |entry: ManifestEntry<T>|
                ManifestEntry {
                    status: ManifestStatus::Deleted,
                    snapshot_id: Some(self.snapshot_id),
                    ..entry
                },
        )
    }
}

proof fn lemma_rewritten_entries_push<T: TableTypes>(
    operation: OverwriteOperationView,
    entries: Seq<ManifestEntry<T>>,
    entry: ManifestEntry<T>,
)
    ensures
        operation.rewritten_entries(entries.push(entry)) == (if entry.alive() {
            operation.rewritten_entries(entries).push(operation.rewritten_entry(entry))
        } else {
            operation.rewritten_entries(entries)
        }),
{
    crate::seqs::lemma_filter_map_push(
        entries,
        entry,
        |entry: ManifestEntry<T>| entry.alive(),
        |entry: ManifestEntry<T>| operation.rewritten_entry(entry),
    );
}

/// The live entries of a rewritten manifest are the survivors of the one it replaces: each of
/// them once, in the same order, with its snapshot id, its sequence numbers and its file.
pub proof fn law_rewrite_carries_each_survivor_over_once<T: TableTypes>(
    operation: OverwriteOperationView,
    entries: Seq<ManifestEntry<T>>,
)
    ensures
        operation.rewritten_entries(entries).filter(
            |entry: ManifestEntry<T>| !(entry.status is Deleted),
        ) == operation.survivors(entries),
    decreases entries.len(),
{
    let alive = |entry: ManifestEntry<T>| !(entry.status is Deleted);
    let spared = |entry: ManifestEntry<T>|
        !(entry.status is Deleted) && operation.spares(entry.data_file);
    let carried = |entry: ManifestEntry<T>|
        ManifestEntry { status: ManifestStatus::Existing, ..entry };
    if entries.len() == 0 {
        reveal(Seq::filter);
        assert(operation.rewritten_entries(entries) =~= Seq::empty());
        assert(operation.survivors(entries) =~= Seq::empty());
    } else {
        let rest = entries.drop_last();
        let last = entries.last();
        law_rewrite_carries_each_survivor_over_once(operation, rest);
        assert(entries =~= rest.push(last));
        lemma_rewritten_entries_push(operation, rest, last);
        operation.rewritten_entries(rest).lemma_filter_push(
            operation.rewritten_entry(last),
            alive,
        );
        crate::seqs::lemma_filter_map_push(rest, last, spared, carried);
    }
}

/// The deleted entries of a rewritten manifest are those that the operation removes from the one
/// it replaces: one for each of them, in the same order, deleted by the operation's snapshot.
pub proof fn law_rewrite_marks_each_removal_once<T: TableTypes>(
    operation: OverwriteOperationView,
    entries: Seq<ManifestEntry<T>>,
)
    ensures
        operation.rewritten_entries(entries).filter(
            |entry: ManifestEntry<T>| entry.status is Deleted,
        ) == operation.deletions(entries),
    decreases entries.len(),
{
    let deleted = |entry: ManifestEntry<T>| entry.status is Deleted;
    let removed = |entry: ManifestEntry<T>|
        !(entry.status is Deleted) && !operation.spares(entry.data_file);
    let marked = |entry: ManifestEntry<T>|
        ManifestEntry {
            status: ManifestStatus::Deleted,
            snapshot_id: Some(operation.snapshot_id),
            ..entry
        };
    if entries.len() == 0 {
        reveal(Seq::filter);
        assert(operation.rewritten_entries(entries) =~= Seq::empty());
        assert(operation.deletions(entries) =~= Seq::empty());
    } else {
        let rest = entries.drop_last();
        let last = entries.last();
        law_rewrite_marks_each_removal_once(operation, rest);
        assert(entries =~= rest.push(last));
        lemma_rewritten_entries_push(operation, rest, last);
        operation.rewritten_entries(rest).lemma_filter_push(
            operation.rewritten_entry(last),
            deleted,
        );
        crate::seqs::lemma_filter_map_push(rest, last, removed, marked);
    }
}

impl<T: TableTypes> ManifestStore<T> {
    /// The files that the manifests of a list hold as live, in order and as often as they list
    /// them. A manifest that cannot be read adds none.
    pub open spec fn live_files_in(self, list: Seq<ManifestFile<T>>) -> Seq<DataFile<T>>
        decreases list.len(),
    {
        if list.len() == 0 {
            Seq::empty()
        } else {
            self.live_files_at(list[0]) + self.live_files_in(list.drop_first())
        }
    }

    /// The files that a manifest holds as live, or none where it cannot be read.
    pub open spec fn live_files_at(self, manifest_file: ManifestFile<T>) -> Seq<DataFile<T>> {
        match (self.load)(manifest_file) {
            Ok(manifest) => live_files_of(manifest.entries),
            Err(_) => Seq::empty(),
        }
    }

    /// The live entries that the operation removes from the manifests of a list, in order, each
    /// deleted by its snapshot. A manifest that cannot be read adds none.
    pub open spec fn deletions_in(
        self,
        operation: OverwriteOperationView,
        list: Seq<ManifestFile<T>>,
    ) -> Seq<ManifestEntry<T>>
        decreases list.len(),
    {
        if list.len() == 0 {
            Seq::empty()
        } else {
            self.deletions_at(operation, list[0]) + self.deletions_in(operation, list.drop_first())
        }
    }

    /// The entries that the operation removes from a manifest, or none where it cannot be read.
    pub open spec fn deletions_at(
        self,
        operation: OverwriteOperationView,
        manifest_file: ManifestFile<T>,
    ) -> Seq<ManifestEntry<T>> {
        match (self.load)(manifest_file) {
            Ok(manifest) => operation.deletions(manifest.entries),
            Err(_) => Seq::empty(),
        }
    }
}

/// The deleted entries of some manifests that are written, in order.
pub open spec fn deleted_entries<T: TableTypes>(rewrites: Seq<ManifestRewriteView<T>>) -> Seq<
    ManifestEntry<T>,
>
    decreases rewrites.len(),
{
    if rewrites.len() == 0 {
        Seq::empty()
    } else {
        rewrites[0].entries.filter(|entry: ManifestEntry<T>| entry.status is Deleted)
            + deleted_entries(rewrites.drop_first())
    }
}

/// Which files a manifest lists as live rests on the statuses and the files of its entries alone.
proof fn lemma_same_live_files<T: TableTypes>(
    left: Seq<ManifestEntry<T>>,
    right: Seq<ManifestEntry<T>>,
)
    requires
        crate::overwrite_laws::same_files(left, right),
    ensures
        live_files_of(left) == live_files_of(right),
    decreases left.len(),
{
    let alive = |entry: ManifestEntry<T>| !(entry.status is Deleted);
    let file = |entry: ManifestEntry<T>| entry.data_file;
    if left.len() == 0 {
        assert(left =~= right);
    } else {
        let before = left.drop_last();
        let after = right.drop_last();
        assert forall|i: int| 0 <= i < before.len() implies {
            &&& (#[trigger] before[i]).status == after[i].status
            &&& before[i].data_file == after[i].data_file
        } by {
            assert(before[i] == left[i]);
        }
        lemma_same_live_files(before, after);
        assert(left =~= before.push(left[left.len() - 1]));
        assert(right =~= after.push(right[left.len() - 1]));
        crate::seqs::lemma_filter_map_push(before, left[left.len() - 1], alive, file);
        crate::seqs::lemma_filter_map_push(after, right[left.len() - 1], alive, file);
    }
}

/// The live files of a rewritten manifest are those of the one it replaces that are spared.
proof fn lemma_rewritten_live_files<T: TableTypes>(
    operation: OverwriteOperationView,
    entries: Seq<ManifestEntry<T>>,
)
    ensures
        live_files_of(operation.rewritten_entries(entries)) == live_files_of(entries).filter(
            |file: DataFile<T>| operation.spares(file),
        ),
    decreases entries.len(),
{
    let alive = |entry: ManifestEntry<T>| !(entry.status is Deleted);
    let file = |entry: ManifestEntry<T>| entry.data_file;
    let spared = |file: DataFile<T>| operation.spares(file);
    if entries.len() == 0 {
        reveal(Seq::filter);
        assert(operation.rewritten_entries(entries) =~= Seq::empty());
        assert(live_files_of(operation.rewritten_entries(entries)) =~= Seq::empty());
        assert(live_files_of(entries) =~= Seq::empty());
    } else {
        let rest = entries.drop_last();
        let last = entries.last();
        lemma_rewritten_live_files(operation, rest);
        assert(entries =~= rest.push(last));
        lemma_rewritten_entries_push(operation, rest, last);
        crate::seqs::lemma_filter_map_push(
            operation.rewritten_entries(rest),
            operation.rewritten_entry(last),
            alive,
            file,
        );
        crate::seqs::lemma_filter_map_push(rest, last, alive, file);
        live_files_of(rest).lemma_filter_push(last.data_file, spared);
    }
}

/// An operation that touches no entry spares every live file and deletes nothing.
proof fn lemma_untouched<T: TableTypes>(
    operation: OverwriteOperationView,
    entries: Seq<ManifestEntry<T>>,
)
    requires
        !operation.touches(entries),
    ensures
        live_files_of(entries).filter(|file: DataFile<T>| operation.spares(file)) == live_files_of(
            entries,
        ),
        operation.deletions(entries) == Seq::<ManifestEntry<T>>::empty(),
{
    let alive = |entry: ManifestEntry<T>| !(entry.status is Deleted);
    let spared = |file: DataFile<T>| operation.spares(file);
    let files = live_files_of(entries);
    crate::seqs::lemma_filter_members(entries, alive);
    assert forall|j: int| 0 <= j < files.len() implies spared(#[trigger] files[j]) by {
        let entry = entries.filter(alive)[j];
        assert(entries.contains(entry));
        assert(!operation.removes(entry));
    }
    crate::seqs::lemma_filter_all(files, spared);
    let removed = |entry: ManifestEntry<T>|
        !(entry.status is Deleted) && !operation.spares(entry.data_file);
    crate::seqs::lemma_filter_none(entries, removed);
    assert(operation.deletions(entries) =~= Seq::empty());
}

/// A manifest of the new list holds as live the spared ones of the live files of the manifest in
/// whose place it stands, in order.
proof fn lemma_settled_at<T: TableTypes>(
    store: ManifestStore<T>,
    operation: OverwriteOperationView,
    table: TableMetadata<T>,
    before: ManifestFile<T>,
    after: ManifestFile<T>,
    k: int,
)
    requires
        store.reads_back(),
        store.settle(operation, table, before, k) == Ok::<ManifestFile<T>, T::Failure>(after),
    ensures
        store.live_files_at(after) == store.live_files_at(before).filter(
            |file: DataFile<T>| operation.spares(file),
        ),
{
    let manifest = (store.load)(before)->Ok_0;
    if operation.touches(manifest.entries) {
        let rewrite = operation.rewrite(table, before, manifest, (store.ids)(k));
        assert((store.write)(rewrite) == Ok::<ManifestFile<T>, T::Failure>(after));
        assert(store.reads_as(after, rewrite.entries));
        lemma_same_live_files((store.load)(after)->Ok_0.entries, rewrite.entries);
        lemma_rewritten_live_files(operation, manifest.entries);
    } else {
        lemma_untouched(operation, manifest.entries);
    }
}

proof fn lemma_settled_in<T: TableTypes>(
    store: ManifestStore<T>,
    operation: OverwriteOperationView,
    table: TableMetadata<T>,
    before: Seq<ManifestFile<T>>,
    after: Seq<ManifestFile<T>>,
    k: int,
)
    requires
        store.reads_back(),
        after.len() == before.len(),
        forall|j: int|
            0 <= j < after.len() ==> store.settle(operation, table, before[j], k + j) == Ok::<
                ManifestFile<T>,
                T::Failure,
            >(#[trigger] after[j]),
    ensures
        store.live_files_in(after) == store.live_files_in(before).filter(
            |file: DataFile<T>| operation.spares(file),
        ),
    decreases before.len(),
{
    let spared = |file: DataFile<T>| operation.spares(file);
    if before.len() == 0 {
        reveal(Seq::filter);
        assert(store.live_files_in(before).filter(spared) =~= Seq::empty());
    } else {
        let old_rest = before.drop_first();
        let new_rest = after.drop_first();
        assert(store.settle(operation, table, before[0], k + 0) == Ok::<
            ManifestFile<T>,
            T::Failure,
        >(after[0]));
        lemma_settled_at(store, operation, table, before[0], after[0], k);
        assert forall|j: int| 0 <= j < new_rest.len() implies store.settle(
            operation,
            table,
            old_rest[j],
            k + 1 + j,
        ) == Ok::<ManifestFile<T>, T::Failure>(#[trigger] new_rest[j]) by {
            assert(new_rest[j] == after[j + 1]);
            assert(old_rest[j] == before[j + 1]);
        }
        lemma_settled_in(store, operation, table, old_rest, new_rest, k + 1);
        Seq::filter_distributes_over_add(
            store.live_files_at(before[0]),
            store.live_files_in(old_rest),
            spared,
        );
    }
}

/// The manifests that may list live files hold all the live files of a list whose counts are true.
proof fn lemma_live_manifests_hold_all<T: TableTypes>(
    store: ManifestStore<T>,
    operation: OverwriteOperationView,
    list: Seq<ManifestFile<T>>,
)
    requires
        store.counts_are_true(list),
    ensures
        store.live_files_in(crate::existing::live_manifests(list)) == store.live_files_in(list),
        store.deletions_in(operation, crate::existing::live_manifests(list)) == store.deletions_in(
            operation,
            list,
        ),
    decreases list.len(),
{
    let live = |manifest_file: ManifestFile<T>| crate::existing::may_be_live(manifest_file);
    if list.len() == 0 {
        reveal(Seq::filter);
        assert(crate::existing::live_manifests(list) =~= list);
    } else {
        let first = list[0];
        let rest = list.drop_first();
        assert forall|k: int, i: int, file: DataFile<T>| #[trigger]
            store.lists_live_at(rest, k, i, file) implies rest[k].has_added_files
            || rest[k].has_existing_files by {
            assert(store.lists_live_at(list, k + 1, i, file));
        }
        lemma_live_manifests_hold_all(store, operation, rest);
        crate::seqs::lemma_filter_first(list, live);
        let kept = crate::existing::live_manifests(rest);
        if live(first) {
            assert((seq![first] + kept).drop_first() =~= kept);
        } else {
            if (store.load)(first) is Ok {
                let entries = (store.load)(first)->Ok_0.entries;
                let alive = |entry: ManifestEntry<T>| !(entry.status is Deleted);
                let removed = |entry: ManifestEntry<T>|
        !(entry.status is Deleted) && !operation.spares(entry.data_file);
                assert forall|i: int| 0 <= i < entries.len() implies !alive(
                    #[trigger] entries[i],
                ) by {
                    if alive(entries[i]) {
                        assert(store.lists_live_at(list, 0, i, entries[i].data_file));
                    }
                }
                crate::seqs::lemma_filter_none(entries, alive);
                crate::seqs::lemma_filter_none(entries, removed);
            }
            assert(store.live_files_at(first) =~= Seq::empty());
            assert(store.deletions_at(operation, first) =~= Seq::empty());
            assert(store.live_files_in(list) =~= store.live_files_in(rest));
            assert(store.deletions_in(operation, list) =~= store.deletions_in(operation, rest));
        }
    }
}

proof fn lemma_rewrites_mark<T: TableTypes>(
    store: ManifestStore<T>,
    operation: OverwriteOperationView,
    table: TableMetadata<T>,
    manifests: Seq<ManifestFile<T>>,
    k: int,
)
    ensures
        deleted_entries(store.rewrites(operation, table, manifests, k)) == store.deletions_in(
            operation,
            manifests,
        ),
    decreases manifests.len(),
{
    if manifests.len() > 0 {
        let rest = manifests.drop_first();
        lemma_rewrites_mark(store, operation, table, rest, k + 1);
        let later = store.rewrites(operation, table, rest, k + 1);
        match (store.load)(manifests[0]) {
            Ok(manifest) => {
                if operation.touches(manifest.entries) {
                    let rewrite = operation.rewrite(
                        table,
                        manifests[0],
                        manifest,
                        (store.ids)(k),
                    );
                    law_rewrite_marks_each_removal_once(operation, manifest.entries);
                    assert((seq![rewrite] + later).drop_first() =~= later);
                } else {
                    lemma_untouched(operation, manifest.entries);
                    assert(store.deletions_in(operation, manifests) =~= store.deletions_in(
                        operation,
                        rest,
                    ));
                }
            },
            Err(_) => {
                assert(store.deletions_in(operation, manifests) =~= store.deletions_in(
                    operation,
                    rest,
                ));
            },
        }
    }
}

/// Whenever the walk over the current snapshot ends well, the manifests that it ends with list
/// the spared ones of the files that were live, in the same order and each as often as before: no
/// survivor is lost or doubled, and no removed file is left. This rests on written manifests
/// reading back with the statuses and files written to them, and on manifests without live files
/// being the only ones that claim to have none.
pub proof fn law_walk_keeps_each_survivor_once<T: TableTypes>(
    store: ManifestStore<T>,
    operation: OverwriteOperationView,
    table: TableMetadata<T>,
    snapshot: Snapshot<T>,
    list: Seq<ManifestFile<T>>,
    kept: Seq<ManifestFile<T>>,
    n: nat,
)
    requires
        table.current_snapshot == Some(snapshot),
        (store.list)(snapshot) == Ok::<Seq<ManifestFile<T>>, T::Failure>(list),
        store.walk(ExistingManifestsView::start(operation, table), n)
            == ExistingManifestsView::<T>::Finished(Ok(kept)),
        store.reads_back(),
        store.counts_are_true(list),
    ensures
        store.live_files_in(kept) == store.live_files_in(list).filter(
            |file: DataFile<T>| operation.spares(file),
        ),
{
    let live = crate::existing::live_manifests(list);
    crate::overwrite_laws::law_ended_walk_has_the_outcome(store, operation, table, n);
    crate::overwrite_laws::law_new_list_settles_each_live_manifest(
        store,
        operation,
        table,
        snapshot,
        list,
        kept,
    );
    lemma_settled_in(store, operation, table, live, kept, 0);
    lemma_live_manifests_hold_all(store, operation, list);
}

/// Whenever the walk over the current snapshot ends well, the manifests that it wrote list one
/// deleted entry of the operation's snapshot for each live entry that the operation removes, in
/// the same order, and no other deleted entry. This rests on manifests without live files being
/// the only ones that claim to have none.
pub proof fn law_walk_marks_each_removal_once<T: TableTypes>(
    store: ManifestStore<T>,
    operation: OverwriteOperationView,
    table: TableMetadata<T>,
    snapshot: Snapshot<T>,
    list: Seq<ManifestFile<T>>,
    kept: Seq<ManifestFile<T>>,
    n: nat,
)
    requires
        table.current_snapshot == Some(snapshot),
        (store.list)(snapshot) == Ok::<Seq<ManifestFile<T>>, T::Failure>(list),
        store.walk(ExistingManifestsView::start(operation, table), n)
            == ExistingManifestsView::<T>::Finished(Ok(kept)),
        store.counts_are_true(list),
    ensures
        deleted_entries(store.writes(ExistingManifestsView::start(operation, table), n))
            == store.deletions_in(operation, list),
{
    crate::overwrite_laws::law_ended_walk_has_the_outcome(store, operation, table, n);
    lemma_rewrites_mark(store, operation, table, crate::existing::live_manifests(list), 0);
    lemma_live_manifests_hold_all(store, operation, list);
}

impl<T: TableTypes> ManifestStore<T> {
    /// Whether a manifest can be read and the operation removes no file of it.
    pub open spec fn is_settled(
        self,
        operation: OverwriteOperationView,
        manifest_file: ManifestFile<T>,
    ) -> bool {
        (self.load)(manifest_file) matches Ok(manifest) && !operation.touches(manifest.entries)
    }

    /// Whether the operation removes no file of the manifests that a state has still to look at.
    spec fn is_quiet(
        self,
        operation: OverwriteOperationView,
        state: ExistingManifestsView<T>,
    ) -> bool {
        match state {
            ExistingManifestsView::LoadList { snapshot, operation: asked, .. } => {
                &&& asked == operation
                &&& (self.list)(snapshot) matches Ok(list) ==> forall|k: int|
                    0 <= k < crate::existing::live_manifests(list).len() ==> self.is_settled(
                        operation,
                        #[trigger] crate::existing::live_manifests(list)[k],
                    )
            },
            ExistingManifestsView::LoadManifest { progress, current } => {
                &&& progress.operation == operation
                &&& self.is_settled(operation, current)
                &&& forall|k: int|
                    0 <= k < progress.rest.len() ==> self.is_settled(
                        operation,
                        #[trigger] progress.rest[k],
                    )
            },
            ExistingManifestsView::WriteManifest { .. } => false,
            ExistingManifestsView::Finished(_) => true,
        }
    }
}

proof fn lemma_quiet_walk_writes_nothing<T: TableTypes>(
    store: ManifestStore<T>,
    operation: OverwriteOperationView,
    state: ExistingManifestsView<T>,
    n: nat,
)
    requires
        store.is_quiet(operation, state),
    ensures
        store.writes(state, n) == Seq::<ManifestRewriteView<T>>::empty(),
    decreases n,
{
    if n > 0 {
        let next = state.step(store.reply(state), store.id(state));
        assert(store.is_quiet(operation, next));
        lemma_quiet_walk_writes_nothing(store, operation, next, (n - 1) as nat);
    }
}

/// An overwrite whose files are live in no manifest of the current snapshot keeps every manifest
/// that may list live files just as it is, in order, and writes none, however far it has come.
pub proof fn law_settled_list_is_left_alone<T: TableTypes>(
    store: ManifestStore<T>,
    operation: OverwriteOperationView,
    table: TableMetadata<T>,
    snapshot: Snapshot<T>,
    list: Seq<ManifestFile<T>>,
)
    requires
        table.current_snapshot == Some(snapshot),
        (store.list)(snapshot) == Ok::<Seq<ManifestFile<T>>, T::Failure>(list),
        forall|k: int|
            0 <= k < crate::existing::live_manifests(list).len() ==> store.is_settled(
                operation,
                #[trigger] crate::existing::live_manifests(list)[k],
            ),
    ensures
        exists|n: nat|
            #[trigger] store.walk(ExistingManifestsView::start(operation, table), n)
                == ExistingManifestsView::<T>::Finished(
                Ok(crate::existing::live_manifests(list)),
            ),
        forall|n: nat|
            #[trigger] store.writes(ExistingManifestsView::start(operation, table), n) == Seq::<
                ManifestRewriteView<T>,
            >::empty(),
{
    let live = crate::existing::live_manifests(list);
    let start = ExistingManifestsView::start(operation, table);
    let all = store.settle_all(operation, table, live, 0);
    crate::seqs::lemma_collect(all);
    assert forall|k: int| 0 <= k < all.len() implies #[trigger] all[k] == Ok::<
        ManifestFile<T>,
        T::Failure,
    >(live[k]) by {
        assert(store.is_settled(operation, live[k]));
    }
    match crate::seqs::collect(all) {
        Ok(values) => {
            assert forall|k: int| 0 <= k < live.len() implies values[k] == live[k] by {
                assert(all[k] == Ok::<ManifestFile<T>, T::Failure>(values[k]));
            }
            assert(values =~= live);
        },
        Err(_) => {},
    }
    crate::overwrite_laws::law_walk_reaches_outcome(store, operation, table);
    assert(store.is_quiet(operation, start));
    assert forall|n: nat| #[trigger] store.writes(start, n) == Seq::<
        ManifestRewriteView<T>,
    >::empty() by {
        lemma_quiet_walk_writes_nothing(store, operation, start, n);
    }
}

/// What a manifest becomes in an overwrite, no overwrite of the same files touches again.
proof fn lemma_settled_once<T: TableTypes>(
    store: ManifestStore<T>,
    first: OverwriteOperationView,
    second: OverwriteOperationView,
    table: TableMetadata<T>,
    before: ManifestFile<T>,
    after: ManifestFile<T>,
    k: int,
)
    requires
        store.reads_back(),
        store.settle(first, table, before, k) == Ok::<ManifestFile<T>, T::Failure>(after),
        second.deleted_file_paths == first.deleted_file_paths,
    ensures
        store.is_settled(second, after),
{
    let manifest = (store.load)(before)->Ok_0;
    let read = (store.load)(after)->Ok_0.entries;
    if first.touches(manifest.entries) {
        let rewrite = first.rewrite(table, before, manifest, (store.ids)(k));
        assert((store.write)(rewrite) == Ok::<ManifestFile<T>, T::Failure>(after));
        assert(store.reads_as(after, rewrite.entries));
        crate::overwrite_laws::law_rewrite_is_settled(first, manifest.entries);
        assert forall|i: int| 0 <= i < read.len() implies !second.removes(#[trigger] read[i]) by {
            assert(!first.removes(rewrite.entries[i]));
        }
    } else {
        assert forall|i: int| 0 <= i < read.len() implies !second.removes(#[trigger] read[i]) by {
            assert(!first.removes(read[i]));
        }
    }
}

/// A second overwrite of the same files has nothing left to do: over the list that the first one
/// ended with, it keeps every manifest that may list live files just as it is, in order, and
/// writes none, so that each deleted entry still names the snapshot that deleted it. The second
/// overwrite may belong to another snapshot and write as it likes; it reads the manifests that
/// the first one read and wrote.
pub proof fn law_second_walk_changes_nothing<T: TableTypes>(
    store: ManifestStore<T>,
    again: ManifestStore<T>,
    first: OverwriteOperationView,
    second: OverwriteOperationView,
    table: TableMetadata<T>,
    later: TableMetadata<T>,
    snapshot: Snapshot<T>,
    kept: Seq<ManifestFile<T>>,
    m: nat,
)
    requires
        store.walk(ExistingManifestsView::start(first, table), m)
            == ExistingManifestsView::<T>::Finished(Ok(kept)),
        store.reads_back(),
        second.deleted_file_paths == first.deleted_file_paths,
        later.current_snapshot == Some(snapshot),
        (again.list)(snapshot) == Ok::<Seq<ManifestFile<T>>, T::Failure>(kept),
        forall|manifest_file: ManifestFile<T>|
            #[trigger] (again.load)(manifest_file) == (store.load)(manifest_file),
    ensures
        exists|n: nat|
            #[trigger] again.walk(ExistingManifestsView::start(second, later), n)
                == ExistingManifestsView::<T>::Finished(
                Ok(crate::existing::live_manifests(kept)),
            ),
        forall|n: nat|
            #[trigger] again.writes(ExistingManifestsView::start(second, later), n) == Seq::<
                ManifestRewriteView<T>,
            >::empty(),
{
    crate::overwrite_laws::law_ended_walk_has_the_outcome(store, first, table, m);
    let live = |manifest_file: ManifestFile<T>| crate::existing::may_be_live(manifest_file);
    crate::seqs::lemma_filter_members(kept, live);
    let rest = crate::existing::live_manifests(kept);
    assert forall|k: int| 0 <= k < rest.len() implies again.is_settled(
        second,
        #[trigger] rest[k],
    ) by {
        let manifest_file = rest[k];
        assert(kept.contains(manifest_file));
        let j = choose|j: int| 0 <= j < kept.len() && kept[j] == manifest_file;
        let before = table.current_snapshot->Some_0;
        let list = (store.list)(before)->Ok_0;
        crate::overwrite_laws::law_new_list_settles_each_live_manifest(
            store,
            first,
            table,
            before,
            list,
            kept,
        );
        lemma_settled_once(
            store,
            first,
            second,
            table,
            crate::existing::live_manifests(list)[j],
            kept[j],
            j,
        );
        assert((again.load)(manifest_file) == (store.load)(manifest_file));
    }
    law_settled_list_is_left_alone(again, second, later, snapshot, kept);
}

} // verus!
