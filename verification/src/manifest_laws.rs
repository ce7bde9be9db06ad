//! Which manifests an overwrite keeps, and what it writes in place of the others.

use vstd::prelude::*;

use crate::error::ErrorView;
use crate::existing::ExistingManifestsView;
use crate::ids::Uuid;
use crate::model::{
    FormatVersion, ManifestContentType, ManifestEntry, ManifestFile, ManifestStatus, ManifestView,
    Snapshot, TableMetadata, TableTypes,
};
use crate::operation::{ManifestRewriteView, ManifestWriterKind, OverwriteOperationView};
use crate::overwrite_laws::ManifestStore;

verus! {

/// Whether one of the entries lists a file of a path in `paths` that was not deleted before.
pub open spec fn lists_live_path<T: TableTypes>(
    entries: Seq<ManifestEntry<T>>,
    paths: Set<Seq<char>>,
) -> bool {
    exists|i: int|
        0 <= i < entries.len() && !((#[trigger] entries[i]).status is Deleted) && paths.contains(
            entries[i].data_file.file_path@,
        )
}

/// Whether the writer is the one for a table format and a kind of files.
pub open spec fn writer_fits(
    writer: ManifestWriterKind,
    version: FormatVersion,
    content: ManifestContentType,
) -> bool {
    &&& version is V1 ==> writer is V1
    &&& version is V2 && content is Data ==> writer is V2Data
    &&& version is V2 && content is Deletes ==> writer is V2Deletes
    &&& version is V3 && content is Data ==> writer is V3Data
    &&& version is V3 && content is Deletes ==> writer is V3Deletes
}

/// Whether `written` lists, in order, the entries that were not deleted before: those of a path
/// in `paths` as deleted by the snapshot `snapshot_id`, the others as existing, and each otherwise
/// as it was.
pub open spec fn entries_fit<T: TableTypes>(
    written: Seq<ManifestEntry<T>>,
    entries: Seq<ManifestEntry<T>>,
    paths: Set<Seq<char>>,
    snapshot_id: i64,
) -> bool {
    let live = entries.filter(|entry: ManifestEntry<T>| !(entry.status is Deleted));
    &&& written.len() == live.len()
    &&& forall|j: int|
        0 <= j < written.len() ==> {
            &&& (#[trigger] written[j]).data_file == live[j].data_file
            &&& written[j].sequence_number == live[j].sequence_number
            &&& written[j].file_sequence_number == live[j].file_sequence_number
            &&& if paths.contains(live[j].data_file.file_path@) {
                &&& written[j].status is Deleted
                &&& written[j].snapshot_id == Some(snapshot_id)
            } else {
                &&& written[j].status is Existing
                &&& written[j].snapshot_id == live[j].snapshot_id
            }
        }
}

/// Whether `rewrite` is what an overwrite of the paths `paths` in the snapshot `snapshot_id` has to
/// write in place of a manifest, under the identifier `id`.
pub open spec fn replaces<T: TableTypes>(
    rewrite: ManifestRewriteView<T>,
    paths: Set<Seq<char>>,
    snapshot_id: i64,
    table: TableMetadata<T>,
    manifest_file: ManifestFile<T>,
    manifest: ManifestView<T>,
    id: Uuid,
) -> bool {
    &&& rewrite.path == table.location@ + "/metadata/"@ + id.hyphenated() + "-m-overwrite.avro"@
    &&& rewrite.snapshot_id == Some(snapshot_id)
    &&& rewrite.key_metadata == manifest_file.key_metadata
    &&& rewrite.metadata.schema == manifest.metadata.schema
    &&& rewrite.metadata.partition_spec == manifest.metadata.partition_spec
    &&& writer_fits(rewrite.writer, table.format_version, manifest_file.content)
    &&& entries_fit(rewrite.entries, manifest.entries, paths, snapshot_id)
}

/// The entries of a rewritten manifest are those of the one it replaces that were not deleted
/// before, in order: removed files deleted by the operation's snapshot, the others existing.
pub proof fn law_rewritten_entries_fit<T: TableTypes>(
    operation: OverwriteOperationView,
    entries: Seq<ManifestEntry<T>>,
)
    ensures
        entries_fit(
            operation.rewritten_entries(entries),
            entries,
            operation.deleted_file_paths,
            operation.snapshot_id,
        ),
{
    crate::seqs::lemma_filter_same(
        entries,
        |entry: ManifestEntry<T>| entry.alive(),
        |entry: ManifestEntry<T>| !(entry.status is Deleted),
    );
    let live = entries.filter(|entry: ManifestEntry<T>| !(entry.status is Deleted));
    assert(operation.rewritten_entries(entries).len() == live.len());
    assert forall|j: int| 0 <= j < live.len() implies (
    #[trigger] operation.rewritten_entries(entries)[j]) == operation.rewritten_entry(live[j]) by {}
}

/// The writer of a rewritten manifest is the one for the table's format version and the content of
/// the manifest that is replaced: version 1 has one writer, the later ones have one for data files
/// and one for delete files.
pub proof fn law_rewrite_uses_the_writer_of_version_and_content<T: TableTypes>(
    operation: OverwriteOperationView,
    table: TableMetadata<T>,
    manifest_file: ManifestFile<T>,
    manifest: ManifestView<T>,
    id: Uuid,
)
    ensures
        ({
            let writer = operation.rewrite(table, manifest_file, manifest, id).writer;
            let version = table.format_version;
            let content = manifest_file.content;
            &&& version == FormatVersion::V1 ==> writer == ManifestWriterKind::V1
            &&& version == FormatVersion::V2 && content == ManifestContentType::Data ==> writer
                == ManifestWriterKind::V2Data
            &&& version == FormatVersion::V2 && content == ManifestContentType::Deletes ==> writer
                == ManifestWriterKind::V2Deletes
            &&& version == FormatVersion::V3 && content == ManifestContentType::Data ==> writer
                == ManifestWriterKind::V3Data
            &&& version == FormatVersion::V3 && content == ManifestContentType::Deletes ==> writer
                == ManifestWriterKind::V3Deletes
        }),
{
}

/// What is written in place of a manifest: under the table's location, named by the identifier,
/// for the operation's snapshot, with the key metadata of the manifest list's entry and the schema
/// and partition spec of the manifest, by the writer of the table's version and the manifest's
/// content, and with its live entries, of which the removed ones are marked.
pub proof fn law_rewrite_replaces_the_manifest<T: TableTypes>(
    operation: OverwriteOperationView,
    table: TableMetadata<T>,
    manifest_file: ManifestFile<T>,
    manifest: ManifestView<T>,
    id: Uuid,
)
    ensures
        replaces(
            operation.rewrite(table, manifest_file, manifest, id),
            operation.deleted_file_paths,
            operation.snapshot_id,
            table,
            manifest_file,
            manifest,
            id,
        ),
{
    law_rewritten_entries_fit(operation, manifest.entries);
    law_rewrite_uses_the_writer_of_version_and_content(
        operation,
        table,
        manifest_file,
        manifest,
        id,
    );
}

/// A manifest has to be replaced if and only if it lists a live file of a removed path.
pub proof fn law_only_manifests_with_removed_files_are_touched<T: TableTypes>(
    operation: OverwriteOperationView,
    entries: Seq<ManifestEntry<T>>,
)
    ensures
        operation.touches(entries) <==> lists_live_path(entries, operation.deleted_file_paths),
{
    if operation.touches(entries) {
        let i = choose|i: int| 0 <= i < entries.len() && operation.removes(#[trigger] entries[i]);
        assert(!(entries[i].status is Deleted));
    }
    if lists_live_path(entries, operation.deleted_file_paths) {
        let i = choose|i: int|
            0 <= i < entries.len() && !((#[trigger] entries[i]).status is Deleted)
                && operation.deleted_file_paths.contains(entries[i].data_file.file_path@);
        assert(operation.removes(entries[i]));
    }
}

/// The manifests that a walk looks at are those with added or existing files, in order, whatever
/// their content.
pub proof fn law_manifests_with_live_files_are_looked_at<T: TableTypes>(
    list: Seq<ManifestFile<T>>,
)
    ensures
        crate::existing::live_manifests(list) == list.filter(
            |manifest_file: ManifestFile<T>|
                manifest_file.has_added_files || manifest_file.has_existing_files,
        ),
{
    crate::seqs::lemma_filter_same(
        list,
        |manifest_file: ManifestFile<T>| crate::existing::may_be_live(manifest_file),
        |manifest_file: ManifestFile<T>|
            manifest_file.has_added_files || manifest_file.has_existing_files,
    );
}

impl<T: TableTypes> ManifestStore<T> {
    /// Whether `after` stands for `before` at place `k` of the list that an overwrite ends with: as
    /// the same manifest where it lists no live file of a removed path, and else as the one
    /// written in its place.
    pub open spec fn stands_for(
        self,
        operation: OverwriteOperationView,
        table: TableMetadata<T>,
        before: ManifestFile<T>,
        k: int,
        after: ManifestFile<T>,
    ) -> bool {
        &&& (self.load)(before) matches Ok(manifest)
        &&& if lists_live_path(manifest.entries, operation.deleted_file_paths) {
            exists|rewrite: ManifestRewriteView<T>|
                {
                    &&& (#[trigger] (self.write)(rewrite)) == Ok::<ManifestFile<T>, T::Failure>(
                        after,
                    )
                    &&& replaces(
                        rewrite,
                        operation.deleted_file_paths,
                        operation.snapshot_id,
                        table,
                        before,
                        manifest,
                        (self.ids)(k),
                    )
                }
        } else {
            after == before
        }
    }

    /// Whether some manifest stands for `before` at place `k`.
    pub open spec fn succeeds(
        self,
        operation: OverwriteOperationView,
        table: TableMetadata<T>,
        before: ManifestFile<T>,
        k: int,
    ) -> bool {
        exists|after: ManifestFile<T>| #[trigger]
            self.stands_for(operation, table, before, k, after)
    }

    /// Whether what happens to `before` at place `k` fails with `failure`: it cannot be read, or
    /// lists a live file of a removed path and the one in its place cannot be written.
    pub open spec fn fails_with(
        self,
        operation: OverwriteOperationView,
        table: TableMetadata<T>,
        before: ManifestFile<T>,
        k: int,
        failure: T::Failure,
    ) -> bool {
        match (self.load)(before) {
            Err(cause) => failure == cause,
            Ok(manifest) => {
                &&& lists_live_path(manifest.entries, operation.deleted_file_paths)
                &&& exists|rewrite: ManifestRewriteView<T>|
                    {
                        &&& (#[trigger] (self.write)(rewrite)) == Err::<
                            ManifestFile<T>,
                            T::Failure,
                        >(failure)
                        &&& replaces(
                            rewrite,
                            operation.deleted_file_paths,
                            operation.snapshot_id,
                            table,
                            before,
                            manifest,
                            (self.ids)(k),
                        )
                    }
            },
        }
    }
}

proof fn lemma_settle_says<T: TableTypes>(
    store: ManifestStore<T>,
    operation: OverwriteOperationView,
    table: TableMetadata<T>,
    before: ManifestFile<T>,
    k: int,
)
    ensures
        match store.settle(operation, table, before, k) {
            Ok(after) => store.stands_for(operation, table, before, k, after),
            Err(failure) => store.fails_with(operation, table, before, k, failure),
        },
{
    match (store.load)(before) {
        Err(_) => {},
        Ok(manifest) => {
            law_only_manifests_with_removed_files_are_touched(operation, manifest.entries);
            let rewrite = operation.rewrite(table, before, manifest, (store.ids)(k));
            law_rewrite_replaces_the_manifest(
                operation,
                table,
                before,
                manifest,
                (store.ids)(k),
            );
            if operation.touches(manifest.entries) {
                assert((store.write)(rewrite) == store.settle(operation, table, before, k));
            }
        },
    }
}

/// The walk starts with the manifest list of the table's current snapshot; a table without one has
/// no manifests to keep.
pub proof fn law_walk_starts_at_the_current_snapshot<T: TableTypes>(
    operation: OverwriteOperationView,
    table: TableMetadata<T>,
)
    ensures
        table.current_snapshot is None ==> ExistingManifestsView::start(operation, table)
            == ExistingManifestsView::<T>::Finished(Ok(Seq::empty())),
        table.current_snapshot matches Some(snapshot) ==> ExistingManifestsView::start(
            operation,
            table,
        ) == (ExistingManifestsView::<T>::LoadList { operation, table, snapshot }),
{
}

/// Whenever the walk ends well, the manifests that it ends with stand, one by one and in order, for
/// those of the current list that have added or existing files, whatever their content: each as
/// itself, or replaced where it lists a live file of a removed path. No such manifest is dropped,
/// and no other is kept.
pub proof fn law_new_list_stands_for_the_live_manifests<T: TableTypes>(
    store: ManifestStore<T>,
    operation: OverwriteOperationView,
    table: TableMetadata<T>,
    snapshot: Snapshot<T>,
    kept: Seq<ManifestFile<T>>,
    n: nat,
)
    requires
        table.current_snapshot == Some(snapshot),
        store.walk(ExistingManifestsView::start(operation, table), n)
            == ExistingManifestsView::<T>::Finished(Ok(kept)),
    ensures
        (store.list)(snapshot) matches Ok(list) && {
            let live = list.filter(
                |manifest_file: ManifestFile<T>|
                    manifest_file.has_added_files || manifest_file.has_existing_files,
            );
            &&& kept.len() == live.len()
            &&& forall|k: int|
                0 <= k < kept.len() ==> store.stands_for(
                    operation,
                    table,
                    live[k],
                    k,
                    #[trigger] kept[k],
                )
            &&& forall|m: int|
                0 <= m < list.len() && ((#[trigger] list[m]).has_added_files
                    || list[m].has_existing_files) ==> exists|k: int|
                    0 <= k < kept.len() && store.stands_for(
                        operation,
                        table,
                        list[m],
                        k,
                        #[trigger] kept[k],
                    )
        },
{
    crate::overwrite_laws::law_ended_walk_has_the_outcome(store, operation, table, n);
    let list = (store.list)(snapshot)->Ok_0;
    let has_live = |manifest_file: ManifestFile<T>|
        manifest_file.has_added_files || manifest_file.has_existing_files;
    let live = list.filter(has_live);
    law_manifests_with_live_files_are_looked_at(list);
    crate::overwrite_laws::law_new_list_settles_each_live_manifest(
        store,
        operation,
        table,
        snapshot,
        list,
        kept,
    );
    assert forall|k: int| 0 <= k < kept.len() implies store.stands_for(
        operation,
        table,
        live[k],
        k,
        #[trigger] kept[k],
    ) by {
        lemma_settle_says(store, operation, table, live[k], k);
    }
    crate::seqs::lemma_filter_members(list, has_live);
    assert forall|m: int|
        0 <= m < list.len() && ((#[trigger] list[m]).has_added_files
            || list[m].has_existing_files) implies exists|k: int|
        0 <= k < kept.len() && store.stands_for(operation, table, list[m], k, #[trigger] kept[k])
        by {
        assert(has_live(list[m]));
        assert(live.contains(list[m]));
        let k = choose|k: int| 0 <= k < live.len() && live[k] == list[m];
        assert(store.stands_for(operation, table, live[k], k, kept[k]));
    }
}

/// A walk that fails has its reason: the list of the current snapshot cannot be read, or one of
/// its manifests with added or existing files cannot be read or replaced, and it is the first such
/// one. The failure is passed on as it came.
pub proof fn law_failed_walk_has_its_reason<T: TableTypes>(
    store: ManifestStore<T>,
    operation: OverwriteOperationView,
    table: TableMetadata<T>,
    error: ErrorView<T>,
    n: nat,
)
    requires
        store.walk(ExistingManifestsView::start(operation, table), n)
            == ExistingManifestsView::<T>::Finished(Err(error)),
    ensures
        table.current_snapshot matches Some(snapshot) && error is Outside && match (store.list)(
            snapshot,
        ) {
            Err(failure) => error == ErrorView::<T>::Outside(failure),
            Ok(list) => {
                let live = list.filter(
                    |manifest_file: ManifestFile<T>|
                        manifest_file.has_added_files || manifest_file.has_existing_files,
                );
                exists|k: int|
                    {
                        &&& 0 <= k < live.len()
                        &&& store.fails_with(
                            operation,
                            table,
                            #[trigger] live[k],
                            k,
                            error->Outside_0,
                        )
                        &&& forall|j: int|
                            0 <= j < k ==> store.succeeds(operation, table, #[trigger] live[j], j)
                    }
            },
        },
{
    crate::overwrite_laws::law_ended_walk_has_the_outcome(store, operation, table, n);
    let snapshot = table.current_snapshot->Some_0;
    if (store.list)(snapshot) is Ok {
        let list = (store.list)(snapshot)->Ok_0;
        let live = list.filter(
            |manifest_file: ManifestFile<T>|
                manifest_file.has_added_files || manifest_file.has_existing_files,
        );
        law_manifests_with_live_files_are_looked_at(list);
        let all = store.settle_all(operation, table, live, 0);
        crate::seqs::lemma_collect(all);
        let failure = error->Outside_0;
        let k = choose|k: int|
            {
                &&& 0 <= k < all.len()
                &&& #[trigger] all[k] == Err::<ManifestFile<T>, T::Failure>(failure)
                &&& forall|j: int| 0 <= j < k ==> (#[trigger] all[j]) is Ok
            };
        assert(all[k] == store.settle(operation, table, live[k], k));
        lemma_settle_says(store, operation, table, live[k], k);
        assert forall|j: int| 0 <= j < k implies store.succeeds(
            operation,
            table,
            #[trigger] live[j],
            j,
        ) by {
            assert(all[j] is Ok);
            assert(all[j] == store.settle(operation, table, live[j], j));
            lemma_settle_says(store, operation, table, live[j], j);
            assert(store.stands_for(operation, table, live[j], j, all[j]->Ok_0));
        }
        assert(store.fails_with(operation, table, live[k], k, failure));
    }
}

/// A walk ends well wherever nothing fails: the list of the current snapshot can be read, its
/// manifests with added or existing files can be read, and writing succeeds.
pub proof fn law_walk_without_failure_ends_well<T: TableTypes>(
    store: ManifestStore<T>,
    operation: OverwriteOperationView,
    table: TableMetadata<T>,
)
    requires
        table.current_snapshot matches Some(snapshot) ==> {
            &&& (store.list)(snapshot) matches Ok(list)
            &&& forall|m: int|
                0 <= m < list.len() && ((#[trigger] list[m]).has_added_files
                    || list[m].has_existing_files) ==> (store.load)(list[m]) is Ok
        },
        forall|rewrite: ManifestRewriteView<T>| (#[trigger] (store.write)(rewrite)) is Ok,
    ensures
        exists|n: nat|
            (#[trigger] store.walk(ExistingManifestsView::start(operation, table), n)) matches
                ExistingManifestsView::Finished(Ok(_)),
{
    let start = ExistingManifestsView::start(operation, table);
    crate::overwrite_laws::law_walk_reaches_outcome(store, operation, table);
    let n = choose|n: nat| #[trigger]
        store.walk(start, n) == crate::overwrite_laws::finished(store.outcome(operation, table));
    match store.outcome(operation, table) {
        Ok(kept) => {
            assert(store.walk(start, n) == ExistingManifestsView::<T>::Finished(Ok(kept)));
        },
        Err(failure) => {
            let error = ErrorView::<T>::Outside(failure);
            law_failed_walk_has_its_reason(store, operation, table, error, n);
            let list = (store.list)(table.current_snapshot->Some_0)->Ok_0;
            let has_live = |manifest_file: ManifestFile<T>|
                manifest_file.has_added_files || manifest_file.has_existing_files;
            let live = list.filter(has_live);
            crate::seqs::lemma_filter_members(list, has_live);
            let k = choose|k: int|
                0 <= k < live.len() && store.fails_with(
                    operation,
                    table,
                    #[trigger] live[k],
                    k,
                    failure,
                );
            assert(has_live(live[k]) && list.contains(live[k]));
            let m = choose|m: int| 0 <= m < list.len() && list[m] == live[k];
            assert((store.load)(list[m]) is Ok);
        },
    }
}

} // verus!
