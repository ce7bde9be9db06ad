//! What each step of the walk over the existing manifests leads to.
//!
//! A law here speaks of one call: it takes the arguments and the result of a call that was made,
//! and says how the one follows from the other.

use vstd::prelude::*;

use crate::error::Error;
use crate::existing::{
    AwaitingManifest, AwaitingManifestList, AwaitingWrite, ExistingManifests, Progress,
};
use crate::ids::Uuid;
use crate::model::{Manifest, ManifestFile, ManifestView, TableMetadata, TableTypes};
use crate::operation::OverwriteOperation;

verus! {

/// Whether a walk goes on with the manifests `rest`, having kept `kept`: the first of them is to be
/// loaded, and where there is none the walk ends with those kept.
pub open spec fn goes_on<'a, T: TableTypes>(
    state: ExistingManifests<'a, T>,
    operation: OverwriteOperation,
    table: TableMetadata<T>,
    rest: Seq<ManifestFile<T>>,
    kept: Seq<ManifestFile<T>>,
) -> bool {
    if rest.len() == 0 {
        state matches ExistingManifests::Finished(Ok(list)) && list@ == kept
    } else {
        state matches ExistingManifests::LoadManifest(wait) && {
            &&& wait.current == rest[0]
            &&& stands_at(wait.progress, operation, table, rest.drop_first(), kept)
        }
    }
}

/// Whether a walk stands before the manifests `rest`, having kept `kept`.
pub open spec fn stands_at<'a, T: TableTypes>(
    progress: Progress<'a, T>,
    operation: OverwriteOperation,
    table: TableMetadata<T>,
    rest: Seq<ManifestFile<T>>,
    kept: Seq<ManifestFile<T>>,
) -> bool {
    &&& progress.operation.deleted_file_paths@ == operation.deleted_file_paths@
    &&& progress.operation.snapshot_id == operation.snapshot_id
    &&& *progress.table == table
    &&& progress.rest@ == rest
    &&& progress.kept@ == kept
}

/// The walk starts with the list of the table's current snapshot, and ends at once with no
/// manifests where there is none.
pub proof fn law_walk_loads_the_current_list<'a, T: TableTypes>(
    operation: &'a OverwriteOperation,
    table: &'a TableMetadata<T>,
    state: ExistingManifests<'a, T>,
)
    requires
        call_ensures(OverwriteOperation::existing_manifest::<T>, (operation, table), state),
    ensures
        table.current_snapshot is None ==> (state matches ExistingManifests::Finished(Ok(kept))
            && kept@.len() == 0),
        table.current_snapshot matches Some(snapshot) ==> (state matches
            ExistingManifests::LoadList(wait) && {
            &&& *wait.snapshot == snapshot
            &&& *wait.table == *table
            &&& wait.operation.deleted_file_paths@ == operation.deleted_file_paths@
            &&& wait.operation.snapshot_id == operation.snapshot_id
        }),
{
}

/// The walk goes on with the manifests of the list that have added or existing files, in order and
/// whatever their content; a list that cannot be read ends it with the failure.
pub proof fn law_walk_goes_through_manifests_with_live_files<'a, T: TableTypes>(
    wait: AwaitingManifestList<'a, T>,
    reply: Result<Vec<ManifestFile<T>>, T::Failure>,
    state: ExistingManifests<'a, T>,
)
    requires
        call_ensures(AwaitingManifestList::<'a, T>::resume, (wait, reply), state),
    ensures
        reply matches Ok(list) ==> goes_on(
            state,
            *wait.operation,
            *wait.table,
            list@.filter(
                |manifest_file: ManifestFile<T>|
                    manifest_file.has_added_files || manifest_file.has_existing_files,
            ),
            Seq::empty(),
        ),
        reply matches Err(failure) ==> (state matches ExistingManifests::Finished(
            Err(Error::Outside(cause)),
        ) && cause == failure),
{
    let id = Uuid { bits: 0 };
    assert(state@ == wait@.step(crate::existing::list_reply(reply), id));
    if reply is Ok {
        crate::manifest_laws::law_manifests_with_live_files_are_looked_at(reply->Ok_0@);
    }
}

/// A manifest without live files of removed paths is kept as it is. Any other is to be replaced,
/// under the given identifier. One that cannot be read ends the walk with the failure.
pub proof fn law_manifest_is_kept_or_replaced<'a, T: TableTypes>(
    wait: AwaitingManifest<'a, T>,
    reply: Result<Manifest<T>, T::Failure>,
    id: Uuid,
    state: ExistingManifests<'a, T>,
)
    requires
        call_ensures(AwaitingManifest::<'a, T>::resume_as, (wait, reply, id), state),
    ensures
        reply matches Ok(manifest) ==> if crate::manifest_laws::lists_live_path(
            manifest.entries@,
            wait.progress.operation.deleted_file_paths@,
        ) {
            state matches ExistingManifests::WriteManifest(next) && {
                &&& stands_at(
                    next.progress,
                    *wait.progress.operation,
                    *wait.progress.table,
                    wait.progress.rest@,
                    wait.progress.kept@,
                )
                &&& crate::manifest_laws::replaces(
                    crate::operation_laws::shown(next.rewrite),
                    wait.progress.operation.deleted_file_paths@,
                    wait.progress.operation.snapshot_id,
                    *wait.progress.table,
                    wait.current,
                    (ManifestView { metadata: manifest.metadata, entries: manifest.entries@ }),
                    id,
                )
            }
        } else {
            goes_on(
                state,
                *wait.progress.operation,
                *wait.progress.table,
                wait.progress.rest@,
                wait.progress.kept@.push(wait.current),
            )
        },
        reply matches Err(failure) ==> (state matches ExistingManifests::Finished(
            Err(Error::Outside(cause)),
        ) && cause == failure),
{
    if reply is Ok {
        let operation = wait.progress.operation@;
        let manifest = reply->Ok_0@;
        crate::manifest_laws::law_only_manifests_with_removed_files_are_touched(
            operation,
            manifest.entries,
        );
        crate::manifest_laws::law_rewrite_replaces_the_manifest(
            operation,
            *wait.progress.table,
            wait.current,
            manifest,
            id,
        );
    }
}

/// A manifest without live files of removed paths is kept as it is. Any other is to be replaced,
/// under an identifier of version 7. One that cannot be read ends the walk with the failure.
pub proof fn law_manifest_is_kept_or_replaced_under_a_new_name<'a, T: TableTypes>(
    wait: AwaitingManifest<'a, T>,
    reply: Result<Manifest<T>, T::Failure>,
    state: ExistingManifests<'a, T>,
)
    requires
        call_ensures(AwaitingManifest::<'a, T>::resume, (wait, reply), state),
    ensures
        reply matches Ok(manifest) ==> if crate::manifest_laws::lists_live_path(
            manifest.entries@,
            wait.progress.operation.deleted_file_paths@,
        ) {
            state matches ExistingManifests::WriteManifest(next) && {
                &&& stands_at(
                    next.progress,
                    *wait.progress.operation,
                    *wait.progress.table,
                    wait.progress.rest@,
                    wait.progress.kept@,
                )
                &&& crate::operation_laws::replaces_under_new_name(
                    next.rewrite,
                    *wait.progress.operation,
                    *wait.progress.table,
                    wait.current,
                    manifest,
                )
            }
        } else {
            goes_on(
                state,
                *wait.progress.operation,
                *wait.progress.table,
                wait.progress.rest@,
                wait.progress.kept@.push(wait.current),
            )
        },
        reply matches Err(failure) ==> (state matches ExistingManifests::Finished(
            Err(Error::Outside(cause)),
        ) && cause == failure),
{
    let id = choose|id: Uuid|
        {
            &&& state@ == #[trigger] wait@.step(crate::existing::manifest_reply(reply), id)
            &&& state@ is WriteManifest ==> id.is_version_7()
        };
    if reply is Ok {
        let operation = wait.progress.operation@;
        let manifest = reply->Ok_0@;
        crate::manifest_laws::law_only_manifests_with_removed_files_are_touched(
            operation,
            manifest.entries,
        );
        crate::manifest_laws::law_rewrite_replaces_the_manifest(
            operation,
            *wait.progress.table,
            wait.current,
            manifest,
            id,
        );
    }
}

/// A manifest that was written is kept in the place of the one that it replaces; one that cannot
/// be written ends the walk with the failure.
pub proof fn law_written_manifest_is_kept<'a, T: TableTypes>(
    wait: AwaitingWrite<'a, T>,
    reply: Result<ManifestFile<T>, T::Failure>,
    state: ExistingManifests<'a, T>,
)
    requires
        call_ensures(AwaitingWrite::<'a, T>::resume, (wait, reply), state),
    ensures
        reply matches Ok(manifest_file) ==> goes_on(
            state,
            *wait.progress.operation,
            *wait.progress.table,
            wait.progress.rest@,
            wait.progress.kept@.push(manifest_file),
        ),
        reply matches Err(failure) ==> (state matches ExistingManifests::Finished(
            Err(Error::Outside(cause)),
        ) && cause == failure),
{
    let id = Uuid { bits: 0 };
    assert(state@ == wait@.step(crate::existing::ExistingManifestsReply::Written(reply), id));
}

} // verus!
