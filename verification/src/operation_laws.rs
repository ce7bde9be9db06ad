//! What each operation makes of its arguments.
//!
//! A law here speaks of one call: it takes the arguments and the result of a call that was made,
//! and says how the one follows from the other.

use std::collections::HashMap;

use vstd::hash_set::StringHashSet;
use vstd::prelude::*;

use crate::action::{collect_file_paths, OverwriteAction, OverwriteActionView};
use crate::error::{Error, ErrorKind, RuleError};
use crate::ids::Uuid;
use crate::model::{
    DataFile, FormatVersion, Manifest, ManifestContentType, ManifestEntry, ManifestFile,
    ManifestView, Operation, PartitionSpec, TableMetadata, TableTypes,
};
use crate::operation::{
    manifest_path, writer_kind, ManifestRewrite, ManifestRewriteView, ManifestWriterKind,
    OverwriteOperation,
};
use crate::text::decimal_text;
use crate::validate::lists_additions;

verus! {

/// The id of the current snapshot is that snapshot's own, however large it is; there is none where
/// the table has no current snapshot, and only there.
pub proof fn law_head_is_the_current_snapshot<T: TableTypes>(
    metadata: TableMetadata<T>,
    head: Option<i64>,
)
    requires
        call_ensures(TableMetadata::<T>::current_snapshot_id, (&metadata,), head),
    ensures
        metadata.current_snapshot is None <==> head is None,
        metadata.current_snapshot matches Some(snapshot) ==> head == Some(snapshot.snapshot_id),
        metadata.current_snapshot matches Some(snapshot) ==> metadata.head() == Some(
            snapshot.snapshot_id,
        ),
        metadata.current_snapshot is None ==> metadata.head() is None,
{
}

/// A partition spec is found under its key in the table's specs.
pub proof fn law_partition_spec_is_found_by_id<'a, T: TableTypes>(
    metadata: &'a TableMetadata<T>,
    spec_id: i32,
    found: Option<&'a PartitionSpec<T>>,
)
    requires
        call_ensures(TableMetadata::<T>::partition_spec_by_id, (metadata, spec_id), found),
    ensures
        found is Some <==> metadata.partition_specs@.contains_key(spec_id),
        found matches Some(spec) ==> *spec == metadata.partition_specs@[spec_id],
{
}

/// A file is part of the table unless its entry has the status `Deleted`.
pub proof fn law_all_but_deleted_entries_are_alive<T: TableTypes>(
    entry: ManifestEntry<T>,
    alive: bool,
)
    requires
        call_ensures(ManifestEntry::<T>::is_alive, (&entry,), alive),
    ensures
        alive <==> !(entry.status is Deleted),
        entry.alive() <==> !(entry.status is Deleted),
        entry.path() == entry.data_file.file_path@,
{
}

/// A manifest can list the additions of a snapshot if and only if it is a data manifest, the
/// snapshot wrote it, and it has added files; nothing else that is said of it matters.
pub proof fn law_additions_are_in_own_data_manifests<T: TableTypes>(
    manifest: ManifestFile<T>,
    snapshot_id: i64,
    lists: bool,
)
    requires
        call_ensures(lists_additions::<T>, (&manifest, snapshot_id), lists),
    ensures
        lists <==> manifest.content is Data && manifest.added_snapshot_id == snapshot_id
            && manifest.has_added_files,
{
}

/// The writer of a table format and a kind of files.
pub proof fn law_writer_fits_version_and_content(
    version: FormatVersion,
    content: ManifestContentType,
    kind: ManifestWriterKind,
)
    requires
        call_ensures(writer_kind, (version, content), kind),
    ensures
        crate::manifest_laws::writer_fits(kind, version, content),
{
}

/// A rewritten manifest lies in the metadata directory of the table and is named by its identifier.
pub proof fn law_manifest_path_is_named_by_the_id(location: &str, id: Uuid, path: String)
    requires
        call_ensures(manifest_path, (location, id), path),
    ensures
        path@ == location@ + "/metadata/"@ + id.hyphenated() + "-m-overwrite.avro"@,
{
}

/// The snapshot of an overwrite is an overwrite, and lists no deleted entries on their own.
pub proof fn law_overwrite_is_an_overwrite<T: TableTypes>(
    operation: OverwriteOperation,
    kind: Operation,
    entries: Result<Vec<ManifestEntry<T>>, Error<T>>,
)
    requires
        call_ensures(OverwriteOperation::operation, (&operation,), kind),
        call_ensures(OverwriteOperation::delete_entries::<T>, (&operation,), entries),
    ensures
        kind is Overwrite,
        entries matches Ok(listed) && listed@.len() == 0,
{
}

/// A manifest is found to need a rewrite if and only if it lists a live file of a removed path.
pub proof fn law_deletes_are_found<T: TableTypes>(
    operation: OverwriteOperation,
    manifest: Manifest<T>,
    found: bool,
)
    requires
        call_ensures(OverwriteOperation::has_deletes::<T>, (&operation, &manifest), found),
    ensures
        found <==> crate::manifest_laws::lists_live_path(
            manifest.entries@,
            operation.deleted_file_paths@,
        ),
{
    crate::manifest_laws::law_only_manifests_with_removed_files_are_touched(
        operation@,
        manifest.entries@,
    );
}

/// Rewriting entries leaves out those that were deleted before and keeps the others in order, the
/// removed files deleted by the operation's snapshot and the others existing.
pub proof fn law_entries_are_rewritten<T: TableTypes>(
    operation: OverwriteOperation,
    entries: Vec<ManifestEntry<T>>,
    written: Vec<ManifestEntry<T>>,
)
    requires
        call_ensures(OverwriteOperation::rewrite_entries::<T>, (&operation, entries), written),
    ensures
        crate::manifest_laws::entries_fit(
            written@,
            entries@,
            operation.deleted_file_paths@,
            operation.snapshot_id,
        ),
{
    crate::manifest_laws::law_rewritten_entries_fit(operation@, entries@);
}

/// What a rewrite holds, read off its own fields.
pub open spec fn shown<T: TableTypes>(rewrite: ManifestRewrite<T>) -> ManifestRewriteView<T> {
    ManifestRewriteView {
        path: rewrite.path@,
        snapshot_id: rewrite.snapshot_id,
        key_metadata: rewrite.key_metadata,
        metadata: rewrite.metadata,
        writer: rewrite.writer,
        entries: rewrite.entries@,
    }
}

/// A manifest is rewritten under the given identifier into one that replaces it.
pub proof fn law_manifest_is_rewritten_under_the_id<T: TableTypes>(
    operation: OverwriteOperation,
    table: TableMetadata<T>,
    manifest_file: ManifestFile<T>,
    manifest: Manifest<T>,
    id: Uuid,
    rewrite: ManifestRewrite<T>,
)
    requires
        call_ensures(
            OverwriteOperation::rewrite_manifest_as::<T>,
            (&operation, &table, manifest_file, manifest, id),
            rewrite,
        ),
    ensures
        crate::manifest_laws::replaces(
            shown(rewrite),
            operation.deleted_file_paths@,
            operation.snapshot_id,
            table,
            manifest_file,
            (ManifestView { metadata: manifest.metadata, entries: manifest.entries@ }),
            id,
        ),
{
    crate::manifest_laws::law_rewrite_replaces_the_manifest(
        operation@,
        table,
        manifest_file,
        manifest@,
        id,
    );
}

/// Whether a rewrite replaces a manifest under some identifier of version 7.
pub open spec fn replaces_under_new_name<T: TableTypes>(
    rewrite: ManifestRewrite<T>,
    operation: OverwriteOperation,
    table: TableMetadata<T>,
    manifest_file: ManifestFile<T>,
    manifest: Manifest<T>,
) -> bool {
    exists|id: Uuid| #[trigger]
        id.is_version_7() && crate::manifest_laws::replaces(
            shown(rewrite),
            operation.deleted_file_paths@,
            operation.snapshot_id,
            table,
            manifest_file,
            (ManifestView { metadata: manifest.metadata, entries: manifest.entries@ }),
            id,
        )
}

/// A manifest is rewritten under an identifier of version 7 into one that replaces it.
pub proof fn law_manifest_is_rewritten_under_a_new_name<T: TableTypes>(
    operation: OverwriteOperation,
    table: TableMetadata<T>,
    manifest_file: ManifestFile<T>,
    manifest: Manifest<T>,
    rewrite: ManifestRewrite<T>,
)
    requires
        call_ensures(
            OverwriteOperation::rewrite_manifest::<T>,
            (&operation, &table, manifest_file, manifest),
            rewrite,
        ),
    ensures
        replaces_under_new_name(rewrite, operation, table, manifest_file, manifest),
{
    let id = choose|id: Uuid| #[trigger]
        id.is_version_7() && rewrite@ == operation@.rewrite(
            table,
            manifest_file,
            manifest@,
            id,
        );
    crate::manifest_laws::law_rewrite_replaces_the_manifest(
        operation@,
        table,
        manifest_file,
        manifest@,
        id,
    );
    assert(id.is_version_7());
}

/// The paths of some files are those that one of them has.
pub proof fn law_paths_are_collected<T: TableTypes>(
    files: Vec<DataFile<T>>,
    paths: StringHashSet,
    path: Seq<char>,
)
    requires
        call_ensures(collect_file_paths::<T>, (&files,), paths),
    ensures
        paths@.contains(path) <==> exists|i: int|
            0 <= i < files@.len() && (#[trigger] files@[i]).file_path@ == path,
{
    crate::commit_laws::law_removed_paths_are_those_named(files@, path);
}

/// An error holds its kind and its message, and is not retryable.
pub proof fn law_rule_errors_are_not_retryable(kind: ErrorKind, message: String, error: RuleError)
    requires
        call_ensures(RuleError::new, (kind, message), error),
    ensures
        error.kind == kind,
        error.message@ == message@,
        !error.retryable,
{
}

/// A new action asks for the duplicate check and for nothing else.
pub proof fn law_new_action_checks_duplicates<T: TableTypes>(action: OverwriteAction<T>)
    requires
        call_ensures(OverwriteAction::<T>::new, (), action),
    ensures
        action@.check_duplicate,
        action@.commit_uuid is None,
        action@.key_metadata is None,
        action@.snapshot_properties.dom() == Set::<String>::empty(),
        action@.added_data_files.len() == 0,
        action@.deleted_data_files.len() == 0,
{
}

/// Whether two actions ask for the same, but for the files that they add and remove.
pub open spec fn same_settings<T: TableTypes>(
    one: OverwriteActionView<T>,
    other: OverwriteActionView<T>,
) -> bool {
    &&& one.check_duplicate == other.check_duplicate
    &&& one.commit_uuid == other.commit_uuid
    &&& one.key_metadata == other.key_metadata
    &&& one.snapshot_properties == other.snapshot_properties
}

/// Whether two actions add and remove the same files.
pub open spec fn same_changes<T: TableTypes>(
    one: OverwriteActionView<T>,
    other: OverwriteActionView<T>,
) -> bool {
    &&& one.added_data_files == other.added_data_files
    &&& one.deleted_data_files == other.deleted_data_files
}

/// Adding files adds them behind those that were added before, and changes nothing else; removing
/// files likewise.
pub proof fn law_files_are_added_and_removed_in_order<T: TableTypes>(
    before: OverwriteAction<T>,
    files: Vec<DataFile<T>>,
    adding: OverwriteAction<T>,
    removing: OverwriteAction<T>,
)
    requires
        call_ensures(OverwriteAction::<T>::add_data_files, (before, files), adding),
        call_ensures(OverwriteAction::<T>::delete_data_files, (before, files), removing),
    ensures
        adding@.added_data_files == before@.added_data_files + files@,
        adding@.deleted_data_files == before@.deleted_data_files,
        same_settings(adding@, before@),
        removing@.deleted_data_files == before@.deleted_data_files + files@,
        removing@.added_data_files == before@.added_data_files,
        same_settings(removing@, before@),
{
}

/// A setting is what it was last set to; setting it changes neither the other settings nor the
/// files.
pub proof fn law_settings_are_independent<T: TableTypes>(
    before: OverwriteAction<T>,
    check: bool,
    checking: OverwriteAction<T>,
    commit_uuid: Uuid,
    named: OverwriteAction<T>,
    key_metadata: Vec<u8>,
    keyed: OverwriteAction<T>,
    properties: HashMap<String, String>,
    described: OverwriteAction<T>,
)
    requires
        call_ensures(OverwriteAction::<T>::with_check_duplicate, (before, check), checking),
        call_ensures(OverwriteAction::<T>::set_commit_uuid, (before, commit_uuid), named),
        call_ensures(OverwriteAction::<T>::set_key_metadata, (before, key_metadata), keyed),
        call_ensures(OverwriteAction::<T>::set_snapshot_properties, (before, properties), described),
    ensures
        checking@.check_duplicate == check,
        named@.check_duplicate == before@.check_duplicate,
        keyed@.check_duplicate == before@.check_duplicate,
        described@.check_duplicate == before@.check_duplicate,
        checking@.commit_uuid == before@.commit_uuid,
        named@.commit_uuid == Some(commit_uuid),
        keyed@.commit_uuid == before@.commit_uuid,
        described@.commit_uuid == before@.commit_uuid,
        checking@.key_metadata == before@.key_metadata,
        named@.key_metadata == before@.key_metadata,
        keyed@.key_metadata == Some(key_metadata),
        described@.key_metadata == before@.key_metadata,
        checking@.snapshot_properties == before@.snapshot_properties,
        named@.snapshot_properties == before@.snapshot_properties,
        keyed@.snapshot_properties == before@.snapshot_properties,
        described@.snapshot_properties == properties@,
        same_changes(checking@, before@),
        same_changes(named@, before@),
        same_changes(keyed@, before@),
        same_changes(described@, before@),
{
}

/// The number that a text of decimal digits spells.
pub open spec fn spelled(text: Seq<char>) -> int
    decreases text.len(),
{
    if text.len() == 0 {
        0
    } else {
        10 * spelled(text.drop_last()) + (text.last() as int - '0' as int)
    }
}

proof fn lemma_digits_spell(n: nat)
    ensures
        spelled(crate::text::digits(n)) == n,
        crate::text::digits(n).len() > 0,
        forall|i: int|
            0 <= i < crate::text::digits(n).len() ==> '0' <= #[trigger] crate::text::digits(n)[i]
                <= '9',
        n > 0 ==> crate::text::digits(n)[0] != '0',
    decreases n,
{
    let text = crate::text::digits(n);
    reveal_with_fuel(spelled, 2);
    if n < 10 {
        assert(text.drop_last() =~= Seq::empty());
        assert(text.last() == crate::text::digit_char(n));
    } else {
        lemma_digits_spell(n / 10);
        let front = crate::text::digits(n / 10);
        assert(text.drop_last() =~= front);
        assert(text.last() == crate::text::digit_char(n % 10));
        assert forall|i: int| 0 <= i < text.len() implies '0' <= #[trigger] text[i] <= '9' by {
            if i < front.len() {
                assert(text[i] == front[i]);
            }
        }
    }
}

/// The decimal text of a number spells it: digits without a needless zero in front, behind a minus
/// sign where the number is negative.
pub proof fn law_decimal_text_spells_the_number(n: i32, text: String)
    requires
        call_ensures(decimal_text, (n,), text),
    ensures
        text@.len() > 0,
        n >= 0 ==> spelled(text@) == n,
        n >= 0 ==> forall|i: int| 0 <= i < text@.len() ==> '0' <= #[trigger] text@[i] <= '9',
        n > 0 ==> text@[0] != '0',
        n < 0 ==> text@[0] == '-' && spelled(text@.drop_first()) == -n,
        n < 0 ==> forall|i: int| 0 < i < text@.len() ==> '0' <= #[trigger] text@[i] <= '9',
        n < 0 ==> text@.len() > 1 && text@[1] != '0',
        n == 0 ==> text@.len() == 1,
        text@ == crate::text::decimal(n as int),
{
    if n < 0 {
        let magnitude = (-(n as int)) as nat;
        lemma_digits_spell(magnitude);
        assert(text@.drop_first() =~= crate::text::digits(magnitude));
        assert forall|i: int| 0 < i < text@.len() implies '0' <= #[trigger] text@[i] <= '9' by {
            assert(text@[i] == crate::text::digits(magnitude)[i - 1]);
        }
    } else {
        lemma_digits_spell(n as nat);
    }
}

} // verus!
