//! Rewriting a manifest so that it no longer lists removed files as live.

use vstd::hash_set::StringHashSet;
use vstd::prelude::*;
use vstd::string::*;

use crate::error::Error;
use crate::ids::{now_v7, uuid_text, Uuid};
use crate::model::{
    FormatVersion, Manifest, ManifestContentType, ManifestEntry, ManifestFile, ManifestMetadata,
    ManifestStatus, ManifestView, Operation, TableMetadata, TableTypes,
};

verus! {

/// The snapshot operation of an overwrite: which files leave the table, and in which snapshot.
pub struct OverwriteOperation {
    pub deleted_file_paths: StringHashSet,
    pub snapshot_id: i64,
}

/// What an `OverwriteOperation` holds.
#[verifier::ext_equal]
pub struct OverwriteOperationView {
    pub deleted_file_paths: Set<Seq<char>>,
    pub snapshot_id: i64,
}

impl View for OverwriteOperation {
    type V = OverwriteOperationView;

    open spec fn view(&self) -> OverwriteOperationView {
        OverwriteOperationView {
            deleted_file_paths: self.deleted_file_paths@,
            snapshot_id: self.snapshot_id,
        }
    }
}

/// Which manifest writer fits a table format and a kind of files.
#[derive(Clone, Copy, Debug, PartialEq, Eq, Structural)]
pub enum ManifestWriterKind {
    V1,
    V2Data,
    V2Deletes,
    V3Data,
    V3Deletes,
}

/// A manifest to be written in place of another.
pub struct ManifestRewrite<T: TableTypes> {
    /// Where the new manifest goes.
    pub path: String,
    /// The snapshot that the writer works for.
    pub snapshot_id: Option<i64>,
    pub key_metadata: Option<Vec<u8>>,
    /// The schema and partition spec of the new manifest.
    pub metadata: ManifestMetadata<T>,
    pub writer: ManifestWriterKind,
    /// The entries in the order in which they are added. One with status `Deleted` is added as a
    /// deleted entry, one with status `Existing` as an existing entry.
    pub entries: Vec<ManifestEntry<T>>,
}

/// What a `ManifestRewrite` holds.
#[verifier::ext_equal]
pub struct ManifestRewriteView<T: TableTypes> {
    pub path: Seq<char>,
    pub snapshot_id: Option<i64>,
    pub key_metadata: Option<Vec<u8>>,
    pub metadata: ManifestMetadata<T>,
    pub writer: ManifestWriterKind,
    pub entries: Seq<ManifestEntry<T>>,
}

impl<T: TableTypes> View for ManifestRewrite<T> {
    type V = ManifestRewriteView<T>;

    open spec fn view(&self) -> ManifestRewriteView<T> {
        ManifestRewriteView {
            path: self.path@,
            snapshot_id: self.snapshot_id,
            key_metadata: self.key_metadata,
            metadata: self.metadata,
            writer: self.writer,
            entries: self.entries@,
        }
    }
}

/// The writer for a table format and a kind of files. Format version 1 knows data files only.
pub open spec fn writer_kind_for(
    version: FormatVersion,
    content: ManifestContentType,
) -> ManifestWriterKind {
    match (version, content) {
        (FormatVersion::V1, _) => ManifestWriterKind::V1,
        (FormatVersion::V2, ManifestContentType::Data) => ManifestWriterKind::V2Data,
        (FormatVersion::V2, ManifestContentType::Deletes) => ManifestWriterKind::V2Deletes,
        (FormatVersion::V3, ManifestContentType::Data) => ManifestWriterKind::V3Data,
        (FormatVersion::V3, ManifestContentType::Deletes) => ManifestWriterKind::V3Deletes,
    }
}

/// The path of a rewritten manifest under the table location.
pub open spec fn rewritten_manifest_path(location: Seq<char>, id: Uuid) -> Seq<char> {
    location + "/metadata/"@ + id.hyphenated() + "-m-overwrite.avro"@
}

impl OverwriteOperationView {
    /// Whether the operation removes a file that the entry lists as live.
    pub open spec fn removes<T: TableTypes>(self, entry: ManifestEntry<T>) -> bool {
        entry.alive() && self.deleted_file_paths.contains(entry.path())
    }

    /// Whether the operation removes any file of the manifest.
    pub open spec fn touches<T: TableTypes>(self, entries: Seq<ManifestEntry<T>>) -> bool {
        exists|i: int| 0 <= i < entries.len() && self.removes(#[trigger] entries[i])
    }

    /// A live entry as the rewritten manifest lists it: deleted by this snapshot, or carried over.
    pub open spec fn rewritten_entry<T: TableTypes>(
        self,
        entry: ManifestEntry<T>,
    ) -> ManifestEntry<T> {
        if self.deleted_file_paths.contains(entry.path()) {
            ManifestEntry {
                status: ManifestStatus::Deleted,
                snapshot_id: Some(self.snapshot_id),
                ..entry
            }
        } else {
            ManifestEntry { status: ManifestStatus::Existing, ..entry }
        }
    }

    /// The entries of the rewritten manifest: the live ones, in order, each rewritten.
    pub open spec fn rewritten_entries<T: TableTypes>(
        self,
        entries: Seq<ManifestEntry<T>>,
    ) -> Seq<ManifestEntry<T>> {
        entries.filter(|entry: ManifestEntry<T>| entry.alive()).map_values(
            |entry: ManifestEntry<T>| self.rewritten_entry(entry),
        )
    }

    /// The manifest to be written in place of `manifest_file`, under the identifier `id`.
    pub open spec fn rewrite<T: TableTypes>(
        self,
        table: TableMetadata<T>,
        manifest_file: ManifestFile<T>,
        manifest: ManifestView<T>,
        id: Uuid,
    ) -> ManifestRewriteView<T> {
        ManifestRewriteView {
            path: rewritten_manifest_path(table.location@, id),
            snapshot_id: Some(self.snapshot_id),
            key_metadata: manifest_file.key_metadata,
            metadata: manifest.metadata,
            writer: writer_kind_for(table.format_version, manifest_file.content),
            entries: self.rewritten_entries(manifest.entries),
        }
    }
}

/// Picks the writer for a table format and a kind of files.
pub fn writer_kind(version: FormatVersion, content: ManifestContentType) -> (kind:
    ManifestWriterKind)
    ensures
        kind == writer_kind_for(version, content),
{
    match version {
        FormatVersion::V1 => ManifestWriterKind::V1,
        FormatVersion::V2 => match content {
            ManifestContentType::Data => ManifestWriterKind::V2Data,
            ManifestContentType::Deletes => ManifestWriterKind::V2Deletes,
        },
        FormatVersion::V3 => match content {
            ManifestContentType::Data => ManifestWriterKind::V3Data,
            ManifestContentType::Deletes => ManifestWriterKind::V3Deletes,
        },
    }
}

/// Names a rewritten manifest.
pub fn manifest_path(location: &str, id: Uuid) -> (path: String)
    ensures
        path@ == rewritten_manifest_path(location@, id),
{
    let mut path = String::from_str(location);
    path.append("/metadata/");
    let name = uuid_text(id);
    path.append(name.as_str());
    path.append("-m-overwrite.avro");
    path
}

/// Appending an entry to the entries read appends at most its rewriting to those written.
proof fn lemma_rewritten_entries_step<T: TableTypes>(
    operation: OverwriteOperationView,
    entries: Seq<ManifestEntry<T>>,
    n: int,
)
    requires
        0 <= n < entries.len(),
    ensures
        operation.rewritten_entries(entries.take(n + 1)) == (if entries[n].alive() {
            operation.rewritten_entries(entries.take(n)).push(
                operation.rewritten_entry(entries[n]),
            )
        } else {
            operation.rewritten_entries(entries.take(n))
        }),
{
    crate::seqs::lemma_filter_take(entries, |entry: ManifestEntry<T>| entry.alive(), n);
    assert(operation.rewritten_entries(entries.take(n + 1)) =~= (if entries[n].alive() {
        operation.rewritten_entries(entries.take(n)).push(operation.rewritten_entry(entries[n]))
    } else {
        operation.rewritten_entries(entries.take(n))
    }));
}

impl OverwriteOperation {
    /// The kind of snapshot that the operation makes.
    pub fn operation(&self) -> (operation: Operation)
        ensures
            operation == Operation::Overwrite,
    {
        Operation::Overwrite
    }

    /// Entries to be listed as deleted on their own: none, since removals go into the rewritten
    /// manifests.
    pub fn delete_entries<T: TableTypes>(&self) -> (entries: Result<Vec<ManifestEntry<T>>, Error<T>>)
        ensures
            entries matches Ok(listed) && listed@ == Seq::<ManifestEntry<T>>::empty(),
    {
        Ok(Vec::new())
    }

    /// Whether the operation removes any file of the manifest.
    pub fn has_deletes<T: TableTypes>(&self, manifest: &Manifest<T>) -> (found: bool)
        ensures
            found == self@.touches(manifest@.entries),
    {
        for i in 0..manifest.entries.len()
            invariant
                forall|j: int| 0 <= j < i ==> !self@.removes(#[trigger] manifest.entries@[j]),
        {
            let entry = &manifest.entries[i];
            if entry.is_alive() && self.deleted_file_paths.contains(
                entry.data_file.file_path.as_str(),
            ) {
                assert(self@.removes(manifest.entries@[i as int]));
                return true;
            }
        }
        false
    }

    /// Lists the live entries of a manifest anew, marking those that the operation removes as
    /// deleted by its snapshot. Entries that were deleted before are left out, so that the record
    /// of the snapshot that deleted them stands.
    pub fn rewrite_entries<T: TableTypes>(&self, entries: Vec<ManifestEntry<T>>) -> (written: Vec<
        ManifestEntry<T>,
    >)
        ensures
            written@ == self@.rewritten_entries(entries@),
    {
        let ghost all = entries@;
        let mut written: Vec<ManifestEntry<T>> = Vec::new();
        proof {
            crate::seqs::lemma_filter_take_ends(all, |entry: ManifestEntry<T>| entry.alive());
            assert(self@.rewritten_entries(all.take(0)) =~= Seq::empty());
        }
        for entry in it: entries
            invariant
                it.seq() == all,
                written@ == self@.rewritten_entries(all.take(it.index() as int)),
        {
            proof {
                lemma_rewritten_entries_step(self@, all, it.index() as int);
            }
            if entry.is_alive() {
                if self.deleted_file_paths.contains(entry.data_file.file_path.as_str()) {
                    written.push(
                        ManifestEntry {
                            status: ManifestStatus::Deleted,
                            snapshot_id: Some(self.snapshot_id),
                            ..entry
                        },
                    );
                } else {
                    written.push(ManifestEntry { status: ManifestStatus::Existing, ..entry });
                }
            }
        }
        written
    }

    /// The manifest to be written in place of `manifest_file`, named by `id`.
    pub fn rewrite_manifest_as<T: TableTypes>(
        &self,
        table: &TableMetadata<T>,
        manifest_file: ManifestFile<T>,
        manifest: Manifest<T>,
        id: Uuid,
    ) -> (rewrite: ManifestRewrite<T>)
        ensures
            rewrite@ == self@.rewrite(*table, manifest_file, manifest@, id),
    {
        ManifestRewrite {
            path: manifest_path(table.location.as_str(), id),
            snapshot_id: Some(self.snapshot_id),
            key_metadata: manifest_file.key_metadata,
            metadata: manifest.metadata,
            writer: writer_kind(table.format_version, manifest_file.content),
            entries: self.rewrite_entries(manifest.entries),
        }
    }

    /// The manifest to be written in place of `manifest_file`, under a new name.
    pub fn rewrite_manifest<T: TableTypes>(
        &self,
        table: &TableMetadata<T>,
        manifest_file: ManifestFile<T>,
        manifest: Manifest<T>,
    ) -> (rewrite: ManifestRewrite<T>)
        ensures
            exists|id: Uuid| #[trigger]
                id.is_version_7() && rewrite@ == self@.rewrite(
                    *table,
                    manifest_file,
                    manifest@,
                    id,
                ),
    {
        let id = now_v7();
        self.rewrite_manifest_as(table, manifest_file, manifest, id)
    }
}

} // verus!
