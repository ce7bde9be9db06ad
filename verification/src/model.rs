//! The parts of a table that the overwrite rules read.

use std::collections::HashMap;

use vstd::prelude::*;

verus! {

broadcast use vstd::std_specs::hash::group_hash_axioms;

/// What the rules carry for their caller without looking inside it.
pub trait TableTypes {
    /// All of a data file but its path.
    type FileDetails;
    /// All of a manifest list entry that the rules do not read.
    type ManifestDetails;
    /// All of a snapshot that the rules do not read.
    type SnapshotDetails;
    /// A schema.
    type Schema;
    /// All of a partition spec but its id.
    type SpecDetails;
    /// The fields of a partition type.
    type PartitionFields;
    /// A row filter that is not bound to a schema.
    type Predicate;
    /// A row filter that is bound to a schema.
    type BoundPredicate;
    /// An evaluator of partition summaries.
    type Evaluator;
    /// The updates and requirements of a commit.
    type ActionCommit;
    /// A failure of a step that the caller performs.
    type Failure;
}

/// The version of the table format.
#[derive(Clone, Copy, Debug, PartialEq, Eq, Structural)]
pub enum FormatVersion {
    V1,
    V2,
    V3,
}

/// What kind of files a manifest lists.
#[derive(Clone, Copy, Debug, PartialEq, Eq, Structural)]
pub enum ManifestContentType {
    Data,
    Deletes,
}

/// The state of a file in a manifest.
#[derive(Clone, Copy, Debug, PartialEq, Eq, Structural)]
pub enum ManifestStatus {
    /// Carried over from an earlier snapshot.
    Existing,
    /// Added by the snapshot that wrote the manifest.
    Added,
    /// Removed by the snapshot that wrote the manifest.
    Deleted,
}

/// What a snapshot did to the table.
#[derive(Clone, Copy, Debug, PartialEq, Eq, Structural)]
pub enum Operation {
    Append,
    Replace,
    Overwrite,
    Delete,
}

/// A data file.
pub struct DataFile<T: TableTypes> {
    pub file_path: String,
    pub details: T::FileDetails,
}

/// A file listed in a manifest.
pub struct ManifestEntry<T: TableTypes> {
    pub status: ManifestStatus,
    /// The snapshot that gave the entry its status, or `None` while it is inherited from the
    /// manifest.
    pub snapshot_id: Option<i64>,
    /// The sequence number of the snapshot that gave the entry its status, or `None` while it is
    /// inherited from the manifest.
    pub sequence_number: Option<i64>,
    /// The sequence number of the snapshot that added the file, or `None` while it is inherited
    /// from the manifest.
    pub file_sequence_number: Option<i64>,
    pub data_file: DataFile<T>,
}

impl<T: TableTypes> ManifestEntry<T> {
    /// Whether the file is part of the table.
    pub open spec fn alive(self) -> bool {
        self.status is Added || self.status is Existing
    }

    /// The path of the file.
    pub open spec fn path(self) -> Seq<char> {
        self.data_file.file_path@
    }

    /// Whether the file is part of the table.
    pub fn is_alive(&self) -> (alive: bool)
        ensures
            alive == self.alive(),
    {
        match self.status {
            ManifestStatus::Added | ManifestStatus::Existing => true,
            ManifestStatus::Deleted => false,
        }
    }
}

/// A partition spec.
pub struct PartitionSpec<T: TableTypes> {
    pub spec_id: i32,
    pub details: T::SpecDetails,
}

/// The header of a manifest.
pub struct ManifestMetadata<T: TableTypes> {
    pub schema: T::Schema,
    pub partition_spec: PartitionSpec<T>,
}

/// A manifest that was read.
pub struct Manifest<T: TableTypes> {
    pub metadata: ManifestMetadata<T>,
    pub entries: Vec<ManifestEntry<T>>,
}

/// What a `Manifest` holds.
#[verifier::ext_equal]
pub struct ManifestView<T: TableTypes> {
    pub metadata: ManifestMetadata<T>,
    pub entries: Seq<ManifestEntry<T>>,
}

impl<T: TableTypes> View for Manifest<T> {
    type V = ManifestView<T>;

    open spec fn view(&self) -> ManifestView<T> {
        ManifestView { metadata: self.metadata, entries: self.entries@ }
    }
}

/// An entry of a manifest list, which stands for one manifest.
pub struct ManifestFile<T: TableTypes> {
    pub content: ManifestContentType,
    /// The snapshot that wrote the manifest.
    pub added_snapshot_id: i64,
    /// The partition spec that the manifest was written with.
    pub partition_spec_id: i32,
    pub key_metadata: Option<Vec<u8>>,
    /// Whether the manifest may list files with status `Added`.
    pub has_added_files: bool,
    /// Whether the manifest may list files with status `Existing`.
    pub has_existing_files: bool,
    pub details: T::ManifestDetails,
}

/// A snapshot of the table.
pub struct Snapshot<T: TableTypes> {
    pub snapshot_id: i64,
    /// What the snapshot did, for those who read the table. No rule depends on it.
    pub operation: Operation,
    pub details: T::SnapshotDetails,
}

/// The metadata of a table.
pub struct TableMetadata<T: TableTypes> {
    pub location: String,
    pub format_version: FormatVersion,
    pub current_snapshot: Option<Snapshot<T>>,
    pub current_schema: T::Schema,
    /// The partition specs by id.
    pub partition_specs: HashMap<i32, PartitionSpec<T>>,
}

impl<T: TableTypes> TableMetadata<T> {
    /// The id of the current snapshot, if the table has one.
    pub open spec fn head(self) -> Option<i64> {
        match self.current_snapshot {
            Some(snapshot) => Some(snapshot.snapshot_id),
            None => None,
        }
    }

    /// The id of the current snapshot, if the table has one.
    pub fn current_snapshot_id(&self) -> (head: Option<i64>)
        ensures
            head == self.head(),
    {
        match &self.current_snapshot {
            Some(snapshot) => Some(snapshot.snapshot_id),
            None => None,
        }
    }

    /// Looks a partition spec up.
    pub fn partition_spec_by_id(&self, spec_id: i32) -> (spec: Option<&PartitionSpec<T>>)
        ensures
            spec == (if self.partition_specs@.contains_key(spec_id) {
                Some(&self.partition_specs@[spec_id])
            } else {
                None
            }),
    {
        self.partition_specs.get(&spec_id)
    }
}

} // verus!
