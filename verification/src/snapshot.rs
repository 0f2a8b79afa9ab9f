//! Snapshots: the states of a table over time, and the names that point to them.

use crate::error::{data_invalid, Error, ErrorView};
use crate::string_map::StringMap;
use std::sync::Arc;
use vstd::prelude::*;

verus! {

/// What the change that made a snapshot did.
#[derive(Debug, Clone, Copy, PartialEq, Eq, Structural)]
pub enum Operation {
    /// Only data files were added.
    Append,
    /// Files were removed and replaced without a change of the data.
    Replace,
    /// Data was removed and other data was added.
    Overwrite,
    /// Data was removed.
    Delete,
}

/// What the change that made a snapshot did, in short.
#[derive(Debug, PartialEq, Eq)]
pub struct Summary {
    pub operation: Operation,
    pub additional_properties: StringMap<String>,
}

/// The state of a table at some time.
#[derive(Debug, PartialEq, Eq)]
pub struct Snapshot {
    pub snapshot_id: i64,
    pub parent_snapshot_id: Option<i64>,
    /// Where the snapshot stands in the order of changes.
    pub sequence_number: i64,
    pub timestamp_ms: i64,
    /// Location of the list of the files that track the data.
    pub manifest_list: String,
    pub summary: Summary,
    /// Id of the schema of the table when the snapshot was made.
    pub schema_id: Option<i32>,
}

/// A snapshot that several owners hold.
pub type SnapshotRef = Arc<Snapshot>;

/// What a [`Summary`] is.
pub ghost struct SummaryView {
    pub operation: Operation,
    pub additional_properties: Map<Seq<char>, String>,
}

/// What a [`Snapshot`] is.
pub ghost struct SnapshotView {
    pub snapshot_id: i64,
    pub parent_snapshot_id: Option<i64>,
    pub sequence_number: i64,
    pub timestamp_ms: i64,
    pub manifest_list: Seq<char>,
    pub summary: SummaryView,
    pub schema_id: Option<i32>,
}

impl View for Summary {
    type V = SummaryView;

    open spec fn view(&self) -> SummaryView {
        SummaryView { operation: self.operation, additional_properties: self.additional_properties@ }
    }
}

impl View for Snapshot {
    type V = SnapshotView;

    open spec fn view(&self) -> SnapshotView {
        SnapshotView {
            snapshot_id: self.snapshot_id,
            parent_snapshot_id: self.parent_snapshot_id,
            sequence_number: self.sequence_number,
            timestamp_ms: self.timestamp_ms,
            manifest_list: self.manifest_list@,
            summary: self.summary@,
            schema_id: self.schema_id,
        }
    }
}

impl Clone for Summary {
    fn clone(&self) -> (r: Self)
        ensures
            r@ == self@,
    {
        let additional_properties: StringMap<String> = self.additional_properties.clone();
        proof {
            assert(additional_properties@ =~= self.additional_properties@);
        }
        Summary { operation: self.operation, additional_properties }
    }
}

impl Clone for Snapshot {
    fn clone(&self) -> (r: Self)
        ensures
            r@ == self@,
    {
        Snapshot {
            snapshot_id: self.snapshot_id,
            parent_snapshot_id: self.parent_snapshot_id,
            sequence_number: self.sequence_number,
            timestamp_ms: self.timestamp_ms,
            manifest_list: self.manifest_list.clone(),
            summary: self.summary.clone(),
            schema_id: self.schema_id,
        }
    }
}

impl Snapshot {
    /// The id of the snapshot.
    pub fn snapshot_id(&self) -> (r: i64)
        ensures
            r == self@.snapshot_id,
    {
        self.snapshot_id
    }

    /// Where the snapshot stands in the order of changes.
    pub fn sequence_number(&self) -> (r: i64)
        ensures
            r == self@.sequence_number,
    {
        self.sequence_number
    }
}

/// How long snapshots are kept.
#[derive(Debug, Clone, Copy, PartialEq, Eq, Structural)]
pub enum SnapshotRetention {
    /// A branch: a name that moves on as the table changes.
    Branch {
        min_snapshots_to_keep: Option<i32>,
        max_snapshot_age_ms: Option<i64>,
        max_ref_age_ms: Option<i64>,
    },
    /// A tag: a name that stays.
    Tag { max_ref_age_ms: Option<i64> },
}

/// A name for a snapshot.
#[derive(Debug, Clone, Copy, PartialEq, Eq, Structural)]
pub struct SnapshotReference {
    pub snapshot_id: i64,
    pub retention: SnapshotRetention,
}

/// A branch that points to this snapshot and says nothing of how long it is kept.
pub open spec fn plain_branch(snapshot_id: i64) -> SnapshotReference {
    SnapshotReference {
        snapshot_id,
        retention: SnapshotRetention::Branch {
            min_snapshots_to_keep: None,
            max_snapshot_age_ms: None,
            max_ref_age_ms: None,
        },
    }
}

impl SnapshotReference {
    /// A branch that points to this snapshot and says nothing of how long it is kept.
    pub fn branch(snapshot_id: i64) -> (r: SnapshotReference)
        ensures
            r == plain_branch(snapshot_id),
    {
        SnapshotReference {
            snapshot_id,
            retention: SnapshotRetention::Branch {
                min_snapshots_to_keep: None,
                max_snapshot_age_ms: None,
                max_ref_age_ms: None,
            },
        }
    }
}

/// A snapshot as version 1 metadata files give it.
#[derive(Debug, PartialEq, Eq)]
pub struct SnapshotV1 {
    pub snapshot_id: i64,
    pub parent_snapshot_id: Option<i64>,
    pub timestamp_ms: i64,
    pub manifest_list: Option<String>,
    /// The files that track the data, where the file lists them itself.
    pub manifests: Option<Vec<String>>,
    pub summary: Option<Summary>,
    pub schema_id: Option<i32>,
}

/// A snapshot as version 2 metadata files give it.
#[derive(Debug, PartialEq, Eq)]
pub struct SnapshotV2 {
    pub snapshot_id: i64,
    pub parent_snapshot_id: Option<i64>,
    pub sequence_number: i64,
    pub timestamp_ms: i64,
    pub manifest_list: String,
    pub summary: Summary,
    pub schema_id: Option<i32>,
}

impl SnapshotV1 {
    /// The snapshot that the file gives, or why it gives none.
    pub open spec fn snapshot(self) -> Result<SnapshotView, ErrorView> {
        match self.manifest_list {
            None => Err(data_invalid("Unsupported v1 snapshot, only manifest list is supported"@)),
            Some(manifest_list) => match self.manifests {
                Some(_) => Err(
                    data_invalid(
                        "Invalid v1 snapshot, when manifest list provided, manifest files should be omitted"@,
                    ),
                ),
                None => Ok(
                    SnapshotView {
                        snapshot_id: self.snapshot_id,
                        parent_snapshot_id: self.parent_snapshot_id,
                        sequence_number: 0,
                        timestamp_ms: self.timestamp_ms,
                        manifest_list: manifest_list@,
                        summary: match self.summary {
                            Some(s) => s@,
                            None => SummaryView {
                                operation: Operation::Append,
                                additional_properties: Map::empty(),
                            },
                        },
                        schema_id: self.schema_id,
                    },
                ),
            },
        }
    }

    /// The file gives this snapshot, all but its sequence number.
    pub open spec fn gives(self, s: SnapshotView) -> bool {
        &&& self.snapshot_id == s.snapshot_id
        &&& self.parent_snapshot_id == s.parent_snapshot_id
        &&& self.timestamp_ms == s.timestamp_ms
        &&& self.manifest_list matches Some(m) && m@ == s.manifest_list
        &&& self.manifests is None
        &&& self.summary matches Some(m) && m@ == s.summary
        &&& self.schema_id == s.schema_id
    }
}

impl SnapshotV2 {
    /// The snapshot that the file gives.
    pub open spec fn snapshot(self) -> SnapshotView {
        SnapshotView {
            snapshot_id: self.snapshot_id,
            parent_snapshot_id: self.parent_snapshot_id,
            sequence_number: self.sequence_number,
            timestamp_ms: self.timestamp_ms,
            manifest_list: self.manifest_list@,
            summary: self.summary@,
            schema_id: self.schema_id,
        }
    }
}

impl Snapshot {
    /// Reads a snapshot from its form in version 1 metadata files.
    pub fn try_from_v1(value: SnapshotV1) -> (r: Result<Snapshot, Error>)
        ensures
            match r {
                Ok(s) => value.snapshot() == Ok::<SnapshotView, ErrorView>(s@),
                Err(e) => value.snapshot() == Err::<SnapshotView, ErrorView>(e@),
            },
    {
        match value.manifest_list {
            None => Err(
                Error::data_invalid(
                    "Unsupported v1 snapshot, only manifest list is supported".to_owned(),
                ),
            ),
            Some(manifest_list) => match value.manifests {
                Some(_) => Err(
                    Error::data_invalid(
                        "Invalid v1 snapshot, when manifest list provided, manifest files should be omitted".to_owned(),
                    ),
                ),
                None => {
                    let summary: Summary = match value.summary {
                        Some(s) => s,
                        None => Summary {
                            operation: Operation::Append,
                            additional_properties: StringMap::new(),
                        },
                    };
                    Ok(
                        Snapshot {
                            snapshot_id: value.snapshot_id,
                            parent_snapshot_id: value.parent_snapshot_id,
                            sequence_number: 0,
                            timestamp_ms: value.timestamp_ms,
                            manifest_list,
                            summary,
                            schema_id: value.schema_id,
                        },
                    )
                },
            },
        }
    }

    /// Reads a snapshot from its form in version 2 metadata files.
    pub fn from_v2(value: SnapshotV2) -> (r: Snapshot)
        ensures
            r@ == value.snapshot(),
    {
        Snapshot {
            snapshot_id: value.snapshot_id,
            parent_snapshot_id: value.parent_snapshot_id,
            sequence_number: value.sequence_number,
            timestamp_ms: value.timestamp_ms,
            manifest_list: value.manifest_list,
            summary: value.summary,
            schema_id: value.schema_id,
        }
    }

    /// The form of the snapshot in version 1 metadata files.
    pub fn to_v1(&self) -> (r: SnapshotV1)
        ensures
            r.gives(self@),
    {
        SnapshotV1 {
            snapshot_id: self.snapshot_id,
            parent_snapshot_id: self.parent_snapshot_id,
            timestamp_ms: self.timestamp_ms,
            manifest_list: Some(self.manifest_list.clone()),
            manifests: None,
            summary: Some(self.summary.clone()),
            schema_id: self.schema_id,
        }
    }

    /// The form of the snapshot in version 2 metadata files.
    pub fn to_v2(&self) -> (r: SnapshotV2)
        ensures
            r.snapshot() == self@,
    {
        SnapshotV2 {
            snapshot_id: self.snapshot_id,
            parent_snapshot_id: self.parent_snapshot_id,
            sequence_number: self.sequence_number,
            timestamp_ms: self.timestamp_ms,
            manifest_list: self.manifest_list.clone(),
            summary: self.summary.clone(),
            schema_id: self.schema_id,
        }
    }
}

} // verus!
