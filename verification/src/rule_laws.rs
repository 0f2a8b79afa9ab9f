//! The rules of table metadata, told on the values themselves: what each check accepts, what each
//! repair changes, and what is said of metadata that breaks a rule.

use crate::error::{Error, ErrorKind};
use crate::format_version::FormatVersion;
use crate::laws::{main_branch_follows_current_snapshot, normalized_is_whole, normalizing_changes_little};
use crate::logs::{MetadataLog, SnapshotLog};
use crate::metadata::{TableMetadata, TableMetadataView};
use crate::normalize::{
    chronological, current_schema_fault, current_snapshot_fault, dangles, dangling_ref, follows, main_is_current,
    metadata_times, normalizable, normalize_error, referenced, refs_exist, sequence_ok, sequence_too_great,
    snapshot_times,
};
use crate::snapshot::{SnapshotReference, SnapshotRetention};
use crate::text::{decimal, trailing_slashes_only};
use vstd::prelude::*;

verus! {

/// The error is about data, with this message.
pub open spec fn says(e: Error, message: Seq<char>) -> bool {
    e.kind == ErrorKind::DataInvalid && e.message@ == message
}

/// The current schema is checked to be one of the schemas.
pub proof fn current_schema_is_listed(m: TableMetadata, r: Result<(), Error>)
    requires
        call_ensures(TableMetadata::validate_current_schema, (&m,), r),
    ensures
        r is Ok <==> m.schemas@.contains_key(m.current_schema_id),
        r matches Err(e) ==> says(
            e,
            "No schema exists with the current schema id "@ + decimal(m.current_schema_id as int) + "."@,
        ),
{
}

/// The current snapshot is checked to be one of the snapshots, or to be the one that stands for
/// none, which is then taken away. Nothing else changes.
pub proof fn current_snapshot_is_listed(m: &mut TableMetadata, r: Result<(), Error>)
    requires
        call_ensures(TableMetadata::normalize_current_snapshot, (m,), r),
    ensures
        r is Ok <==> (old(m).current_snapshot_id matches Some(id) ==> id == -1 || old(m).snapshots@.contains_key(id)),
        old(m).current_snapshot_id == Some(-1i64) ==> final(m).current_snapshot_id is None,
        old(m).current_snapshot_id != Some(-1i64) ==> final(m).current_snapshot_id == old(m).current_snapshot_id,
        final(m)@ == (TableMetadataView { current_snapshot_id: final(m).current_snapshot_id, ..old(m)@ }),
        r matches Err(e) ==> says(
            e,
            "Snapshot for current snapshot id "@ + decimal(old(m).current_snapshot_id.unwrap() as int)
                + " does not exist in the existing snapshots list"@,
        ),
{
}

/// A branch that keeps snapshots as long as the table's properties say.
pub open spec fn unlimited_branch(reference: SnapshotReference, snapshot_id: i64) -> bool {
    &&& reference.snapshot_id == snapshot_id
    &&& reference.retention == (SnapshotRetention::Branch {
        min_snapshots_to_keep: None,
        max_snapshot_age_ms: None,
        max_ref_age_ms: None,
    })
}

/// Where there is a current snapshot and no main branch, a main branch to that snapshot is added.
/// All other references stay, and nothing else changes.
pub proof fn main_is_added_where_missing(m: &mut TableMetadata, r: ())
    requires
        call_ensures(TableMetadata::construct_refs, (m,), r),
    ensures
        old(m).current_snapshot_id is None || old(m).refs@.contains_key("main"@) ==> final(m).refs@ == old(m).refs@,
        old(m).current_snapshot_id matches Some(id) ==> !old(m).refs@.contains_key("main"@) ==> {
            &&& final(m).refs@.contains_key("main"@)
            &&& unlimited_branch(final(m).refs@["main"@], id)
            &&& final(m).refs@.remove("main"@) == old(m).refs@
        },
        final(m)@ == (TableMetadataView { refs: final(m).refs@, ..old(m)@ }),
{
    assert(old(m).current_snapshot_id is Some && !old(m).refs@.contains_key("main"@) ==> final(m).refs@.remove(
        "main"@,
    ) =~= old(m).refs@);
}

/// References are accepted exactly when each of them, branch or tag, is to a listed snapshot, and
/// the main branch is to the current snapshot, or is not there where there is none.
pub proof fn references_are_to_listed_snapshots(m: TableMetadata, r: Result<(), Error>)
    requires
        call_ensures(TableMetadata::validate_refs, (&m,), r),
    ensures
        r is Ok <==> {
            &&& forall|name: Seq<char>|
                m.refs@.contains_key(name) ==> m.snapshots@.contains_key((#[trigger] m.refs@[name]).snapshot_id)
            &&& m.refs@.contains_key("main"@) ==> m.current_snapshot_id == Some(m.refs@["main"@].snapshot_id)
        },
{
    if r is Ok {
        assert forall|name: Seq<char>| m.refs@.contains_key(name) implies m.snapshots@.contains_key(
            (#[trigger] m.refs@[name]).snapshot_id,
        ) by {
            assert(m@.refs.contains_key(name));
        }
    } else if forall|name: Seq<char>|
        m.refs@.contains_key(name) ==> m.snapshots@.contains_key((#[trigger] m.refs@[name]).snapshot_id) {
        assert forall|name: Seq<char>| #[trigger] m@.refs.contains_key(name) implies m@.snapshots.contains_key(
            m@.refs[name].snapshot_id,
        ) by {
            assert(m.snapshots@.contains_key(m.refs@[name].snapshot_id));
        }
    }
}

/// References that are not accepted: the error names a reference whose snapshot is not listed,
/// where there is one; or else it is about the main branch.
pub proof fn refused_references_are_named(m: TableMetadata, e: Error)
    requires
        call_ensures(TableMetadata::validate_refs, (&m,), Err(e)),
    ensures
        ({
            ||| exists|name: Seq<char>|
                m.refs@.contains_key(name) && !m.snapshots@.contains_key((#[trigger] m.refs@[name]).snapshot_id) && says(
                    e,
                    "Snapshot for reference "@ + name + " does not exist in the existing snapshots list"@,
                )
            ||| (m.current_snapshot_id matches Some(id) && m.refs@.contains_key("main"@)
                && m.refs@["main"@].snapshot_id != id && says(
                e,
                "Current snapshot id does not match main branch ("@ + decimal(id as int) + " != "@ + decimal(
                    m.refs@["main"@].snapshot_id as int,
                ) + ")"@,
            ) && forall|name: Seq<char>|
                m.refs@.contains_key(name) ==> m.snapshots@.contains_key((#[trigger] m.refs@[name]).snapshot_id))
            ||| (m.current_snapshot_id is None && m.refs@.contains_key("main"@) && says(
                e,
                "Current snapshot is not set, but main branch exists"@,
            ) && forall|name: Seq<char>|
                m.refs@.contains_key(name) ==> m.snapshots@.contains_key((#[trigger] m.refs@[name]).snapshot_id))
        }),
{
    if refs_exist(m@) {
        assert forall|name: Seq<char>| m.refs@.contains_key(name) implies m.snapshots@.contains_key(
            (#[trigger] m.refs@[name]).snapshot_id,
        ) by {
            assert(m@.refs.contains_key(name));
        }
    } else {
        let name: Seq<char> = choose|name: Seq<char>| #[trigger]
            dangles(m@, name) && e@ == dangling_ref(name);
        assert(!m.snapshots@.contains_key(m.refs@[name].snapshot_id));
    }
}

/// In version 1 the last sequence number is zero. From version 2 on it is at least that of every
/// snapshot.
pub proof fn last_sequence_number_is_greatest(m: TableMetadata, r: Result<(), Error>)
    requires
        call_ensures(TableMetadata::validate_snapshot_sequence_number, (&m,), r),
    ensures
        m.format_version == FormatVersion::V1 ==> (r is Ok <==> m.last_sequence_number == 0),
        m.format_version == FormatVersion::V2 ==> (r is Ok <==> forall|id: i64|
            m.snapshots@.contains_key(id) ==> (#[trigger] m.snapshots@[id]).sequence_number
                <= m.last_sequence_number),
        m.format_version == FormatVersion::V1 ==> (r matches Err(e) ==> says(
            e,
            "Last sequence number must be 0 in v1. Found "@ + decimal(m.last_sequence_number as int),
        )),
        m.format_version == FormatVersion::V2 ==> (r matches Err(e) ==> exists|id: i64|
            m.snapshots@.contains_key(id) && (#[trigger] m.snapshots@[id]).sequence_number > m.last_sequence_number
                && says(
                e,
                "Invalid snapshot with id "@ + decimal(m.snapshots@[id].snapshot_id as int)
                    + " and sequence number "@ + decimal(m.snapshots@[id].sequence_number as int)
                    + " greater than last sequence number "@ + decimal(m.last_sequence_number as int),
            )),
{
    if m.format_version == FormatVersion::V2 {
        if r is Ok {
            assert forall|id: i64| m.snapshots@.contains_key(id) implies (#[trigger] m.snapshots@[id]).sequence_number
                <= m.last_sequence_number by {
                assert(m@.snapshots.contains_key(id));
            }
        } else {
            let e: Error = r->Err_0;
            let id: i64 = choose|id: i64| #[trigger]
                m@.snapshots.contains_key(id) && m@.snapshots[id].sequence_number > m@.last_sequence_number && e@
                    == sequence_too_great(m@.snapshots[id], m@.last_sequence_number);
            assert(m.snapshots@[id].sequence_number > m.last_sequence_number);
        }
    }
}

/// The snapshot log is accepted exactly when no entry is more than a minute before the entry it
/// follows, and the last update is not more than a minute before the last entry.
pub proof fn snapshot_log_runs_with_time(m: TableMetadata, r: Result<(), Error>)
    requires
        call_ensures(TableMetadata::validate_chronological_snapshot_logs, (&m,), r),
    ensures
        r is Ok <==> {
            &&& forall|i: int, j: int|
                0 <= i && j == i + 1 && j < m.snapshot_log@.len() ==> (#[trigger] m.snapshot_log@[j]).timestamp_ms >= (
                #[trigger] m.snapshot_log@[i]).timestamp_ms - 60000
            &&& m.snapshot_log@.len() > 0 ==> m.last_updated_ms >= m.snapshot_log@.last().timestamp_ms - 60000
        },
        r matches Err(e) ==> {
            ||| says(e, "Expected sorted snapshot log entries"@) && exists|i: int, j: int|
                0 <= i && j == i + 1 && j < m.snapshot_log@.len() && (#[trigger] m.snapshot_log@[j]).timestamp_ms < (
                #[trigger] m.snapshot_log@[i]).timestamp_ms - 60000
            ||| says(
                e,
                "Invalid update timestamp "@ + decimal(m.last_updated_ms as int)
                    + ": before last snapshot log entry at "@ + decimal(m.snapshot_log@.last().timestamp_ms as int),
            ) && m.snapshot_log@.len() > 0 && m.last_updated_ms < m.snapshot_log@.last().timestamp_ms - 60000
                && forall|i: int, j: int|
                0 <= i && j == i + 1 && j < m.snapshot_log@.len() ==> (#[trigger] m.snapshot_log@[j]).timestamp_ms >= (
                #[trigger] m.snapshot_log@[i]).timestamp_ms - 60000
        },
{
    let times: Seq<i64> = snapshot_times(m@);
    log_texts();
    assert("Expected sorted "@ + "snapshot"@ + " log entries"@ =~= "Expected sorted snapshot log entries"@);
    assert(": before last "@ + "snapshot"@ + " log entry at "@ =~= ": before last snapshot log entry at "@);
    assert("Invalid update timestamp "@ + decimal(m.last_updated_ms as int) + ": before last "@ + "snapshot"@
        + " log entry at "@ =~= "Invalid update timestamp "@ + decimal(m.last_updated_ms as int) + (
    ": before last "@ + "snapshot"@ + " log entry at "@));
    if chronological(times) {
        assert forall|i: int, j: int| 0 <= i && j == i + 1 && j < m.snapshot_log@.len() implies (
        #[trigger] m.snapshot_log@[j]).timestamp_ms >= (#[trigger] m.snapshot_log@[i]).timestamp_ms - 60000 by {
            assert(follows(times[i], times[i + 1]));
        }
    } else {
        let i: int = choose|i: int|
            0 <= i < times.len() - 1 && !follows(#[trigger] times[i], times[i + 1]);
        assert(m.snapshot_log@[i + 1].timestamp_ms < m.snapshot_log@[i].timestamp_ms - 60000);
    }
}

/// The metadata log is accepted exactly when no entry is more than a minute before the entry it
/// follows, and the last update is not more than a minute before the last entry.
pub proof fn metadata_log_runs_with_time(m: TableMetadata, r: Result<(), Error>)
    requires
        call_ensures(TableMetadata::validate_chronological_metadata_logs, (&m,), r),
    ensures
        r is Ok <==> {
            &&& forall|i: int, j: int|
                0 <= i && j == i + 1 && j < m.metadata_log@.len() ==> (#[trigger] m.metadata_log@[j]).timestamp_ms >= (
                #[trigger] m.metadata_log@[i]).timestamp_ms - 60000
            &&& m.metadata_log@.len() > 0 ==> m.last_updated_ms >= m.metadata_log@.last().timestamp_ms - 60000
        },
        r matches Err(e) ==> {
            ||| says(e, "Expected sorted metadata log entries"@) && exists|i: int, j: int|
                0 <= i && j == i + 1 && j < m.metadata_log@.len() && (#[trigger] m.metadata_log@[j]).timestamp_ms < (
                #[trigger] m.metadata_log@[i]).timestamp_ms - 60000
            ||| says(
                e,
                "Invalid update timestamp "@ + decimal(m.last_updated_ms as int)
                    + ": before last metadata log entry at "@ + decimal(m.metadata_log@.last().timestamp_ms as int),
            ) && m.metadata_log@.len() > 0 && m.last_updated_ms < m.metadata_log@.last().timestamp_ms - 60000
                && forall|i: int, j: int|
                0 <= i && j == i + 1 && j < m.metadata_log@.len() ==> (#[trigger] m.metadata_log@[j]).timestamp_ms >= (
                #[trigger] m.metadata_log@[i]).timestamp_ms - 60000
        },
{
    let times: Seq<i64> = metadata_times(m@);
    log_texts();
    assert("Expected sorted "@ + "metadata"@ + " log entries"@ =~= "Expected sorted metadata log entries"@);
    assert(": before last "@ + "metadata"@ + " log entry at "@ =~= ": before last metadata log entry at "@);
    assert("Invalid update timestamp "@ + decimal(m.last_updated_ms as int) + ": before last "@ + "metadata"@
        + " log entry at "@ =~= "Invalid update timestamp "@ + decimal(m.last_updated_ms as int) + (
    ": before last "@ + "metadata"@ + " log entry at "@));
    if chronological(times) {
        assert forall|i: int, j: int| 0 <= i && j == i + 1 && j < m.metadata_log@.len() implies (
        #[trigger] m.metadata_log@[j]).timestamp_ms >= (#[trigger] m.metadata_log@[i]).timestamp_ms - 60000 by {
            assert(follows(times[i], times[i + 1]));
        }
    } else {
        let i: int = choose|i: int|
            0 <= i < times.len() - 1 && !follows(#[trigger] times[i], times[i + 1]);
        assert(m.metadata_log@[i + 1].timestamp_ms < m.metadata_log@[i].timestamp_ms - 60000);
    }
}

/// The parts of the messages about logs put together.
proof fn log_texts()
    ensures
        "Expected sorted "@ + "snapshot"@ + " log entries"@ == "Expected sorted snapshot log entries"@,
        "Expected sorted "@ + "metadata"@ + " log entries"@ == "Expected sorted metadata log entries"@,
        ": before last "@ + "snapshot"@ + " log entry at "@ == ": before last snapshot log entry at "@,
        ": before last "@ + "metadata"@ + " log entry at "@ == ": before last metadata log entry at "@,
{
    reveal_strlit("Expected sorted ");
    reveal_strlit("snapshot");
    reveal_strlit("metadata");
    reveal_strlit(" log entries");
    reveal_strlit("Expected sorted snapshot log entries");
    reveal_strlit("Expected sorted metadata log entries");
    reveal_strlit(": before last ");
    reveal_strlit(" log entry at ");
    reveal_strlit(": before last snapshot log entry at ");
    reveal_strlit(": before last metadata log entry at ");
}

/// The default partition spec is listed afterwards, and the other specs stay. Nothing else changes.
pub proof fn default_spec_is_listed(m: &mut TableMetadata, r: Result<(), Error>)
    requires
        call_ensures(TableMetadata::try_normalize_partition_spec, (m,), r),
    ensures
        r is Ok,
        final(m).partition_specs@.contains_key(old(m).default_spec.spec_id),
        !old(m).partition_specs@.contains_key(old(m).default_spec.spec_id) ==> {
            let added = final(m).partition_specs@[old(m).default_spec.spec_id];
            added.spec_id == old(m).default_spec.spec_id && added.fields@ == old(m).default_spec.fields@
        },
        forall|id: i32| #[trigger]
            old(m).partition_specs@.contains_key(id) ==> final(m).partition_specs@.contains_key(id)
                && final(m).partition_specs@[id]@ == old(m).partition_specs@[id]@,
        forall|id: i32| #[trigger]
            final(m).partition_specs@.contains_key(id) ==> old(m).partition_specs@.contains_key(id) || id
                == old(m).default_spec.spec_id,
        final(m)@ == (TableMetadataView { partition_specs: final(m)@.partition_specs, ..old(m)@ }),
{
    let id: i32 = old(m).default_spec.spec_id;
    assert(final(m)@.partition_specs.contains_key(id));
    assert(old(m)@.partition_specs.contains_key(id) == old(m).partition_specs@.contains_key(id));
    assert(final(m).partition_specs@[id]@ == final(m)@.partition_specs[id]);
    assert forall|id: i32| #[trigger]
        old(m).partition_specs@.contains_key(id) implies final(m).partition_specs@.contains_key(id) && final(m).partition_specs@[id]@ == old(m).partition_specs@[id]@ by {
        assert(old(m)@.partition_specs.contains_key(id));
        assert(final(m)@.partition_specs.contains_key(id));
        assert(final(m)@.partition_specs[id] == old(m)@.partition_specs[id]);
    }
    assert forall|id: i32| #[trigger]
        final(m).partition_specs@.contains_key(id) implies old(m).partition_specs@.contains_key(id) || id
        == old(m).default_spec.spec_id by {
        assert(final(m)@.partition_specs.contains_key(id));
    }
}

/// The default sort order is listed afterwards: only the one of rows that are not sorted, which has
/// the id zero and no keys, may be missing before. The other sort orders stay, and nothing else
/// changes.
pub proof fn default_sort_order_is_listed(m: &mut TableMetadata, r: Result<(), Error>)
    requires
        call_ensures(TableMetadata::try_normalize_sort_order, (m,), r),
    ensures
        r is Ok <==> old(m).sort_orders@.contains_key(old(m).default_sort_order_id) || old(m).default_sort_order_id
            == 0,
        r is Ok ==> final(m).sort_orders@.contains_key(old(m).default_sort_order_id),
        r is Ok && !old(m).sort_orders@.contains_key(old(m).default_sort_order_id) ==> {
            &&& final(m).sort_orders@[0].order_id == 0
            &&& final(m).sort_orders@[0].fields@.len() == 0
        },
        forall|id: i64| #[trigger]
            old(m).sort_orders@.contains_key(id) ==> final(m).sort_orders@.contains_key(id)
                && final(m).sort_orders@[id]@ == old(m).sort_orders@[id]@,
        forall|id: i64| #[trigger]
            final(m).sort_orders@.contains_key(id) ==> old(m).sort_orders@.contains_key(id) || (r is Ok && id
                == old(m).default_sort_order_id),
        final(m)@ == (TableMetadataView { sort_orders: final(m)@.sort_orders, ..old(m)@ }),
        r matches Err(e) ==> says(
            e,
            "No sort order exists with the default sort order id "@ + decimal(old(m).default_sort_order_id as int)
                + "."@,
        ),
{
    assert(old(m)@.sort_orders.contains_key(old(m).default_sort_order_id) == old(m).sort_orders@.contains_key(
        old(m).default_sort_order_id,
    ));
    if r is Ok {
        assert(final(m)@.sort_orders.contains_key(old(m).default_sort_order_id));
        assert(final(m).sort_orders@[old(m).default_sort_order_id]@
            == final(m)@.sort_orders[old(m).default_sort_order_id]);
    }
    assert forall|id: i64| #[trigger]
        old(m).sort_orders@.contains_key(id) implies final(m).sort_orders@.contains_key(id)
        && final(m).sort_orders@[id]@ == old(m).sort_orders@[id]@ by {
        assert(old(m)@.sort_orders.contains_key(id));
        assert(final(m)@.sort_orders.contains_key(id));
        assert(final(m)@.sort_orders[id] == old(m)@.sort_orders[id]);
    }
    assert forall|id: i64| #[trigger]
        final(m).sort_orders@.contains_key(id) implies old(m).sort_orders@.contains_key(id) || (r is Ok && id
        == old(m).default_sort_order_id) by {
        assert(final(m)@.sort_orders.contains_key(id));
    }
}

/// No entry of a log with these timestamps is more than a minute before the entry it follows.
pub open spec fn in_time(times: Seq<i64>) -> bool {
    forall|i: int, j: int|
        0 <= i && j == i + 1 && j < times.len() ==> #[trigger] times[j] >= #[trigger] times[i] - 60000
}

/// The last update is not more than a minute before the last entry of a log.
pub open spec fn updated_after(times: Seq<i64>, last_updated_ms: i64) -> bool {
    times.len() > 0 ==> last_updated_ms >= times[times.len() - 1] - 60000
}

/// The timestamps of a snapshot log.
pub open spec fn times_of(log: Seq<SnapshotLog>) -> Seq<i64> {
    Seq::new(log.len(), |i: int| log[i].timestamp_ms)
}

/// The timestamps of a metadata log.
pub open spec fn file_times_of(log: Seq<MetadataLog>) -> Seq<i64> {
    Seq::new(log.len(), |i: int| log[i].timestamp_ms)
}

/// The snapshot that metadata says is current, where -1 stands for none.
pub open spec fn said_current(m: TableMetadataView) -> Option<i64> {
    if m.current_snapshot_id == Some(-1i64) {
        None
    } else {
        m.current_snapshot_id
    }
}

/// Every reference is to a listed snapshot.
pub open spec fn all_listed(m: TableMetadataView) -> bool {
    forall|name: Seq<char>|
        m.refs.contains_key(name) ==> m.snapshots.contains_key((#[trigger] m.refs[name]).snapshot_id)
}

/// The main branch, where there is one, is to the current snapshot.
pub open spec fn main_fits(m: TableMetadataView) -> bool {
    m.refs.contains_key("main"@) ==> said_current(m) == Some(m.refs["main"@].snapshot_id)
}

/// Metadata can be brought to keep the rules.
pub open spec fn acceptable(m: TableMetadataView) -> bool {
    &&& m.schemas.contains_key(m.current_schema_id)
    &&& said_current(m) matches Some(id) ==> m.snapshots.contains_key(id)
    &&& all_listed(m)
    &&& main_fits(m)
    &&& in_time(times_of(m.snapshot_log))
    &&& updated_after(times_of(m.snapshot_log), m.last_updated_ms)
    &&& in_time(file_times_of(m.metadata_log))
    &&& updated_after(file_times_of(m.metadata_log), m.last_updated_ms)
    &&& m.format_version == FormatVersion::V1 ==> m.last_sequence_number == 0
    &&& m.format_version == FormatVersion::V2 ==> forall|id: i64|
        m.snapshots.contains_key(id) ==> (#[trigger] m.snapshots[id]).sequence_number <= m.last_sequence_number
    &&& m.default_sort_order_id == 0 || m.sort_orders.contains_key(m.default_sort_order_id)
}

/// What is said of metadata that cannot be brought to keep the rules: the complaint is about the
/// first rule that is broken, in the order of this list.
pub open spec fn complaint(m: TableMetadataView, e: Error) -> bool {
    if !m.schemas.contains_key(m.current_schema_id) {
        says(e, "No schema exists with the current schema id "@ + decimal(m.current_schema_id as int) + "."@)
    } else if said_current(m) matches Some(id) && !m.snapshots.contains_key(id) {
        says(
            e,
            "Snapshot for current snapshot id "@ + decimal(said_current(m).unwrap() as int)
                + " does not exist in the existing snapshots list"@,
        )
    } else if !all_listed(m) {
        exists|name: Seq<char>|
            m.refs.contains_key(name) && !m.snapshots.contains_key((#[trigger] m.refs[name]).snapshot_id) && says(
                e,
                "Snapshot for reference "@ + name + " does not exist in the existing snapshots list"@,
            )
    } else if !main_fits(m) {
        match said_current(m) {
            Some(id) => says(
                e,
                "Current snapshot id does not match main branch ("@ + decimal(id as int) + " != "@ + decimal(
                    m.refs["main"@].snapshot_id as int,
                ) + ")"@,
            ),
            None => says(e, "Current snapshot is not set, but main branch exists"@),
        }
    } else if !in_time(times_of(m.snapshot_log)) {
        says(e, "Expected sorted snapshot log entries"@)
    } else if !updated_after(times_of(m.snapshot_log), m.last_updated_ms) {
        says(
            e,
            "Invalid update timestamp "@ + decimal(m.last_updated_ms as int) + ": before last snapshot log entry at "@
                + decimal(m.snapshot_log[m.snapshot_log.len() - 1].timestamp_ms as int),
        )
    } else if !in_time(file_times_of(m.metadata_log)) {
        says(e, "Expected sorted metadata log entries"@)
    } else if !updated_after(file_times_of(m.metadata_log), m.last_updated_ms) {
        says(
            e,
            "Invalid update timestamp "@ + decimal(m.last_updated_ms as int) + ": before last metadata log entry at "@
                + decimal(m.metadata_log[m.metadata_log.len() - 1].timestamp_ms as int),
        )
    } else if m.format_version == FormatVersion::V1 && m.last_sequence_number != 0 {
        says(e, "Last sequence number must be 0 in v1. Found "@ + decimal(m.last_sequence_number as int))
    } else if m.format_version == FormatVersion::V2 && exists|id: i64|
        m.snapshots.contains_key(id) && (#[trigger] m.snapshots[id]).sequence_number > m.last_sequence_number {
        exists|id: i64|
            m.snapshots.contains_key(id) && (#[trigger] m.snapshots[id]).sequence_number > m.last_sequence_number
                && says(
                e,
                "Invalid snapshot with id "@ + decimal(m.snapshots[id].snapshot_id as int)
                    + " and sequence number "@ + decimal(m.snapshots[id].sequence_number as int)
                    + " greater than last sequence number "@ + decimal(m.last_sequence_number as int),
            )
    } else {
        says(
            e,
            "No sort order exists with the default sort order id "@ + decimal(m.default_sort_order_id as int) + "."@,
        )
    }
}

/// Timestamps run with time exactly when each follows the one before.
proof fn in_time_means(times: Seq<i64>, log: Seq<i64>)
    requires
        times == log,
    ensures
        chronological(times) <==> in_time(log),
{
    if in_time(log) {
        assert forall|i: int| 0 <= i < times.len() - 1 implies follows(#[trigger] times[i], times[i + 1]) by {
            assert(log[i + 1] >= log[i] - 60000);
        }
    }
    if chronological(times) {
        assert forall|i: int, j: int| 0 <= i && j == i + 1 && j < log.len() implies #[trigger] log[j]
            >= #[trigger] log[i] - 60000 by {
            assert(follows(times[i], times[i + 1]));
        }
    }
}

/// References are in order once the main branch was added exactly when they were before.
proof fn references_in_order(m: TableMetadataView)
    requires
        current_snapshot_fault(m) is None,
    ensures
        refs_exist(referenced(m)) <==> all_listed(m),
        main_is_current(referenced(m)) <==> main_fits(m),
{
    let n: TableMetadataView = referenced(m);
    if all_listed(m) {
        assert forall|name: Seq<char>| #[trigger] n.refs.contains_key(name) implies n.snapshots.contains_key(
            n.refs[name].snapshot_id,
        ) by {
            if m.refs.contains_key(name) {
                assert(m.snapshots.contains_key(m.refs[name].snapshot_id));
            }
        }
    }
    if refs_exist(n) {
        assert forall|name: Seq<char>| m.refs.contains_key(name) implies m.snapshots.contains_key(
            (#[trigger] m.refs[name]).snapshot_id,
        ) by {
            assert(n.refs.contains_key(name));
        }
    }
}

/// Metadata can be brought to keep the rules exactly when it is acceptable.
pub(crate) proof fn acceptable_means(m: TableMetadataView)
    ensures
        normalizable(m) <==> acceptable(m),
{
    assert(snapshot_times(m) =~= times_of(m.snapshot_log));
    assert(metadata_times(m) =~= file_times_of(m.metadata_log));
    in_time_means(snapshot_times(m), times_of(m.snapshot_log));
    in_time_means(metadata_times(m), file_times_of(m.metadata_log));
    if current_snapshot_fault(m) is None {
        references_in_order(m);
    }
    if acceptable(m) && m.format_version == FormatVersion::V2 {
        assert forall|id: i64| #[trigger] m.snapshots.contains_key(id) implies m.snapshots[id].sequence_number
            <= m.last_sequence_number by {}
    }
    if normalizable(m) && m.format_version == FormatVersion::V2 {
        assert forall|id: i64| m.snapshots.contains_key(id) implies (#[trigger] m.snapshots[id]).sequence_number
            <= m.last_sequence_number by {}
    }
}

/// The error about metadata that cannot be brought to keep the rules is the complaint.
pub(crate) proof fn complaint_means(m: TableMetadataView, e: Error)
    requires
        !normalizable(m),
        normalize_error(m, e@),
    ensures
        complaint(m, e),
{
    assert(snapshot_times(m) =~= times_of(m.snapshot_log));
    assert(metadata_times(m) =~= file_times_of(m.metadata_log));
    in_time_means(snapshot_times(m), times_of(m.snapshot_log));
    in_time_means(metadata_times(m), file_times_of(m.metadata_log));
    log_texts();
    let update: Seq<char> = "Invalid update timestamp "@ + decimal(m.last_updated_ms as int);
    assert(update + ": before last "@ + "snapshot"@ + " log entry at "@ =~= update + (": before last "@ + "snapshot"@
        + " log entry at "@));
    assert(update + ": before last "@ + "metadata"@ + " log entry at "@ =~= update + (": before last "@ + "metadata"@
        + " log entry at "@));
    if current_snapshot_fault(m) is None {
        references_in_order(m);
        if !all_listed(m) && current_schema_fault(m) is None {
            let n: TableMetadataView = referenced(m);
            let name: Seq<char> = choose|name: Seq<char>| #[trigger] dangles(n, name) && e@ == dangling_ref(name);
            assert(m.refs.contains_key(name) && !m.snapshots.contains_key(m.refs[name].snapshot_id));
        }
    }
    if m.format_version == FormatVersion::V2 {
        if sequence_ok(m) {
            assert forall|id: i64| m.snapshots.contains_key(id) implies (#[trigger] m.snapshots[id]).sequence_number
                <= m.last_sequence_number by {}
        } else {
            let id: i64 = choose|id: i64| #[trigger]
                m.snapshots.contains_key(id) && m.snapshots[id].sequence_number > m.last_sequence_number;
            assert(m.snapshots[id].sequence_number > m.last_sequence_number);
        }
    }
}

/// Bringing metadata to keep the rules succeeds exactly when the metadata is acceptable. Else the
/// error is the complaint about the first rule that is broken.
pub proof fn normalizing_succeeds_when_acceptable(m: &mut TableMetadata, r: Result<&mut TableMetadata, Error>)
    requires
        call_ensures(TableMetadata::try_normalize, (m,), r),
    ensures
        r is Ok <==> acceptable(old(m)@),
        r matches Err(e) ==> complaint(old(m)@, e),
{
    acceptable_means(old(m)@);
    if let Err(e) = r {
        complaint_means(old(m)@, e);
    }
}

/// Bringing metadata to keep the rules: -1 as the current snapshot goes, a missing main branch, a
/// missing default partition spec and a missing sort order for rows that are not sorted are added,
/// slashes at the end of the location go, and all else stays.
pub proof fn normalizing_repairs(m: &mut TableMetadata, t: &mut TableMetadata)
    requires
        call_ensures(TableMetadata::try_normalize, (m,), Ok(t)),
    ensures
        *final(m) == *final(t),
        old(t).current_snapshot_id == said_current(old(m)@),
        forall|name: Seq<char>| #[trigger]
            old(m).refs@.contains_key(name) ==> old(t).refs@.contains_key(name) && old(t).refs@[name]
                == old(m).refs@[name],
        forall|name: Seq<char>| #[trigger]
            old(t).refs@.contains_key(name) ==> old(m).refs@.contains_key(name) || name == "main"@,
        old(t).refs@.contains_key("main"@) <==> old(t).current_snapshot_id is Some,
        old(t).current_snapshot_id matches Some(id) ==> !old(m).refs@.contains_key("main"@) ==> unlimited_branch(
            old(t).refs@["main"@],
            id,
        ),
        old(t).location@.len() <= old(m).location@.len(),
        old(t).location@ == old(m).location@.take(old(t).location@.len() as int),
        forall|i: int| old(t).location@.len() <= i < old(m).location@.len() ==> old(m).location@[i] == '/',
        old(t).location@.len() > 0 ==> old(t).location@[old(t).location@.len() - 1] != '/',
        old(m)@.partition_specs.submap_of(old(t)@.partition_specs),
        old(t)@.partition_specs.contains_key(old(m).default_spec.spec_id),
        forall|id: i32| #[trigger]
            old(t)@.partition_specs.contains_key(id) ==> old(m)@.partition_specs.contains_key(id) || (id
                == old(m).default_spec.spec_id && old(t)@.partition_specs[id] == old(m)@.default_spec),
        old(m)@.sort_orders.submap_of(old(t)@.sort_orders),
        old(t)@.sort_orders.contains_key(old(m).default_sort_order_id),
        forall|id: i64| #[trigger]
            old(t)@.sort_orders.contains_key(id) ==> old(m)@.sort_orders.contains_key(id) || (id == 0
                && old(m).default_sort_order_id == 0 && old(t)@.sort_orders[0].order_id == 0
                && old(t)@.sort_orders[0].fields.len() == 0),
        old(t)@ == (TableMetadataView {
            current_snapshot_id: old(t)@.current_snapshot_id,
            refs: old(t)@.refs,
            location: old(t)@.location,
            partition_specs: old(t)@.partition_specs,
            sort_orders: old(t)@.sort_orders,
            ..old(m)@
        }),
{
    let before: TableMetadataView = old(m)@;
    trailing_slashes_only(before.location);
    normalizing_changes_little(before);
    main_branch_follows_current_snapshot(before);
    normalized_is_whole(before);
}

} // verus!
