//! The rules that table metadata keeps, and how metadata from elsewhere is brought to keep them.

use crate::error::{data_invalid, Error, ErrorView};
use crate::format_version::FormatVersion;
use crate::logs::{MetadataLog, SnapshotLog};
use crate::metadata::{seen, TableMetadata, TableMetadataView, EMPTY_SNAPSHOT_ID, MAIN_BRANCH, ONE_MINUTE_MS};
use crate::shared::share;
use crate::snapshot::{plain_branch, SnapshotReference, SnapshotView};
use crate::sort::{unsorted, SortOrder};
use crate::text::{around_number, decimal, push_decimal, trim_trailing_slashes, without_trailing_slashes};
use std::sync::Arc;
use vstd::prelude::*;
use vstd::string::StringExecFns;

verus! {

broadcast use vstd::std_specs::hash::group_hash_axioms;

/// That there is no schema with the current schema id, where this is so.
pub open spec fn current_schema_fault(m: TableMetadataView) -> Option<ErrorView> {
    if m.schemas.contains_key(m.current_schema_id) {
        None
    } else {
        Some(no_schema(m.current_schema_id))
    }
}

/// The error about a current schema id that no schema has.
pub open spec fn no_schema(id: i32) -> ErrorView {
    data_invalid("No schema exists with the current schema id "@ + decimal(id as int) + "."@)
}

/// That there is no snapshot with the current snapshot id, where this is so.
pub open spec fn current_snapshot_fault(m: TableMetadataView) -> Option<ErrorView> {
    match m.current_snapshot_id {
        Some(id) => if id == EMPTY_SNAPSHOT_ID || m.snapshots.contains_key(id) {
            None
        } else {
            Some(
                data_invalid(
                    "Snapshot for current snapshot id "@ + decimal(id as int)
                        + " does not exist in the existing snapshots list"@,
                ),
            )
        },
        None => None,
    }
}

/// The metadata with no current snapshot id in place of the one that stands for no snapshot.
pub open spec fn without_empty_snapshot(m: TableMetadataView) -> TableMetadataView {
    if m.current_snapshot_id == Some(EMPTY_SNAPSHOT_ID) {
        TableMetadataView { current_snapshot_id: None, ..m }
    } else {
        m
    }
}

/// The metadata with a main branch, which points to the current snapshot where it is new. Without
/// a current snapshot no branch is added.
pub open spec fn with_main_branch(m: TableMetadataView) -> TableMetadataView {
    match m.current_snapshot_id {
        Some(id) => if m.refs.contains_key(MAIN_BRANCH@) {
            m
        } else {
            TableMetadataView { refs: m.refs.insert(MAIN_BRANCH@, plain_branch(id)), ..m }
        },
        None => m,
    }
}

/// A reference to a snapshot that does not exist.
pub open spec fn dangles(m: TableMetadataView, name: Seq<char>) -> bool {
    m.refs.contains_key(name) && !m.snapshots.contains_key(m.refs[name].snapshot_id)
}

/// Every reference is to a snapshot that exists.
pub open spec fn refs_exist(m: TableMetadataView) -> bool {
    forall|name: Seq<char>| #[trigger]
        m.refs.contains_key(name) ==> m.snapshots.contains_key(m.refs[name].snapshot_id)
}

/// The main branch points to the current snapshot. Without a current snapshot there is no main
/// branch.
pub open spec fn main_is_current(m: TableMetadataView) -> bool {
    match m.current_snapshot_id {
        Some(id) => m.refs.contains_key(MAIN_BRANCH@) ==> m.refs[MAIN_BRANCH@].snapshot_id == id,
        None => !m.refs.contains_key(MAIN_BRANCH@),
    }
}

/// References are as they should be.
pub open spec fn refs_ok(m: TableMetadataView) -> bool {
    refs_exist(m) && main_is_current(m)
}

/// The error about a reference to a snapshot that does not exist.
pub open spec fn dangling_ref(name: Seq<char>) -> ErrorView {
    data_invalid(
        "Snapshot for reference "@ + name + " does not exist in the existing snapshots list"@,
    )
}

/// An error about references that are not as they should be: about any one that dangles, or else
/// about the main branch.
pub open spec fn refs_fault(m: TableMetadataView, e: ErrorView) -> bool {
    if !refs_exist(m) {
        exists|name: Seq<char>| #[trigger] dangles(m, name) && e == dangling_ref(name)
    } else {
        &&& !main_is_current(m)
        &&& e == (match m.current_snapshot_id {
            Some(id) => data_invalid(
                "Current snapshot id does not match main branch ("@ + decimal(id as int) + " != "@ + decimal(
                    m.refs[MAIN_BRANCH@].snapshot_id as int,
                ) + ")"@,
            ),
            None => data_invalid("Current snapshot is not set, but main branch exists"@),
        })
    }
}

/// One timestamp comes after another, or before it by a minute at most.
pub open spec fn follows(earlier: i64, later: i64) -> bool {
    later - earlier >= -ONE_MINUTE_MS
}

/// Each timestamp follows the one before it.
pub open spec fn chronological(times: Seq<i64>) -> bool {
    forall|i: int| 0 <= i < times.len() - 1 ==> follows(#[trigger] times[i], times[i + 1])
}

/// Why a log is not as it should be for metadata that was last updated at the given time, if it is
/// not: its entries run against the order of time, or the update does.
pub open spec fn log_fault(times: Seq<i64>, last_updated_ms: i64, name: Seq<char>) -> Option<ErrorView> {
    if !chronological(times) {
        Some(data_invalid("Expected sorted "@ + name + " log entries"@))
    } else if times.len() > 0 && !follows(times.last(), last_updated_ms) {
        Some(
            data_invalid(
                "Invalid update timestamp "@ + decimal(last_updated_ms as int) + ": before last "@ + name
                    + " log entry at "@ + decimal(times.last() as int),
            ),
        )
    } else {
        None
    }
}

/// The difference of two timestamps is a number of 64 bits.
pub open spec fn gap_fits(earlier: i64, later: i64) -> bool {
    i64::MIN <= later - earlier <= i64::MAX
}

/// Timestamps are no further apart than a number of 64 bits can say, as far as they are compared:
/// up to the first pair that runs against the order of time.
pub open spec fn gaps_fit(times: Seq<i64>, last_updated_ms: i64) -> bool {
    &&& forall|i: int|
        0 <= i < times.len() - 1 && chronological(#[trigger] times.take(i + 1)) ==> gap_fits(
            times[i],
            times[i + 1],
        )
    &&& times.len() > 0 && chronological(times) ==> gap_fits(times.last(), last_updated_ms)
}

/// The timestamps of the snapshot log.
pub open spec fn snapshot_times(m: TableMetadataView) -> Seq<i64> {
    m.snapshot_log.map_values(|l: SnapshotLog| l.timestamp_ms)
}

/// The timestamps of the metadata log.
pub open spec fn metadata_times(m: TableMetadataView) -> Seq<i64> {
    m.metadata_log.map_values(|l: MetadataLog| l.timestamp_ms)
}

/// Why the snapshot log is not as it should be, if it is not.
pub open spec fn snapshot_log_fault(m: TableMetadataView) -> Option<ErrorView> {
    log_fault(snapshot_times(m), m.last_updated_ms, "snapshot"@)
}

/// Why the metadata log is not as it should be, if it is not.
pub open spec fn metadata_log_fault(m: TableMetadataView) -> Option<ErrorView> {
    log_fault(metadata_times(m), m.last_updated_ms, "metadata"@)
}

/// The metadata with a location that does not end in a slash.
pub open spec fn with_trimmed_location(m: TableMetadataView) -> TableMetadataView {
    TableMetadataView { location: without_trailing_slashes(m.location), ..m }
}

/// Sequence numbers are as they should be: in version 1 the last one is zero, from version 2 on no
/// snapshot has a greater one than the last.
pub open spec fn sequence_ok(m: TableMetadataView) -> bool {
    if m.format_version == FormatVersion::V1 {
        m.last_sequence_number == 0
    } else {
        forall|id: i64| #[trigger]
            m.snapshots.contains_key(id) ==> m.snapshots[id].sequence_number <= m.last_sequence_number
    }
}

/// The error about a snapshot whose sequence number is greater than the last one.
pub open spec fn sequence_too_great(s: SnapshotView, last_sequence_number: i64) -> ErrorView {
    data_invalid(
        "Invalid snapshot with id "@ + decimal(s.snapshot_id as int) + " and sequence number "@ + decimal(
            s.sequence_number as int,
        ) + " greater than last sequence number "@ + decimal(last_sequence_number as int),
    )
}

/// An error about sequence numbers that are not as they should be: from version 2 on, about any
/// one snapshot whose number is too great.
pub open spec fn sequence_fault(m: TableMetadataView, e: ErrorView) -> bool {
    if m.format_version == FormatVersion::V1 {
        &&& m.last_sequence_number != 0
        &&& e == data_invalid(
            "Last sequence number must be 0 in v1. Found "@ + decimal(m.last_sequence_number as int),
        )
    } else {
        exists|id: i64| #[trigger]
            m.snapshots.contains_key(id) && m.snapshots[id].sequence_number > m.last_sequence_number && e
                == sequence_too_great(m.snapshots[id], m.last_sequence_number)
    }
}

/// The metadata with its default partition spec among its partition specs.
pub open spec fn with_default_spec(m: TableMetadataView) -> TableMetadataView {
    if m.partition_specs.contains_key(m.default_spec.spec_id) {
        m
    } else {
        TableMetadataView {
            partition_specs: m.partition_specs.insert(m.default_spec.spec_id, m.default_spec),
            ..m
        }
    }
}

/// That there is no sort order with the default sort order id, where this is so and the id is not
/// that of rows that are not sorted.
pub open spec fn sort_order_fault(m: TableMetadataView) -> Option<ErrorView> {
    if m.sort_orders.contains_key(m.default_sort_order_id) || m.default_sort_order_id
        == SortOrder::UNSORTED_ORDER_ID {
        None
    } else {
        Some(
            data_invalid(
                "No sort order exists with the default sort order id "@ + decimal(
                    m.default_sort_order_id as int,
                ) + "."@,
            ),
        )
    }
}

/// The metadata with the sort order of rows that are not sorted, where this is the default one and
/// was missing.
pub open spec fn with_default_sort_order(m: TableMetadataView) -> TableMetadataView {
    if m.sort_orders.contains_key(m.default_sort_order_id) {
        m
    } else {
        TableMetadataView { sort_orders: m.sort_orders.insert(SortOrder::UNSORTED_ORDER_ID, unsorted()), ..m }
    }
}

/// The metadata with its current snapshot and its main branch in order.
pub open spec fn referenced(m: TableMetadataView) -> TableMetadataView {
    with_main_branch(without_empty_snapshot(m))
}

/// The metadata keeps the rules, or can be brought to keep them.
pub open spec fn normalizable(m: TableMetadataView) -> bool {
    &&& current_schema_fault(m) is None
    &&& current_snapshot_fault(m) is None
    &&& refs_ok(referenced(m))
    &&& snapshot_log_fault(m) is None
    &&& metadata_log_fault(m) is None
    &&& sequence_ok(m)
    &&& sort_order_fault(m) is None
}

/// The metadata brought to keep the rules.
pub open spec fn normalized(m: TableMetadataView) -> TableMetadataView {
    with_default_sort_order(with_default_spec(with_trimmed_location(referenced(m))))
}

/// The timestamps that are compared while metadata is brought to keep the rules are no further
/// apart than a number of 64 bits can say.
pub open spec fn comparable(m: TableMetadataView) -> bool {
    current_schema_fault(m) is None && current_snapshot_fault(m) is None && refs_ok(referenced(m)) ==> {
        &&& gaps_fit(snapshot_times(m), m.last_updated_ms)
        &&& snapshot_log_fault(m) is None ==> gaps_fit(metadata_times(m), m.last_updated_ms)
    }
}

/// The error about metadata that cannot be brought to keep the rules: it is about the first rule
/// that is broken.
pub open spec fn normalize_error(m: TableMetadataView, e: ErrorView) -> bool {
    if current_schema_fault(m) is Some {
        current_schema_fault(m) == Some(e)
    } else if current_snapshot_fault(m) is Some {
        current_snapshot_fault(m) == Some(e)
    } else if !refs_ok(referenced(m)) {
        refs_fault(referenced(m), e)
    } else if snapshot_log_fault(m) is Some {
        snapshot_log_fault(m) == Some(e)
    } else if metadata_log_fault(m) is Some {
        metadata_log_fault(m) == Some(e)
    } else if !sequence_ok(m) {
        sequence_fault(m, e)
    } else {
        sort_order_fault(m) == Some(e)
    }
}

/// How far metadata that cannot be brought to keep the rules has come when the error is found.
pub open spec fn normalized_so_far(m: TableMetadataView) -> TableMetadataView {
    if current_schema_fault(m) is Some || current_snapshot_fault(m) is Some {
        m
    } else if !refs_ok(referenced(m)) || snapshot_log_fault(m) is Some || metadata_log_fault(m) is Some {
        referenced(m)
    } else if !sequence_ok(m) {
        with_trimmed_location(referenced(m))
    } else {
        with_default_spec(with_trimmed_location(referenced(m)))
    }
}

/// Putting a value into a map of shared values puts what it is into the map of what they are.
pub(crate) proof fn seen_insert<K, T: View>(m: Map<K, Arc<T>>, k: K, v: Arc<T>)
    ensures
        seen(m.insert(k, v)) == seen(m).insert(k, v@),
{
    assert(seen(m.insert(k, v)) =~= seen(m).insert(k, v@));
}

fn check_times(times: &Vec<i64>, last_updated_ms: i64, name: &str) -> (r: Result<(), Error>)
    requires
        gaps_fit(times@, last_updated_ms),
    ensures
        match r {
            Ok(_) => log_fault(times@, last_updated_ms, name@) is None,
            Err(e) => log_fault(times@, last_updated_ms, name@) == Some(e@),
        },
{
    let mut i: usize = 1;
    proof {
        if times@.len() > 0 {
            assert(chronological(times@.take(1)));
        }
    }
    while i < times.len()
        invariant
            1 <= i,
            i <= times@.len() || times@.len() == 0,
            gaps_fit(times@, last_updated_ms),
            times@.len() > 0 ==> chronological(times@.take(i as int)),
        decreases times@.len() - i,
    {
        proof {
            assert(chronological(times@.take((i - 1) + 1)));
            assert(gap_fits(times@[i - 1], times@[(i - 1) + 1]));
        }
        if times[i] - times[i - 1] < -ONE_MINUTE_MS {
            let mut text: String = "Expected sorted ".to_owned();
            text.append(name);
            text.append(" log entries");
            proof {
                assert(!follows(times@[i - 1], times@[(i - 1) + 1]));
            }
            return Err(Error::data_invalid(text));
        }
        proof {
            assert forall|j: int| 0 <= j < times@.take(i + 1).len() - 1 implies follows(
                #[trigger] times@.take(i + 1)[j],
                times@.take(i + 1)[j + 1],
            ) by {
                if j < i - 1 {
                    assert(follows(times@.take(i as int)[j], times@.take(i as int)[j + 1]));
                }
            }
        }
        i = i + 1;
    }
    proof {
        if times@.len() > 0 {
            assert(times@.take(i as int) =~= times@);
        }
    }
    if times.len() > 0 {
        let last: i64 = times[times.len() - 1];
        if last_updated_ms - last < -ONE_MINUTE_MS {
            let mut text: String = around_number("Invalid update timestamp ", last_updated_ms, ": before last ");
            text.append(name);
            text.append(" log entry at ");
            push_decimal(&mut text, last);
            return Err(Error::data_invalid(text));
        }
    }
    Ok(())
}

/// Tells whether one timestamp can be taken from another.
fn gap(earlier: i64, later: i64) -> (r: bool)
    ensures
        r == gap_fits(earlier, later),
{
    later.checked_sub(earlier).is_some()
}

/// Tells whether timestamps can be taken from each other, as far as they are compared.
fn check_gaps(times: &Vec<i64>, last_updated_ms: i64) -> (r: bool)
    ensures
        r == gaps_fit(times@, last_updated_ms),
{
    let mut i: usize = 1;
    proof {
        if times@.len() > 0 {
            assert(chronological(times@.take(1)));
        }
    }
    while i < times.len()
        invariant
            1 <= i,
            i <= times@.len() || times@.len() == 0,
            times@.len() > 0 ==> chronological(times@.take(i as int)),
            forall|j: int|
                0 <= j < i - 1 && chronological(#[trigger] times@.take(j + 1)) ==> gap_fits(times@[j], times@[j + 1]),
        decreases times@.len() - i,
    {
        proof {
            assert(chronological(times@.take((i - 1) + 1)));
        }
        if !gap(times[i - 1], times[i]) {
            return false;
        }
        if times[i] - times[i - 1] < -ONE_MINUTE_MS {
            proof {
                assert(!follows(times@[i - 1], times@[(i - 1) + 1]));
                assert forall|j: int|
                    0 <= j < times@.len() - 1 && chronological(#[trigger] times@.take(j + 1)) implies gap_fits(
                    times@[j],
                    times@[j + 1],
                ) by {
                    if j > i - 1 {
                        assert(!follows(times@.take(j + 1)[i - 1], times@.take(j + 1)[(i - 1) + 1]));
                    }
                }
            }
            return true;
        }
        proof {
            assert forall|j: int| 0 <= j < times@.take(i + 1).len() - 1 implies follows(
                #[trigger] times@.take(i + 1)[j],
                times@.take(i + 1)[j + 1],
            ) by {
                if j < i - 1 {
                    assert(follows(times@.take(i as int)[j], times@.take(i as int)[j + 1]));
                }
            }
        }
        i = i + 1;
    }
    proof {
        if times@.len() > 0 {
            assert(times@.take(i as int) =~= times@);
        }
    }
    times.len() == 0 || gap(times[times.len() - 1], last_updated_ms)
}

impl TableMetadata {
    /// The timestamps of the snapshot log.
    fn list_snapshot_times(&self) -> (r: Vec<i64>)
        ensures
            r@ == snapshot_times(self@),
    {
        let mut times: Vec<i64> = Vec::new();
        let mut i: usize = 0;
        while i < self.snapshot_log.len()
            invariant
                i <= self.snapshot_log@.len(),
                times@ == snapshot_times(self@).take(i as int),
            decreases self.snapshot_log@.len() - i,
        {
            times.push(self.snapshot_log[i].timestamp_ms);
            i = i + 1;
            proof {
                assert(times@ =~= snapshot_times(self@).take(i as int));
            }
        }
        proof {
            assert(snapshot_times(self@).take(i as int) =~= snapshot_times(self@));
        }
        times
    }

    /// The timestamps of the metadata log.
    fn list_metadata_times(&self) -> (r: Vec<i64>)
        ensures
            r@ == metadata_times(self@),
    {
        let mut times: Vec<i64> = Vec::new();
        let mut i: usize = 0;
        while i < self.metadata_log.len()
            invariant
                i <= self.metadata_log@.len(),
                times@ == metadata_times(self@).take(i as int),
            decreases self.metadata_log@.len() - i,
        {
            times.push(self.metadata_log[i].timestamp_ms);
            i = i + 1;
            proof {
                assert(times@ =~= metadata_times(self@).take(i as int));
            }
        }
        proof {
            assert(metadata_times(self@).take(i as int) =~= metadata_times(self@));
        }
        times
    }

    /// Tells whether the timestamps that are compared while the metadata is brought to keep the
    /// rules can be taken from each other.
    pub fn is_comparable(&self) -> (r: bool)
        ensures
            r == comparable(self@),
    {
        if self.validate_current_schema().is_err() {
            return true;
        }
        let mut copy: TableMetadata = self.clone();
        if copy.normalize_current_snapshot().is_err() {
            return true;
        }
        copy.construct_refs();
        if copy.validate_refs().is_err() {
            return true;
        }
        let times: Vec<i64> = self.list_snapshot_times();
        if !check_gaps(&times, self.last_updated_ms) {
            return false;
        }
        if self.validate_chronological_snapshot_logs().is_err() {
            return true;
        }
        let times: Vec<i64> = self.list_metadata_times();
        check_gaps(&times, self.last_updated_ms)
    }

    /// Validate the current schema is set and exists.
    pub fn validate_current_schema(&self) -> (r: Result<(), Error>)
        ensures
            match r {
                Ok(_) => current_schema_fault(self@) is None,
                Err(e) => current_schema_fault(self@) == Some(e@),
            },
    {
        if self.schema_by_id(self.current_schema_id).is_none() {
            return Err(
                Error::data_invalid(
                    around_number(
                        "No schema exists with the current schema id ",
                        self.current_schema_id as i64,
                        ".",
                    ),
                ),
            );
        }
        Ok(())
    }

    /// If current snapshot is Some(-1) then set it to None.
    pub fn normalize_current_snapshot(&mut self) -> (r: Result<(), Error>)
        ensures
            match r {
                Ok(_) => current_snapshot_fault(old(self)@) is None && final(self)@ == without_empty_snapshot(
                    old(self)@,
                ),
                Err(e) => current_snapshot_fault(old(self)@) == Some(e@) && *final(self) == *old(self),
            },
    {
        match self.current_snapshot_id {
            Some(current_snapshot_id) => {
                if current_snapshot_id == EMPTY_SNAPSHOT_ID {
                    self.current_snapshot_id = None;
                } else if self.snapshot_by_id(current_snapshot_id).is_none() {
                    return Err(
                        Error::data_invalid(
                            around_number(
                                "Snapshot for current snapshot id ",
                                current_snapshot_id,
                                " does not exist in the existing snapshots list",
                            ),
                        ),
                    );
                }
            },
            None => {},
        }
        Ok(())
    }

    /// Adds a main branch that points to the current snapshot, where there is none.
    pub fn construct_refs(&mut self)
        ensures
            final(self)@ == with_main_branch(old(self)@),
    {
        match self.current_snapshot_id {
            Some(current_snapshot_id) => {
                if !self.refs.contains_key(MAIN_BRANCH) {
                    self.refs.insert(MAIN_BRANCH.to_owned(), SnapshotReference::branch(current_snapshot_id));
                }
            },
            None => {},
        }
    }

    /// Validate that all refs are valid (snapshot exists)
    pub fn validate_refs(&self) -> (r: Result<(), Error>)
        ensures
            match r {
                Ok(_) => refs_ok(self@),
                Err(e) => refs_fault(self@, e@),
            },
    {
        let entries: &Vec<(String, SnapshotReference)> = self.refs.entries();
        let mut i: usize = 0;
        while i < entries.len()
            invariant
                i <= entries@.len(),
                forall|j: int|
                    0 <= j < entries@.len() ==> self.refs@.contains_key((#[trigger] entries@[j]).0@)
                        && self.refs@[entries@[j].0@] == entries@[j].1,
                forall|j: int|
                    0 <= j < i ==> self.snapshots@.contains_key((#[trigger] entries@[j]).1.snapshot_id),
            decreases entries@.len() - i,
        {
            if self.snapshot_by_id(entries[i].1.snapshot_id).is_none() {
                let mut text: String = "Snapshot for reference ".to_owned();
                text.append(entries[i].0.as_str());
                text.append(" does not exist in the existing snapshots list");
                proof {
                    assert(dangles(self@, entries@[i as int].0@));
                }
                return Err(Error::data_invalid(text));
            }
            i = i + 1;
        }
        proof {
            assert forall|name: Seq<char>| #[trigger] self@.refs.contains_key(name) implies self@.snapshots.contains_key(
                self@.refs[name].snapshot_id,
            ) by {
                let j: int = choose|j: int| 0 <= j < entries@.len() && (#[trigger] entries@[j]).0@ == name;
                assert(self.refs@[entries@[j].0@] == entries@[j].1);
            }
        }
        let main_ref: Option<&SnapshotReference> = self.refs.get(MAIN_BRANCH);
        match self.current_snapshot_id {
            Some(current_snapshot_id) => {
                if let Some(main_ref) = main_ref {
                    if main_ref.snapshot_id != current_snapshot_id {
                        let mut text: String = around_number(
                            "Current snapshot id does not match main branch (",
                            current_snapshot_id,
                            " != ",
                        );
                        push_decimal(&mut text, main_ref.snapshot_id);
                        text.append(")");
                        return Err(Error::data_invalid(text));
                    }
                }
            },
            None => {
                if main_ref.is_some() {
                    return Err(
                        Error::data_invalid(
                            "Current snapshot is not set, but main branch exists".to_owned(),
                        ),
                    );
                }
            },
        }
        Ok(())
    }

    /// Validate that for V1 Metadata the last_sequence_number is 0
    pub fn validate_snapshot_sequence_number(&self) -> (r: Result<(), Error>)
        ensures
            match r {
                Ok(_) => sequence_ok(self@),
                Err(e) => sequence_fault(self@, e@),
            },
    {
        if self.format_version < FormatVersion::V2 && self.last_sequence_number != 0 {
            let mut text: String = "Last sequence number must be 0 in v1. Found ".to_owned();
            push_decimal(&mut text, self.last_sequence_number);
            return Err(Error::data_invalid(text));
        }
        if self.format_version >= FormatVersion::V2 {
            for snapshot in it: self.snapshots.values()
                invariant
                    self.format_version == FormatVersion::V2,
                    it.seq().unref().to_set() == self.snapshots@.values(),
                    forall|j: int|
                        0 <= j < it.index() ==> (#[trigger] it.seq()[j]).sequence_number
                            <= self.last_sequence_number,
            {
                proof {
                    assert(it.seq().unref()[it.index()] == *snapshot);
                    assert(it.seq().unref().to_set().contains(*snapshot));
                }
                if snapshot.sequence_number() > self.last_sequence_number {
                    let mut text: String = around_number(
                        "Invalid snapshot with id ",
                        snapshot.snapshot_id(),
                        " and sequence number ",
                    );
                    push_decimal(&mut text, snapshot.sequence_number());
                    text.append(" greater than last sequence number ");
                    push_decimal(&mut text, self.last_sequence_number);
                    proof {
                        let id: i64 = choose|id: i64| #[trigger]
                            self.snapshots@.contains_key(id) && self.snapshots@[id] == *snapshot;
                        assert(self@.snapshots.contains_key(id));
                    }
                    return Err(Error::data_invalid(text));
                }
            }
            proof {
                assert forall|id: i64| #[trigger] self@.snapshots.contains_key(id) implies self@.snapshots[id].sequence_number
                    <= self@.last_sequence_number by {
                    assert(self.snapshots@.values().contains(self.snapshots@[id]));
                }
            }
        }
        Ok(())
    }

    /// Validate snapshots logs are chronological and last updated is after the last snapshot log.
    pub fn validate_chronological_snapshot_logs(&self) -> (r: Result<(), Error>)
        requires
            gaps_fit(snapshot_times(self@), self@.last_updated_ms),
        ensures
            match r {
                Ok(_) => snapshot_log_fault(self@) is None,
                Err(e) => snapshot_log_fault(self@) == Some(e@),
            },
    {
        let times: Vec<i64> = self.list_snapshot_times();
        check_times(&times, self.last_updated_ms, "snapshot")
    }

    /// Validate metadata logs are chronological and last updated is after the last metadata log.
    pub fn validate_chronological_metadata_logs(&self) -> (r: Result<(), Error>)
        requires
            gaps_fit(metadata_times(self@), self@.last_updated_ms),
        ensures
            match r {
                Ok(_) => metadata_log_fault(self@) is None,
                Err(e) => metadata_log_fault(self@) == Some(e@),
            },
    {
        let times: Vec<i64> = self.list_metadata_times();
        check_times(&times, self.last_updated_ms, "metadata")
    }

    /// If the default partition spec is not present in specs, add it
    pub fn try_normalize_partition_spec(&mut self) -> (r: Result<(), Error>)
        ensures
            r is Ok,
            final(self)@ == with_default_spec(old(self)@),
    {
        if self.partition_spec_by_id(self.default_spec.spec_id()).is_none() {
            let spec_id: i32 = self.default_spec.spec_id();
            let spec = share(&self.default_spec);
            self.partition_specs.insert(spec_id, spec);
            proof {
                seen_insert(old(self).partition_specs@, spec_id, spec);
            }
        }
        Ok(())
    }

    /// If the default sort order is unsorted but the sort order is not present, add it
    pub fn try_normalize_sort_order(&mut self) -> (r: Result<(), Error>)
        ensures
            match r {
                Ok(_) => sort_order_fault(old(self)@) is None && final(self)@ == with_default_sort_order(
                    old(self)@,
                ),
                Err(e) => sort_order_fault(old(self)@) == Some(e@) && *final(self) == *old(self),
            },
    {
        if self.sort_order_by_id(self.default_sort_order_id).is_some() {
            return Ok(());
        }
        if self.default_sort_order_id != SortOrder::UNSORTED_ORDER_ID {
            return Err(
                Error::data_invalid(
                    around_number(
                        "No sort order exists with the default sort order id ",
                        self.default_sort_order_id,
                        ".",
                    ),
                ),
            );
        }
        let sort_order = Arc::new(SortOrder::unsorted_order());
        self.sort_orders.insert(SortOrder::UNSORTED_ORDER_ID, sort_order);
        proof {
            seen_insert(old(self).sort_orders@, SortOrder::UNSORTED_ORDER_ID, sort_order);
        }
        Ok(())
    }

    /// Brings the metadata to keep the rules, or says which one it cannot keep.
    ///
    /// This is meant to be called after constructing table metadata from untrusted sources.
    pub fn try_normalize(&mut self) -> (r: Result<&mut Self, Error>)
        requires
            comparable(old(self)@),
        ensures
            match r {
                Ok(t) => {
                    &&& normalizable(old(self)@)
                    &&& t@ == normalized(old(self)@)
                    &&& *final(self) == *final(t)
                },
                Err(e) => {
                    &&& !normalizable(old(self)@)
                    &&& normalize_error(old(self)@, e@)
                    &&& final(self)@ == normalized_so_far(old(self)@)
                },
            },
    {
        self.validate_current_schema()?;
        self.normalize_current_snapshot()?;
        self.construct_refs();
        self.validate_refs()?;
        self.validate_chronological_snapshot_logs()?;
        self.validate_chronological_metadata_logs()?;
        // Normalize location (remove trailing slash)
        self.location = trim_trailing_slashes(&self.location);
        self.validate_snapshot_sequence_number()?;
        self.try_normalize_partition_spec()?;
        self.try_normalize_sort_order()?;
        Ok(self)
    }
}

} // verus!
