//! Which metadata files are read and which are refused, told on the files themselves.

use crate::datatypes::{ColumnView, NestedFieldRef};
use crate::documents::{TableMetadataEnum, TableMetadataV1, TableMetadataV2};
use crate::error::{Error, ErrorView};
use crate::format_version::FormatVersion;
use crate::listing::{collected, last_wins, last_wins_means};
use crate::metadata::{TableMetadata, TableMetadataView};
use crate::normalize::{chronological, gap_fits, gaps_fit, metadata_times, snapshot_times};
use crate::part_laws::{
    all_fit, binding, first_misfit, has_no_value, has_value, ill_made, making, values_typed, well_made,
};
use crate::partition::{partition_type_fields, PartitionField, PartitionSpec, PartitionSpecView};
use crate::read_laws::{all_or_first_reason, given_id, last_counts, reads};
use crate::reading::{
    assembled, assembled_v1, assembled_v2, default_spec_v1, default_spec_v2, greatest, main_only, read_outcome,
    schema_items_v1, schema_items_v2, schemas_v1, snapshot_items_v1, snapshot_pairs, sort_order_pairs, spec_pairs,
    specs_v1,
};
use crate::rule_laws::{
    acceptable, acceptable_means, all_listed, complaint, complaint_means, file_times_of, in_time, said_current,
    says, times_of, updated_after,
};
use crate::schema::{schema_columns, SchemaV1, SchemaV2, SchemaView};
use crate::snapshot::{SnapshotV1, SnapshotV2, SnapshotView};
use crate::sort::{SortOrder, SortOrderView};
use crate::text::decimal;
use vstd::prelude::*;

verus! {

/// A list that a file may leave out.
pub open spec fn given<T>(list: Option<Vec<T>>) -> Seq<T> {
    match list {
        Some(l) => l@,
        None => Seq::empty(),
    }
}

/// The snapshot that a file says is current, where -1 stands for none.
pub open spec fn given_current(id: Option<i64>) -> Option<i64> {
    if id == Some(-1i64) {
        None
    } else {
        id
    }
}

/// A schema is the last one in the list with its id.
pub open spec fn counts_v2(list: Seq<SchemaV2>, i: int) -> bool {
    &&& 0 <= i < list.len()
    &&& forall|j: int| i < j < list.len() ==> (#[trigger] list[j]).schema_id != list[i].schema_id
}

/// A schema is the last one in the list with its id.
pub open spec fn counts_v1(list: Seq<SchemaV1>, i: int) -> bool {
    &&& 0 <= i < list.len()
    &&& forall|j: int| i < j < list.len() ==> given_id(#[trigger] list[j]) != given_id(list[i])
}

/// A partition spec is the last one in the list with its id.
pub open spec fn spec_counts(list: Seq<PartitionSpec>, i: int) -> bool {
    &&& 0 <= i < list.len()
    &&& forall|j: int| i < j < list.len() ==> (#[trigger] list[j]).spec_id != list[i].spec_id
}

/// Each schema of a version 2 file can be made.
pub open spec fn schemas_made_v2(v: TableMetadataV2) -> bool {
    forall|i: int|
        0 <= i < v.schemas@.len() ==> well_made(
            (#[trigger] v.schemas@[i]).fields.fields@,
            given(v.schemas@[i].identifier_field_ids),
        )
}

/// The current schema of a version 2 file has these fields.
pub open spec fn current_has_v2(v: TableMetadataV2, columns: Seq<NestedFieldRef>) -> bool {
    exists|i: int| #[trigger]
        counts_v2(v.schemas@, i) && v.schemas@[i].schema_id == v.current_schema_id && columns
            == v.schemas@[i].fields.fields@
}

/// The default partition spec of a version 2 file has these fields. The one with the id zero need
/// not be listed, and has none where it is not.
pub open spec fn default_has_v2(v: TableMetadataV2, fields: Seq<PartitionField>) -> bool {
    ||| exists|i: int| #[trigger]
        spec_counts(v.partition_specs@, i) && v.partition_specs@[i].spec_id == v.default_spec_id && fields
            == v.partition_specs@[i].fields@
    ||| v.default_spec_id == 0 && fields.len() == 0 && forall|i: int|
        0 <= i < v.partition_specs@.len() ==> (#[trigger] v.partition_specs@[i]).spec_id != 0
}

/// A version 2 file keeps the rules, or can be brought to keep them.
pub open spec fn in_order_v2(v: TableMetadataV2) -> bool {
    let current = given_current(v.current_snapshot_id);
    &&& current matches Some(id) ==> listed_v2(given(v.snapshots), id)
    &&& refs_listed_v2(v)
    &&& v.refs matches Some(refs) ==> refs@.contains_key("main"@) ==> current == Some(refs@["main"@].snapshot_id)
    &&& in_time(times_of(given(v.snapshot_log)))
    &&& updated_after(times_of(given(v.snapshot_log)), v.last_updated_ms)
    &&& in_time(file_times_of(given(v.metadata_log)))
    &&& updated_after(file_times_of(given(v.metadata_log)), v.last_updated_ms)
    &&& none_ahead(given(v.snapshots), v.last_sequence_number)
    &&& v.default_sort_order_id == 0 || exists|i: int|
        0 <= i < v.sort_orders@.len() && (#[trigger] v.sort_orders@[i]).order_id == v.default_sort_order_id
}

proof fn schemas_of_v2(v: TableMetadataV2)
    ensures
        collected(schema_items_v2(v.schemas@)) is Ok <==> schemas_made_v2(v),
        collected(schema_items_v2(v.schemas@)) matches Ok(m) ==> {
            &&& forall|id: i32| #[trigger]
                m.contains_key(id) <==> exists|i: int|
                    0 <= i < v.schemas@.len() && (#[trigger] v.schemas@[i]).schema_id == id
            &&& forall|i: int| #[trigger]
                counts_v2(v.schemas@, i) ==> m[v.schemas@[i].schema_id].fields == v.schemas@[i].fields.fields@
        },
        forall|e: Error|
            collected(schema_items_v2(v.schemas@)) == Err::<Map<i32, SchemaView>, ErrorView>(e@)
                ==> #[trigger] first_ill_made_v2(v.schemas@, e),
{
    let list: Seq<SchemaV2> = v.schemas@;
    let items: Seq<Result<(i32, SchemaView), ErrorView>> = schema_items_v2(list);
    all_or_first_reason(items);
    assert forall|i: int| 0 <= i < list.len() implies (#[trigger] list[i]).schema() is Ok <==> well_made(
        list[i].fields.fields@,
        given(list[i].identifier_field_ids),
    ) by {
        making(list[i].schema_id, list[i].fields.fields@, given(list[i].identifier_field_ids));
    }
    let pairs: Seq<(i32, SchemaView)> = Seq::new(items.len(), |i: int| items[i]->Ok_0);
    last_counts(pairs);
    match collected(items) {
        Ok(m) => {
            assert forall|i: int| 0 <= i < list.len() implies (#[trigger] list[i]).schema() is Ok && pairs[i].0
                == list[i].schema_id && pairs[i].1.fields == list[i].fields.fields@ by {
                assert(items[i] is Ok);
            }
            assert forall|id: i32| #[trigger] m.contains_key(id) <==> exists|i: int|
                0 <= i < list.len() && (#[trigger] list[i]).schema_id == id by {
                if m.contains_key(id) {
                    let i: int = choose|i: int| 0 <= i < pairs.len() && (#[trigger] pairs[i]).0 == id;
                    assert(list[i].schema_id == id);
                }
                if exists|i: int| 0 <= i < list.len() && (#[trigger] list[i]).schema_id == id {
                    let i: int = choose|i: int| 0 <= i < list.len() && (#[trigger] list[i]).schema_id == id;
                    assert(pairs[i].0 == id);
                }
            }
            assert forall|i: int| #[trigger] counts_v2(list, i) implies m[list[i].schema_id].fields
                == list[i].fields.fields@ by {
                assert forall|j: int| i < j < pairs.len() implies (#[trigger] pairs[j]).0 != pairs[i].0 by {
                    assert(list[j].schema_id != list[i].schema_id);
                }
                assert(m[pairs[i].0] == pairs[i].1);
            }
        },
        Err(x) => {
            let i: int = choose|i: int|
                0 <= i < items.len() && #[trigger] items[i] == Err::<(i32, SchemaView), ErrorView>(x) && forall|j: int|
                    0 <= j < i ==> (#[trigger] items[j]) is Ok;
            assert(list[i].schema() == Err::<SchemaView, ErrorView>(x));
            making(list[i].schema_id, list[i].fields.fields@, given(list[i].identifier_field_ids));
            assert forall|e: Error|
                collected(items) == Err::<Map<i32, SchemaView>, ErrorView>(e@) implies #[trigger] first_ill_made_v2(
                list,
                e,
            ) by {
                assert(ill_made(list[i].fields.fields@, given(list[i].identifier_field_ids), e));
                assert forall|j: int| 0 <= j < i implies well_made(
                    (#[trigger] list[j]).fields.fields@,
                    given(list[j].identifier_field_ids),
                ) by {
                    assert(items[j] is Ok);
                }
            }
        },
    }
}

/// What is said of schemas of which one cannot be made: it is about the first one.
pub open spec fn first_ill_made_v2(list: Seq<SchemaV2>, e: Error) -> bool {
    exists|i: int|
        0 <= i < list.len() && ill_made(
            (#[trigger] list[i]).fields.fields@,
            given(list[i].identifier_field_ids),
            e,
        ) && forall|j: int|
            0 <= j < i ==> well_made((#[trigger] list[j]).fields.fields@, given(list[j].identifier_field_ids))
}

proof fn specs_of(list: Seq<PartitionSpec>)
    ensures
        ({
            let m = last_wins(spec_pairs(list));
            &&& forall|id: i32| #[trigger]
                m.contains_key(id) <==> exists|i: int| 0 <= i < list.len() && (#[trigger] list[i]).spec_id == id
            &&& forall|i: int| #[trigger] spec_counts(list, i) ==> m[list[i].spec_id] == list[i]@
        }),
{
    let pairs: Seq<(i32, PartitionSpecView)> = spec_pairs(list);
    let m: Map<i32, PartitionSpecView> = last_wins(pairs);
    last_counts(pairs);
    assert forall|id: i32| #[trigger] m.contains_key(id) <==> exists|i: int|
        0 <= i < list.len() && (#[trigger] list[i]).spec_id == id by {
        if m.contains_key(id) {
            let i: int = choose|i: int| 0 <= i < pairs.len() && (#[trigger] pairs[i]).0 == id;
            assert(list[i].spec_id == id);
        }
        if exists|i: int| 0 <= i < list.len() && (#[trigger] list[i]).spec_id == id {
            let i: int = choose|i: int| 0 <= i < list.len() && (#[trigger] list[i]).spec_id == id;
            assert(pairs[i].0 == id);
        }
    }
    assert forall|i: int| #[trigger] spec_counts(list, i) implies m[list[i].spec_id] == list[i]@ by {
        assert(pairs[i] == (list[i].spec_id, list[i]@));
        assert forall|j: int| i < j < pairs.len() implies (#[trigger] pairs[j]).0 != pairs[i].0 by {
            assert(list[j].spec_id != list[i].spec_id);
        }
    }
}

proof fn orders_of(list: Seq<SortOrder>)
    ensures
        forall|id: i64| #[trigger]
            last_wins(sort_order_pairs(list)).contains_key(id) <==> exists|i: int|
                0 <= i < list.len() && (#[trigger] list[i]).order_id == id,
{
    let pairs: Seq<(i64, SortOrderView)> = sort_order_pairs(list);
    last_counts(pairs);
    assert forall|id: i64| #[trigger] last_wins(pairs).contains_key(id) <==> exists|i: int|
        0 <= i < list.len() && (#[trigger] list[i]).order_id == id by {
        if last_wins(pairs).contains_key(id) {
            let i: int = choose|i: int| 0 <= i < pairs.len() && (#[trigger] pairs[i]).0 == id;
            assert(list[i].order_id == id);
        }
        if exists|i: int| 0 <= i < list.len() && (#[trigger] list[i]).order_id == id {
            let i: int = choose|i: int| 0 <= i < list.len() && (#[trigger] list[i]).order_id == id;
            assert(pairs[i].0 == id);
        }
    }
}

/// A snapshot with this id is listed.
pub open spec fn listed_v2(snapshots: Seq<SnapshotV2>, id: i64) -> bool {
    exists|i: int| 0 <= i < snapshots.len() && (#[trigger] snapshots[i]).snapshot_id == id
}

/// A snapshot is the last one in the list with its id.
pub open spec fn snapshot_counts(snapshots: Seq<SnapshotV2>, i: int) -> bool {
    &&& 0 <= i < snapshots.len()
    &&& forall|j: int| i < j < snapshots.len() ==> (#[trigger] snapshots[j]).snapshot_id != snapshots[i].snapshot_id
}

proof fn snapshots_of_v2(snapshots: Seq<SnapshotV2>)
    ensures
        ({
            let m = last_wins(snapshot_pairs(snapshots));
            &&& forall|id: i64| #[trigger] m.contains_key(id) <==> listed_v2(snapshots, id)
            &&& forall|i: int| #[trigger]
                snapshot_counts(snapshots, i) ==> m[snapshots[i].snapshot_id] == snapshots[i].snapshot()
            &&& forall|id: i64| #[trigger]
                m.contains_key(id) ==> exists|i: int| #[trigger]
                    snapshot_counts(snapshots, i) && snapshots[i].snapshot_id == id
        }),
{
    let pairs: Seq<(i64, SnapshotView)> = snapshot_pairs(snapshots);
    let m: Map<i64, SnapshotView> = last_wins(pairs);
    last_counts(pairs);
    last_wins_means(pairs);
    assert forall|id: i64| #[trigger] m.contains_key(id) <==> listed_v2(snapshots, id) by {
        if m.contains_key(id) {
            let i: int = choose|i: int| 0 <= i < pairs.len() && (#[trigger] pairs[i]).0 == id;
            assert(snapshots[i].snapshot_id == id);
        }
        if listed_v2(snapshots, id) {
            let i: int = choose|i: int| 0 <= i < snapshots.len() && (#[trigger] snapshots[i]).snapshot_id == id;
            assert(pairs[i].0 == id);
        }
    }
    assert forall|i: int| #[trigger] snapshot_counts(snapshots, i) implies m[snapshots[i].snapshot_id]
        == snapshots[i].snapshot() by {
        assert(pairs[i] == (snapshots[i].snapshot_id, snapshots[i].snapshot()));
        assert forall|j: int| i < j < pairs.len() implies (#[trigger] pairs[j]).0 != pairs[i].0 by {
            assert(snapshots[j].snapshot_id != snapshots[i].snapshot_id);
        }
    }
    assert forall|id: i64| #[trigger] m.contains_key(id) implies exists|i: int| #[trigger]
        snapshot_counts(snapshots, i) && snapshots[i].snapshot_id == id by {
        let i: int = choose|i: int|
            0 <= i < pairs.len() && (#[trigger] pairs[i]).0 == id && last_wins(pairs)[id] == pairs[i].1 && forall|
                j: int,
            |
                i < j < pairs.len() ==> (#[trigger] pairs[j]).0 != id;
        assert forall|j: int| i < j < snapshots.len() implies (#[trigger] snapshots[j]).snapshot_id
            != snapshots[i].snapshot_id by {
            assert(pairs[j].0 != id);
        }
        assert(snapshot_counts(snapshots, i));
    }
}

/// No snapshot of a list is ahead of this sequence number.
pub open spec fn none_ahead(snapshots: Seq<SnapshotV2>, last_sequence_number: i64) -> bool {
    forall|i: int| #[trigger]
        snapshot_counts(snapshots, i) ==> snapshots[i].sequence_number <= last_sequence_number
}

proof fn sequence_of_v2(snapshots: Seq<SnapshotV2>, m: TableMetadataView)
    requires
        m.snapshots == last_wins(snapshot_pairs(snapshots)),
    ensures
        none_ahead(snapshots, m.last_sequence_number) <==> forall|id: i64|
            m.snapshots.contains_key(id) ==> (#[trigger] m.snapshots[id]).sequence_number <= m.last_sequence_number,
{
    snapshots_of_v2(snapshots);
    if none_ahead(snapshots, m.last_sequence_number) {
        assert forall|id: i64| m.snapshots.contains_key(id) implies (#[trigger] m.snapshots[id]).sequence_number
            <= m.last_sequence_number by {
            let i: int = choose|i: int| #[trigger]
                snapshot_counts(snapshots, i) && snapshots[i].snapshot_id == id;
            assert(m.snapshots[snapshots[i].snapshot_id] == snapshots[i].snapshot());
        }
    } else {
        let i: int = choose|i: int| #[trigger]
            snapshot_counts(snapshots, i) && snapshots[i].sequence_number > m.last_sequence_number;
        assert(listed_v2(snapshots, snapshots[i].snapshot_id));
        assert(m.snapshots[snapshots[i].snapshot_id].sequence_number > m.last_sequence_number);
    }
}

/// References of a version 2 file are to listed snapshots.
pub open spec fn refs_listed_v2(v: TableMetadataV2) -> bool {
    v.refs matches Some(refs) ==> forall|name: Seq<char>|
        refs@.contains_key(name) ==> listed_v2(given(v.snapshots), (#[trigger] refs@[name]).snapshot_id)
}

proof fn references_of_v2(v: TableMetadataV2, m: TableMetadataView)
    requires
        m.snapshots == last_wins(snapshot_pairs(given(v.snapshots))),
        given_current(v.current_snapshot_id) matches Some(id) ==> m.snapshots.contains_key(id),
        v.refs matches Some(refs) ==> m.refs == refs@,
        v.refs is None ==> m.refs == main_only(given_current(v.current_snapshot_id)),
    ensures
        all_listed(m) <==> refs_listed_v2(v),
{
    snapshots_of_v2(given(v.snapshots));
    if all_listed(m) {
        if let Some(refs) = v.refs {
            assert forall|name: Seq<char>| refs@.contains_key(name) implies listed_v2(
                given(v.snapshots),
                (#[trigger] refs@[name]).snapshot_id,
            ) by {
                assert(m.snapshots.contains_key(m.refs[name].snapshot_id));
            }
        }
    }
    if refs_listed_v2(v) {
        assert forall|name: Seq<char>| m.refs.contains_key(name) implies m.snapshots.contains_key(
            (#[trigger] m.refs[name]).snapshot_id,
        ) by {
            if let Some(refs) = v.refs {
                assert(listed_v2(given(v.snapshots), refs@[name].snapshot_id));
            }
        }
    }
}

/// What a version 2 file says, before it is brought to keep the rules, is acceptable exactly when the
/// file is in order.
proof fn order_of_v2(v: TableMetadataV2, m: TableMetadataView)
    requires
        assembled_v2(v) == Ok::<TableMetadataView, ErrorView>(m),
    ensures
        acceptable(m) <==> in_order_v2(v),
{
    v2_files_say_what_is_judged(v, m);
    sequence_of_v2(given(v.snapshots), m);
    if given_current(v.current_snapshot_id) matches Some(id) ==> m.snapshots.contains_key(id) {
        references_of_v2(v, m);
    }
    assert(m.schemas.contains_key(m.current_schema_id));
}

/// A version 2 file whose schemas can be made, whose current schema and default partition spec are
/// listed, and whose partition fields are of columns that their transforms take, is read exactly
/// when it keeps the rules or can be brought to keep them.
pub proof fn v2_files_in_order_are_read(
    v: TableMetadataV2,
    columns: Seq<NestedFieldRef>,
    fields: Seq<PartitionField>,
    r: Result<TableMetadata, Error>,
)
    requires
        reads(TableMetadataEnum::V2(v), r),
        schemas_made_v2(v),
        current_has_v2(v, columns),
        default_has_v2(v, fields),
        forall|n: int| 0 <= n < fields.len() ==> has_value(schema_columns(columns), #[trigger] fields[n]),
    ensures
        r is Ok <==> in_order_v2(v),
{
    assembled_in_order_v2(v, columns, fields);
    assert(read_outcome(assembled(TableMetadataEnum::V2(v)), r));
    let m: TableMetadataView = assembled_v2(v)->Ok_0;
    order_of_v2(v, m);
    acceptable_means(m);
}

/// The fields of the default partition spec of a version 2 file.
proof fn default_of_v2(v: TableMetadataV2, fields: Seq<PartitionField>)
    requires
        default_has_v2(v, fields),
    ensures
        default_spec_v2(v) matches Ok(s) && s.fields == fields,
{
    specs_of(v.partition_specs@);
    if exists|i: int| #[trigger]
        spec_counts(v.partition_specs@, i) && v.partition_specs@[i].spec_id == v.default_spec_id && fields
            == v.partition_specs@[i].fields@ {
        let i: int = choose|i: int| #[trigger]
            spec_counts(v.partition_specs@, i) && v.partition_specs@[i].spec_id == v.default_spec_id && fields
                == v.partition_specs@[i].fields@;
        assert(v.partition_specs@[i].spec_id == v.default_spec_id);
    } else {
        assert(fields =~= Seq::<PartitionField>::empty());
    }
}

proof fn assembled_in_order_v2(v: TableMetadataV2, columns: Seq<NestedFieldRef>, fields: Seq<PartitionField>)
    requires
        schemas_made_v2(v),
        current_has_v2(v, columns),
        default_has_v2(v, fields),
    ensures
        ({
            let list = schema_columns(columns);
            let valued = forall|n: int| 0 <= n < fields.len() ==> has_value(list, #[trigger] fields[n]);
            &&& valued ==> assembled_v2(v) is Ok
            &&& !valued ==> assembled_v2(v) is Err
            &&& forall|e: Error|
                assembled_v2(v) == Err::<TableMetadataView, ErrorView>(e@) ==> #[trigger] first_without_value(
                    list,
                    fields,
                    e,
                )
        }),
{
    schemas_of_v2(v);
    default_of_v2(v, fields);
    let i: int = choose|i: int| #[trigger]
        counts_v2(v.schemas@, i) && v.schemas@[i].schema_id == v.current_schema_id && columns
            == v.schemas@[i].fields.fields@;
    assert(v.schemas@[i].schema_id == v.current_schema_id);
    first_value_missing(schema_columns(columns), fields);
}

/// What is said of partition fields of which one has no value: it is about the first one.
pub open spec fn first_without_value(list: Seq<ColumnView>, fields: Seq<PartitionField>, e: Error) -> bool {
    exists|n: int|
        0 <= n < fields.len() && has_no_value(list, #[trigger] fields[n], e) && forall|k: int|
            0 <= k < n ==> has_value(list, #[trigger] fields[k])
}

proof fn first_value_missing(list: Seq<ColumnView>, fields: Seq<PartitionField>)
    ensures
        partition_type_fields(list, fields) is Ok <==> forall|n: int|
            0 <= n < fields.len() ==> has_value(list, #[trigger] fields[n]),
        forall|e: Error|
            partition_type_fields(list, fields) == Err::<Seq<NestedFieldRef>, ErrorView>(e@)
                ==> #[trigger] first_without_value(list, fields, e),
{
    values_typed(list, fields);
    if let Err(v) = partition_type_fields(list, fields) {
        let n: int = choose|n: int|
            0 <= n < fields.len() && !has_value(list, #[trigger] fields[n]) && (forall|e: Error|
                e@ == v ==> #[trigger] has_no_value(list, fields[n], e)) && forall|k: int|
                0 <= k < n ==> has_value(list, #[trigger] fields[k]);
        assert(!has_value(list, fields[n]));
        assert forall|e: Error|
            partition_type_fields(list, fields) == Err::<Seq<NestedFieldRef>, ErrorView>(
                e@,
            ) implies #[trigger] first_without_value(list, fields, e) by {
            assert(has_no_value(list, fields[n], e));
        }
    }
}

/// Why a version 2 file says nothing at all, in the order in which reasons are looked for: a schema
/// that cannot be made, no current schema, no default partition spec, and a partition field of a
/// column that its transform does not take.
pub proof fn v2_files_are_refused_for_a_reason(
    v: TableMetadataV2,
    columns: Seq<NestedFieldRef>,
    fields: Seq<PartitionField>,
    e: Error,
)
    requires
        reads(TableMetadataEnum::V2(v), Err(e)),
    ensures
        !schemas_made_v2(v) ==> first_ill_made_v2(v.schemas@, e),
        schemas_made_v2(v) && (forall|i: int|
            0 <= i < v.schemas@.len() ==> (#[trigger] v.schemas@[i]).schema_id != v.current_schema_id) ==> says(
            e,
            "No schema exists with the current schema id "@ + decimal(v.current_schema_id as int) + "."@,
        ),
        schemas_made_v2(v) && current_has_v2(v, columns) && v.default_spec_id != 0 && (forall|i: int|
            0 <= i < v.partition_specs@.len() ==> (#[trigger] v.partition_specs@[i]).spec_id != v.default_spec_id)
            ==> says(e, "Default partition spec "@ + decimal(v.default_spec_id as int) + " not found"@),
        schemas_made_v2(v) && current_has_v2(v, columns) && default_has_v2(v, fields) && !(forall|n: int|
            0 <= n < fields.len() ==> has_value(schema_columns(columns), #[trigger] fields[n])) ==> first_without_value(
            schema_columns(columns),
            fields,
            e,
        ),
{
    assert(read_outcome(assembled(TableMetadataEnum::V2(v)), Err(e)));
    schemas_of_v2(v);
    specs_of(v.partition_specs@);
    if schemas_made_v2(v) && current_has_v2(v, columns) {
        let i: int = choose|i: int| #[trigger]
            counts_v2(v.schemas@, i) && v.schemas@[i].schema_id == v.current_schema_id && columns
                == v.schemas@[i].fields.fields@;
        assert(v.schemas@[i].schema_id == v.current_schema_id);
        if default_has_v2(v, fields) {
            assembled_in_order_v2(v, columns, fields);
        }
    }
}

/// A file that says something and is refused all the same is refused with the complaint about the
/// first rule that it breaks; and one that breaks none is read.
pub proof fn broken_rules_are_complained_of(
    value: TableMetadataEnum,
    m: TableMetadataView,
    r: Result<TableMetadata, Error>,
)
    requires
        reads(value, r),
        assembled(value) == Ok::<TableMetadataView, ErrorView>(m),
    ensures
        r is Ok <==> acceptable(m),
        r matches Err(e) ==> complaint(m, e),
{
    assert(read_outcome(assembled(value), r));
    acceptable_means(m);
    if let Err(e) = r {
        complaint_means(m, e);
    }
}

/// What a version 2 file says that the rules are about, before it is brought to keep them.
pub proof fn v2_files_say_what_is_judged(v: TableMetadataV2, m: TableMetadataView)
    requires
        assembled(TableMetadataEnum::V2(v)) == Ok::<TableMetadataView, ErrorView>(m),
    ensures
        m.format_version == FormatVersion::V2,
        m.last_sequence_number == v.last_sequence_number,
        m.last_updated_ms == v.last_updated_ms,
        m.current_schema_id == v.current_schema_id,
        m.default_sort_order_id == v.default_sort_order_id,
        m.snapshot_log == given(v.snapshot_log),
        m.metadata_log == given(v.metadata_log),
        said_current(m) == given_current(v.current_snapshot_id),
        v.refs matches Some(refs) ==> m.refs == refs@,
        v.refs is None ==> forall|name: Seq<char>| #[trigger]
            m.refs.contains_key(name) ==> name == "main"@ && given_current(v.current_snapshot_id) == Some(
                m.refs[name].snapshot_id,
            ),
        forall|id: i64| #[trigger] m.snapshots.contains_key(id) <==> listed_v2(given(v.snapshots), id),
        forall|i: int| #[trigger]
            snapshot_counts(given(v.snapshots), i) ==> {
                let d = given(v.snapshots)[i];
                &&& m.snapshots[d.snapshot_id].snapshot_id == d.snapshot_id
                &&& m.snapshots[d.snapshot_id].sequence_number == d.sequence_number
            },
        forall|id: i64| #[trigger]
            m.sort_orders.contains_key(id) <==> exists|i: int|
                0 <= i < v.sort_orders@.len() && (#[trigger] v.sort_orders@[i]).order_id == id,
{
    snapshots_of_v2(given(v.snapshots));
    orders_of(v.sort_orders@);
    assert(m.snapshots == last_wins(snapshot_pairs(given(v.snapshots))));
}

/// Each schema of a list of a version 1 file can be made.
pub open spec fn all_made_v1(list: Seq<SchemaV1>) -> bool {
    forall|i: int|
        0 <= i < list.len() ==> well_made(
            (#[trigger] list[i]).fields.fields@,
            given(list[i].identifier_field_ids),
        )
}

/// What is said of schemas of which one cannot be made: it is about the first one.
pub open spec fn first_ill_made_v1(list: Seq<SchemaV1>, e: Error) -> bool {
    exists|i: int|
        0 <= i < list.len() && ill_made(
            (#[trigger] list[i]).fields.fields@,
            given(list[i].identifier_field_ids),
            e,
        ) && forall|j: int|
            0 <= j < i ==> well_made((#[trigger] list[j]).fields.fields@, given(list[j].identifier_field_ids))
}

/// A version 1 file goes by its list of schemas.
pub open spec fn goes_by_list(v: TableMetadataV1) -> bool {
    v.schemas is Some && v.current_schema_id is Some
}

/// The schemas that a version 1 file goes by can be made.
pub open spec fn schemas_made_v1(v: TableMetadataV1) -> bool {
    if goes_by_list(v) {
        all_made_v1(v.schemas.unwrap()@)
    } else {
        v.schema matches Some(d) ==> well_made(d.fields.fields@, given(d.identifier_field_ids))
    }
}

/// The current schema of a version 1 file has these fields.
pub open spec fn current_has_v1(v: TableMetadataV1, columns: Seq<NestedFieldRef>) -> bool {
    if goes_by_list(v) {
        let list = v.schemas.unwrap()@;
        exists|i: int| #[trigger]
            counts_v1(list, i) && Some(given_id(list[i])) == v.current_schema_id && columns == list[i].fields.fields@
    } else {
        v.schema matches Some(d) && columns == d.fields.fields@
    }
}

/// The default partition spec of a version 1 file has these fields: the listed one with the id that
/// the file gives, or with the greatest id; or, where the file lists none, the one with the id zero
/// and the fields that the file gives for a single spec.
pub open spec fn default_has_v1(v: TableMetadataV1, fields: Seq<PartitionField>) -> bool {
    match v.partition_specs {
        Some(list) => exists|p: int| #[trigger]
            spec_counts(list@, p) && fields == list@[p].fields@ && match v.default_spec_id {
                Some(id) => list@[p].spec_id == id,
                None => forall|i: int| 0 <= i < list@.len() ==> (#[trigger] list@[i]).spec_id <= list@[p].spec_id,
            },
        None => fields == given(v.partition_spec) && (v.default_spec_id is None || v.default_spec_id == Some(0i32)),
    }
}

/// A snapshot with this id is listed.
pub open spec fn listed_v1(snapshots: Seq<SnapshotV1>, id: i64) -> bool {
    exists|i: int| 0 <= i < snapshots.len() && (#[trigger] snapshots[i]).snapshot_id == id
}

/// Each snapshot has a manifest list, and no manifests of its own.
pub open spec fn all_have_lists(snapshots: Seq<SnapshotV1>) -> bool {
    forall|i: int|
        0 <= i < snapshots.len() ==> (#[trigger] snapshots[i]).manifest_list is Some && snapshots[i].manifests is None
}

/// A version 1 file keeps the rules, or can be brought to keep them.
pub open spec fn in_order_v1(v: TableMetadataV1) -> bool {
    &&& given_current(v.current_snapshot_id) matches Some(id) ==> listed_v1(given(v.snapshots), id)
    &&& in_time(times_of(given(v.snapshot_log)))
    &&& updated_after(times_of(given(v.snapshot_log)), v.last_updated_ms)
    &&& in_time(file_times_of(given(v.metadata_log)))
    &&& updated_after(file_times_of(given(v.metadata_log)), v.last_updated_ms)
    &&& v.default_sort_order_id matches Some(id) ==> id == 0 || exists|i: int|
        0 <= i < given(v.sort_orders).len() && (#[trigger] given(v.sort_orders)[i]).order_id == id
}

proof fn schemas_of_v1(list: Seq<SchemaV1>)
    ensures
        collected(schema_items_v1(list)) is Ok <==> all_made_v1(list),
        collected(schema_items_v1(list)) matches Ok(m) ==> {
            &&& forall|id: i32| #[trigger]
                m.contains_key(id) <==> exists|i: int| 0 <= i < list.len() && given_id(#[trigger] list[i]) == id
            &&& forall|i: int| #[trigger]
                counts_v1(list, i) ==> m[given_id(list[i])].fields == list[i].fields.fields@
        },
        forall|e: Error|
            collected(schema_items_v1(list)) == Err::<Map<i32, SchemaView>, ErrorView>(e@)
                ==> #[trigger] first_ill_made_v1(list, e),
{
    let items: Seq<Result<(i32, SchemaView), ErrorView>> = schema_items_v1(list);
    all_or_first_reason(items);
    assert forall|i: int| 0 <= i < list.len() implies (#[trigger] list[i]).schema() is Ok <==> well_made(
        list[i].fields.fields@,
        given(list[i].identifier_field_ids),
    ) by {
        making(given_id(list[i]), list[i].fields.fields@, given(list[i].identifier_field_ids));
    }
    let pairs: Seq<(i32, SchemaView)> = Seq::new(items.len(), |i: int| items[i]->Ok_0);
    last_counts(pairs);
    match collected(items) {
        Ok(m) => {
            assert forall|i: int| 0 <= i < list.len() implies (#[trigger] list[i]).schema() is Ok && pairs[i].0
                == given_id(list[i]) && pairs[i].1.fields == list[i].fields.fields@ by {
                assert(items[i] is Ok);
            }
            assert forall|id: i32| #[trigger] m.contains_key(id) <==> exists|i: int|
                0 <= i < list.len() && given_id(#[trigger] list[i]) == id by {
                if m.contains_key(id) {
                    let i: int = choose|i: int| 0 <= i < pairs.len() && (#[trigger] pairs[i]).0 == id;
                    assert(given_id(list[i]) == id);
                }
                if exists|i: int| 0 <= i < list.len() && given_id(#[trigger] list[i]) == id {
                    let i: int = choose|i: int| 0 <= i < list.len() && given_id(#[trigger] list[i]) == id;
                    assert(pairs[i].0 == id);
                }
            }
            assert forall|i: int| #[trigger] counts_v1(list, i) implies m[given_id(list[i])].fields
                == list[i].fields.fields@ by {
                assert forall|j: int| i < j < pairs.len() implies (#[trigger] pairs[j]).0 != pairs[i].0 by {
                    assert(given_id(list[j]) != given_id(list[i]));
                }
                assert(m[pairs[i].0] == pairs[i].1);
            }
        },
        Err(x) => {
            let i: int = choose|i: int|
                0 <= i < items.len() && #[trigger] items[i] == Err::<(i32, SchemaView), ErrorView>(x) && forall|j: int|
                    0 <= j < i ==> (#[trigger] items[j]) is Ok;
            assert(list[i].schema() == Err::<SchemaView, ErrorView>(x));
            making(given_id(list[i]), list[i].fields.fields@, given(list[i].identifier_field_ids));
            assert forall|e: Error|
                collected(items) == Err::<Map<i32, SchemaView>, ErrorView>(e@) implies #[trigger] first_ill_made_v1(
                list,
                e,
            ) by {
                assert(ill_made(list[i].fields.fields@, given(list[i].identifier_field_ids), e));
                assert forall|j: int| 0 <= j < i implies well_made(
                    (#[trigger] list[j]).fields.fields@,
                    given(list[j].identifier_field_ids),
                ) by {
                    assert(items[j] is Ok);
                }
            }
        },
    }
}

/// The current schema of a version 1 file.
proof fn current_of_v1(v: TableMetadataV1, columns: Seq<NestedFieldRef>)
    requires
        schemas_made_v1(v),
        current_has_v1(v, columns),
    ensures
        schemas_v1(v) matches Ok(s) && s.0.contains_key(s.1) && s.0[s.1].fields == columns,
{
    if goes_by_list(v) {
        let list: Seq<SchemaV1> = v.schemas.unwrap()@;
        schemas_of_v1(list);
        let i: int = choose|i: int| #[trigger]
            counts_v1(list, i) && Some(given_id(list[i])) == v.current_schema_id && columns
                == list[i].fields.fields@;
        assert(given_id(list[i]) == v.current_schema_id.unwrap());
    } else {
        let d: SchemaV1 = v.schema.unwrap();
        making(given_id(d), d.fields.fields@, given(d.identifier_field_ids));
    }
}

/// The fields of the default partition spec of a version 1 file.
proof fn default_of_v1(v: TableMetadataV1, current: SchemaView, fields: Seq<PartitionField>)
    requires
        default_has_v1(v, fields),
        v.partition_specs is None ==> all_fit(schema_columns(current.fields), fields),
    ensures
        specs_v1(v, current) matches Ok(specs) && default_spec_v1(v, specs) matches Ok(s) && s.fields == fields,
{
    match v.partition_specs {
        Some(list) => {
            specs_of(list@);
            let specs: Map<i32, PartitionSpecView> = last_wins(spec_pairs(list@));
            let p: int = choose|p: int| #[trigger]
                spec_counts(list@, p) && fields == list@[p].fields@ && match v.default_spec_id {
                    Some(id) => list@[p].spec_id == id,
                    None => forall|i: int|
                        0 <= i < list@.len() ==> (#[trigger] list@[i]).spec_id <= list@[p].spec_id,
                };
            let top: i32 = list@[p].spec_id;
            assert(specs.contains_key(top));
            if v.default_spec_id is None {
                assert forall|j: i32| #[trigger] specs.dom().contains(j) implies j <= top by {
                    assert(specs.contains_key(j));
                }
                assert(specs.dom().contains(top));
                let c: i32 = greatest(specs.dom());
                assert(specs.dom().contains(c) && top <= c && c <= top);
            }
        },
        None => {
            binding(0, fields, current.fields);
            let specs: Map<i32, PartitionSpecView> = specs_v1(v, current)->Ok_0;
            assert(specs.dom() =~= set![0i32]);
            assert(specs.dom().contains(0i32));
            let c: i32 = greatest(specs.dom());
            assert forall|j: i32| #[trigger] specs.dom().contains(j) implies j <= 0 by {}
            assert(specs.dom().contains(c));
        },
    }
}

proof fn snapshots_of_v1(snapshots: Seq<SnapshotV1>)
    ensures
        collected(snapshot_items_v1(snapshots)) is Ok <==> all_have_lists(snapshots),
        collected(snapshot_items_v1(snapshots)) matches Ok(m) ==> forall|id: i64| #[trigger]
            m.contains_key(id) <==> listed_v1(snapshots, id),
        forall|e: Error|
            collected(snapshot_items_v1(snapshots)) == Err::<Map<i64, SnapshotView>, ErrorView>(e@)
                ==> #[trigger] first_without_list(snapshots, e),
{
    let items: Seq<Result<(i64, SnapshotView), ErrorView>> = snapshot_items_v1(snapshots);
    all_or_first_reason(items);
    let pairs: Seq<(i64, SnapshotView)> = Seq::new(items.len(), |i: int| items[i]->Ok_0);
    last_counts(pairs);
    match collected(items) {
        Ok(m) => {
            assert forall|i: int| 0 <= i < snapshots.len() implies (#[trigger] snapshots[i]).snapshot() is Ok
                && pairs[i].0 == snapshots[i].snapshot_id by {
                assert(items[i] is Ok);
            }
            assert forall|id: i64| #[trigger] m.contains_key(id) <==> listed_v1(snapshots, id) by {
                if m.contains_key(id) {
                    let i: int = choose|i: int| 0 <= i < pairs.len() && (#[trigger] pairs[i]).0 == id;
                    assert(snapshots[i].snapshot_id == id);
                }
                if listed_v1(snapshots, id) {
                    let i: int = choose|i: int|
                        0 <= i < snapshots.len() && (#[trigger] snapshots[i]).snapshot_id == id;
                    assert(pairs[i].0 == id);
                }
            }
        },
        Err(x) => {
            let i: int = choose|i: int|
                0 <= i < items.len() && #[trigger] items[i] == Err::<(i64, SnapshotView), ErrorView>(x) && forall|
                    j: int,
                |
                    0 <= j < i ==> (#[trigger] items[j]) is Ok;
            assert(snapshots[i].snapshot() == Err::<SnapshotView, ErrorView>(x));
            assert forall|j: int| 0 <= j < i implies (#[trigger] snapshots[j]).manifest_list is Some
                && snapshots[j].manifests is None by {
                assert(items[j] is Ok);
            }
        },
    }
}

/// What is said of snapshots of a version 1 file of which one lacks a manifest list, or lists
/// manifests besides: it is about the first one.
pub open spec fn first_without_list(snapshots: Seq<SnapshotV1>, e: Error) -> bool {
    exists|i: int|
        0 <= i < snapshots.len() && match (#[trigger] snapshots[i]).manifest_list {
            None => says(e, "Unsupported v1 snapshot, only manifest list is supported"@),
            Some(_) => snapshots[i].manifests is Some && says(
                e,
                "Invalid v1 snapshot, when manifest list provided, manifest files should be omitted"@,
            ),
        } && forall|j: int|
            0 <= j < i ==> (#[trigger] snapshots[j]).manifest_list is Some && snapshots[j].manifests is None
}

proof fn assembled_in_order_v1(v: TableMetadataV1, columns: Seq<NestedFieldRef>, fields: Seq<PartitionField>)
    requires
        schemas_made_v1(v),
        current_has_v1(v, columns),
        default_has_v1(v, fields),
        v.partition_specs is None ==> all_fit(schema_columns(columns), fields),
    ensures
        ({
            let list = schema_columns(columns);
            let valued = forall|n: int| 0 <= n < fields.len() ==> has_value(list, #[trigger] fields[n]);
            &&& assembled_v1(v) is Ok <==> valued && all_have_lists(given(v.snapshots))
            &&& !valued ==> forall|e: Error|
                assembled_v1(v) == Err::<TableMetadataView, ErrorView>(e@) ==> #[trigger] first_without_value(
                    list,
                    fields,
                    e,
                )
            &&& valued ==> forall|e: Error|
                assembled_v1(v) == Err::<TableMetadataView, ErrorView>(e@) ==> #[trigger] first_without_list(
                    given(v.snapshots),
                    e,
                )
        }),
{
    current_of_v1(v, columns);
    let s: (Map<i32, SchemaView>, i32) = schemas_v1(v)->Ok_0;
    default_of_v1(v, s.0[s.1], fields);
    first_value_missing(schema_columns(columns), fields);
    snapshots_of_v1(given(v.snapshots));
}

/// What a version 1 file says that the rules are about, before it is brought to keep them.
pub proof fn v1_files_say_what_is_judged(v: TableMetadataV1, m: TableMetadataView)
    requires
        assembled(TableMetadataEnum::V1(v)) == Ok::<TableMetadataView, ErrorView>(m),
    ensures
        m.format_version == FormatVersion::V1,
        m.last_sequence_number == 0,
        m.last_updated_ms == v.last_updated_ms,
        m.schemas.contains_key(m.current_schema_id),
        m.snapshot_log == given(v.snapshot_log),
        m.metadata_log == given(v.metadata_log),
        said_current(m) == given_current(v.current_snapshot_id),
        forall|name: Seq<char>| #[trigger]
            m.refs.contains_key(name) ==> name == "main"@ && given_current(v.current_snapshot_id) == Some(
                m.refs[name].snapshot_id,
            ),
        forall|id: i64| #[trigger] m.snapshots.contains_key(id) <==> listed_v1(given(v.snapshots), id),
        v.default_sort_order_id matches Some(id) ==> m.default_sort_order_id == id,
        v.default_sort_order_id is None ==> m.default_sort_order_id == 0,
        forall|id: i64| #[trigger]
            m.sort_orders.contains_key(id) <==> exists|i: int|
                0 <= i < given(v.sort_orders).len() && (#[trigger] given(v.sort_orders)[i]).order_id == id,
{
    snapshots_of_v1(given(v.snapshots));
    orders_of(given(v.sort_orders));
}

/// A version 1 file whose schemas can be made, whose current schema and default partition spec are
/// there, whose partition fields are of columns that their transforms take, and whose snapshots have
/// manifest lists, is read exactly when it keeps the rules or can be brought to keep them.
pub proof fn v1_files_in_order_are_read(
    v: TableMetadataV1,
    columns: Seq<NestedFieldRef>,
    fields: Seq<PartitionField>,
    r: Result<TableMetadata, Error>,
)
    requires
        reads(TableMetadataEnum::V1(v), r),
        schemas_made_v1(v),
        current_has_v1(v, columns),
        default_has_v1(v, fields),
        v.partition_specs is None ==> all_fit(schema_columns(columns), fields),
        forall|n: int| 0 <= n < fields.len() ==> has_value(schema_columns(columns), #[trigger] fields[n]),
        all_have_lists(given(v.snapshots)),
    ensures
        r is Ok <==> in_order_v1(v),
{
    assembled_in_order_v1(v, columns, fields);
    assert(read_outcome(assembled(TableMetadataEnum::V1(v)), r));
    let m: TableMetadataView = assembled_v1(v)->Ok_0;
    v1_files_say_what_is_judged(v, m);
    acceptable_means(m);
    if given_current(v.current_snapshot_id) matches Some(id) ==> m.snapshots.contains_key(id) {
        assert forall|name: Seq<char>| m.refs.contains_key(name) implies m.snapshots.contains_key(
            (#[trigger] m.refs[name]).snapshot_id,
        ) by {}
    }
}

/// Why a version 1 file says nothing at all, in the order in which reasons are looked for: a schema
/// that cannot be made, no schema to go by, fields of a single partition spec that make up none, no
/// default partition spec, a partition field of a column that its transform does not take, and a
/// snapshot without a manifest list.
pub proof fn v1_files_are_refused_for_a_reason(
    v: TableMetadataV1,
    columns: Seq<NestedFieldRef>,
    fields: Seq<PartitionField>,
    e: Error,
)
    requires
        reads(TableMetadataEnum::V1(v), Err(e)),
    ensures
        goes_by_list(v) && !schemas_made_v1(v) ==> first_ill_made_v1(v.schemas.unwrap()@, e),
        !goes_by_list(v) && !schemas_made_v1(v) ==> ill_made(
            v.schema.unwrap().fields.fields@,
            given(v.schema.unwrap().identifier_field_ids),
            e,
        ),
        goes_by_list(v) && schemas_made_v1(v) && (forall|i: int|
            0 <= i < v.schemas.unwrap()@.len() ==> Some(given_id(#[trigger] v.schemas.unwrap()@[i]))
                != v.current_schema_id) ==> says(
            e,
            "No schema exists with the current schema id "@ + decimal(v.current_schema_id.unwrap() as int) + "."@,
        ),
        !goes_by_list(v) && v.schema is None ==> says(
            e,
            "No valid schema configuration found in table metadata"@,
        ),
        schemas_made_v1(v) && current_has_v1(v, columns) && v.partition_specs is None && !all_fit(
            schema_columns(columns),
            given(v.partition_spec),
        ) ==> first_misfit(schema_columns(columns), given(v.partition_spec), e),
        schemas_made_v1(v) && current_has_v1(v, columns) ==> (v.partition_specs matches Some(list) ==> (
        v.default_spec_id matches Some(id) ==> (forall|i: int|
            0 <= i < list@.len() ==> (#[trigger] list@[i]).spec_id != id) ==> says(
            e,
            "Default partition spec "@ + decimal(id as int) + " not found"@,
        ))),
        schemas_made_v1(v) && current_has_v1(v, columns) ==> (v.partition_specs matches Some(list) ==> (
        v.default_spec_id is None && list@.len() == 0 ==> says(
            e,
            "Default partition spec "@ + decimal(0) + " not found"@,
        ))),
        schemas_made_v1(v) && current_has_v1(v, columns) && v.partition_specs is None && all_fit(
            schema_columns(columns),
            given(v.partition_spec),
        ) ==> (v.default_spec_id matches Some(id) ==> id != 0 ==> says(
            e,
            "Default partition spec "@ + decimal(id as int) + " not found"@,
        )),
        schemas_made_v1(v) && current_has_v1(v, columns) && default_has_v1(v, fields) && (v.partition_specs is None
            ==> all_fit(schema_columns(columns), fields)) ==> {
            let valued = forall|n: int|
                0 <= n < fields.len() ==> has_value(schema_columns(columns), #[trigger] fields[n]);
            &&& !valued ==> first_without_value(schema_columns(columns), fields, e)
            &&& valued && !all_have_lists(given(v.snapshots)) ==> first_without_list(given(v.snapshots), e)
        },
{
    assert(read_outcome(assembled(TableMetadataEnum::V1(v)), Err(e)));
    if goes_by_list(v) {
        schemas_of_v1(v.schemas.unwrap()@);
    } else if let Some(d) = v.schema {
        making(given_id(d), d.fields.fields@, given(d.identifier_field_ids));
    }
    if schemas_made_v1(v) && current_has_v1(v, columns) {
        current_of_v1(v, columns);
        match v.partition_specs {
            Some(list) => {
                specs_of(list@);
                let specs: Map<i32, PartitionSpecView> = last_wins(spec_pairs(list@));
                if list@.len() == 0 {
                    assert(specs.dom() =~= Set::<i32>::empty());
                }
            },
            None => {
                binding(0, given(v.partition_spec), columns);
            },
        }
        if default_has_v1(v, fields) && (v.partition_specs is None ==> all_fit(schema_columns(columns), fields)) {
            assembled_in_order_v1(v, columns, fields);
        }
    }
}

/// Reading gives no outcome only where two timestamps that are compared are further apart than a
/// number of 64 bits can say.
pub proof fn no_outcome_only_where_timestamps_are_far_apart(value: TableMetadataEnum)
    requires
        call_ensures(TableMetadata::try_read, (value,), None),
    ensures
        ({
            let (log, files, update) = match value {
                TableMetadataEnum::V2(v) => (
                    times_of(given(v.snapshot_log)),
                    file_times_of(given(v.metadata_log)),
                    v.last_updated_ms,
                ),
                TableMetadataEnum::V1(v) => (
                    times_of(given(v.snapshot_log)),
                    file_times_of(given(v.metadata_log)),
                    v.last_updated_ms,
                ),
            };
            some_far_apart(log, update) || some_far_apart(files, update)
        }),
{
    let m: TableMetadataView = assembled(value)->Ok_0;
    match value {
        TableMetadataEnum::V2(v) => v2_files_say_what_is_judged(v, m),
        TableMetadataEnum::V1(v) => v1_files_say_what_is_judged(v, m),
    }
    assert(snapshot_times(m) =~= times_of(m.snapshot_log));
    assert(metadata_times(m) =~= file_times_of(m.metadata_log));
    if gaps_fit(times_of(m.snapshot_log), m.last_updated_ms) {
        far_apart(file_times_of(m.metadata_log), m.last_updated_ms);
    } else {
        far_apart(times_of(m.snapshot_log), m.last_updated_ms);
    }
}

/// Two timestamps that follow each other, or the last one and the last update, are further apart than
/// a number of 64 bits can say.
pub open spec fn some_far_apart(times: Seq<i64>, last_updated_ms: i64) -> bool {
    ||| exists|i: int, j: int|
        0 <= i && j == i + 1 && j < times.len() && !(i64::MIN <= #[trigger] times[j] - #[trigger] times[i] <= i64::MAX)
    ||| times.len() > 0 && !(i64::MIN <= last_updated_ms - times[times.len() - 1] <= i64::MAX)
}

proof fn far_apart(times: Seq<i64>, last_updated_ms: i64)
    requires
        !gaps_fit(times, last_updated_ms),
    ensures
        some_far_apart(times, last_updated_ms),
{
    if times.len() > 0 && chronological(times) ==> gap_fits(times.last(), last_updated_ms) {
        let i: int = choose|i: int|
            0 <= i < times.len() - 1 && chronological(#[trigger] times.take(i + 1)) && !gap_fits(
                times[i],
                times[i + 1],
            );
        assert(!(i64::MIN <= times[i + 1] - times[i] <= i64::MAX));
    }
}

} // verus!
