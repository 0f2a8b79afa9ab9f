//! Partition specs: how the rows of a table are divided into partitions.

use crate::datatypes::{column_views, Column, ColumnView, NestedField, NestedFieldRef, StructType, Type};
use crate::error::{data_invalid, unexpected, Error, ErrorKind, ErrorView};
use crate::schema::{column_with_id, column_with_name, find_id, find_name, schema_columns, Schema};
use crate::text::{around_name, around_number, decimal, push_decimal};
use crate::transform::{redundant, transformed, Transform};
use std::sync::Arc;
use vstd::prelude::*;
use vstd::string::StringExecFns;

verus! {

/// The id of the partition spec that a table without partitions has.
pub const DEFAULT_PARTITION_SPEC_ID: i32 = 0;

/// One value by which rows are divided.
#[derive(Debug, PartialEq, Eq)]
pub struct PartitionField {
    /// Id of the column that the value comes from.
    pub source_id: i32,
    /// Id that no other partition field of the table has.
    pub field_id: i32,
    pub name: String,
    /// How the value comes from the column.
    pub transform: Transform,
}

impl Clone for PartitionField {
    fn clone(&self) -> (r: Self)
        ensures
            r == *self,
    {
        PartitionField {
            source_id: self.source_id,
            field_id: self.field_id,
            name: self.name.clone(),
            transform: self.transform,
        }
    }
}

/// The values by which the rows of a table are divided.
#[derive(Debug, PartialEq, Eq)]
pub struct PartitionSpec {
    pub spec_id: i32,
    pub fields: Vec<PartitionField>,
}

/// A partition spec that several owners hold.
pub type PartitionSpecRef = Arc<PartitionSpec>;

/// What a [`PartitionSpec`] is.
pub ghost struct PartitionSpecView {
    pub spec_id: i32,
    pub fields: Seq<PartitionField>,
}

impl View for PartitionSpec {
    type V = PartitionSpecView;

    open spec fn view(&self) -> PartitionSpecView {
        PartitionSpecView { spec_id: self.spec_id, fields: self.fields@ }
    }
}

pub(crate) fn copy_fields(fields: &Vec<PartitionField>) -> (r: Vec<PartitionField>)
    ensures
        r@ == fields@,
{
    let copy: Vec<PartitionField> = fields.clone();
    proof {
        assert(copy@ =~= fields@);
    }
    copy
}

impl Clone for PartitionSpec {
    fn clone(&self) -> (r: Self)
        ensures
            r@ == self@,
    {
        PartitionSpec { spec_id: self.spec_id, fields: copy_fields(&self.fields) }
    }
}

/// The partition spec of a table without partitions.
pub open spec fn unpartitioned() -> PartitionSpecView {
    PartitionSpecView { spec_id: DEFAULT_PARTITION_SPEC_ID, fields: Seq::empty() }
}

/// Why a partition field cannot stand behind the fields `before`, for a schema with these columns.
pub open spec fn partition_field_fault(
    list: Seq<ColumnView>,
    before: Seq<PartitionField>,
    f: PartitionField,
) -> Option<Seq<char>> {
    if f.name@.len() == 0 {
        Some("Cannot use empty partition name"@)
    } else if exists|i: int| 0 <= i < before.len() && (#[trigger] before[i]).name@ == f.name@ {
        Some("Cannot use partition name more than once: "@ + f.name@)
    } else if exists|i: int|
        0 <= i < before.len() && (#[trigger] before[i]).source_id == f.source_id && redundant(
            before[i].transform,
            f.transform,
        ) {
        Some(
            "Cannot add redundant partition with source id "@ + decimal(f.source_id as int)
                + ": its transform repeats another"@,
        )
    } else if column_with_name(list, f.name@) matches Some(c) && f.transform != Transform::Identity {
        Some(
            "Cannot create partition with name: '"@ + f.name@
                + "' that conflicts with schema field and is not an identity transform."@,
        )
    } else if column_with_name(list, f.name@) matches Some(c) && c.field.id != f.source_id {
        Some(
            "Cannot create identity partition sourced from different field in schema. Field name '"@ + f.name@
                + "' has id "@ + decimal(column_with_name(list, f.name@).unwrap().field.id as int)
                + " in schema but partition source id is "@ + decimal(f.source_id as int),
        )
    } else {
        match column_with_id(list, f.source_id) {
            None => Some(
                "Cannot find partition source field with id "@ + decimal(f.source_id as int) + " in schema"@,
            ),
            Some(c) => if f.transform != Transform::Void && !(*c.field.field_type is Primitive) {
                Some("Cannot partition by non-primitive source field: '"@ + c.field.name@ + "'."@)
            } else if f.transform != Transform::Void && transformed(f.transform, c.field.field_type) is None {
                Some("Invalid source type for the transform of partition field: '"@ + f.name@ + "'."@)
            } else if exists|i: int| 0 <= i < before.len() && (#[trigger] before[i]).field_id == f.field_id {
                Some(
                    "Cannot use field id more than once in one PartitionSpec: "@ + decimal(f.field_id as int),
                )
            } else {
                None
            },
        }
    }
}

/// Why partition fields make up no partition spec for a schema with these columns: the fault of
/// the first field that has one.
pub open spec fn partition_fields_fault(list: Seq<ColumnView>, fields: Seq<PartitionField>) -> Option<Seq<char>>
    decreases fields.len(),
{
    if fields.len() == 0 {
        None
    } else {
        match partition_fields_fault(list, fields.drop_last()) {
            Some(m) => Some(m),
            None => partition_field_fault(list, fields.drop_last(), fields.last()),
        }
    }
}

/// The partition spec with this id and these fields, for a schema with the given fields, or why
/// there is none.
pub open spec fn spec_of(spec_id: i32, fields: Seq<PartitionField>, schema_fields: Seq<NestedFieldRef>) -> Result<
    PartitionSpecView,
    ErrorView,
> {
    match partition_fields_fault(schema_columns(schema_fields), fields) {
        Some(m) => Err(data_invalid(m)),
        None => Ok(PartitionSpecView { spec_id, fields }),
    }
}

/// A fault of the first fields is the fault of all of them.
proof fn partition_fields_fault_prefix(list: Seq<ColumnView>, fields: Seq<PartitionField>, n: int)
    requires
        0 <= n <= fields.len(),
        partition_fields_fault(list, fields.take(n)) is Some,
    ensures
        partition_fields_fault(list, fields) == partition_fields_fault(list, fields.take(n)),
    decreases fields.len(),
{
    if n == fields.len() {
        assert(fields.take(n) =~= fields);
    } else {
        assert(fields.drop_last().take(n) =~= fields.take(n));
        partition_fields_fault_prefix(list, fields.drop_last(), n);
    }
}

/// The field that a partition field adds to the partition type of a schema with these columns,
/// or why it adds none.
pub open spec fn partition_type_field(list: Seq<ColumnView>, f: PartitionField) -> Result<NestedFieldRef, ErrorView> {
    match column_with_id(list, f.source_id) {
        None => Err(
            unexpected("No column with source column id "@ + decimal(f.source_id as int) + " in schema"@),
        ),
        Some(c) => match transformed(f.transform, c.field.field_type) {
            None => Err(
                data_invalid("Invalid source type for the transform of partition field: '"@ + f.name@ + "'."@),
            ),
            Some(field_type) => Ok(
                Arc::new(NestedField { id: f.field_id, name: f.name, required: false, field_type, doc: None }),
            ),
        },
    }
}

/// The fields of the partition type of partition fields, for a schema with these columns, or why
/// they have none: the reason of the first field that adds none.
pub open spec fn partition_type_fields(list: Seq<ColumnView>, fields: Seq<PartitionField>) -> Result<
    Seq<NestedFieldRef>,
    ErrorView,
>
    decreases fields.len(),
{
    if fields.len() == 0 {
        Ok(Seq::empty())
    } else {
        match partition_type_fields(list, fields.drop_last()) {
            Err(e) => Err(e),
            Ok(known) => match partition_type_field(list, fields.last()) {
                Err(e) => Err(e),
                Ok(f) => Ok(known.push(f)),
            },
        }
    }
}

/// The partition type of a partition spec for a schema with the given fields, or why it has none.
pub open spec fn partition_type_of(spec: PartitionSpecView, schema_fields: Seq<NestedFieldRef>) -> Result<
    Seq<NestedFieldRef>,
    ErrorView,
> {
    partition_type_fields(schema_columns(schema_fields), spec.fields)
}

/// The reason of the first fields is the reason of all of them.
proof fn partition_type_prefix(list: Seq<ColumnView>, fields: Seq<PartitionField>, n: int)
    requires
        0 <= n <= fields.len(),
        partition_type_fields(list, fields.take(n)) is Err,
    ensures
        partition_type_fields(list, fields) == partition_type_fields(list, fields.take(n)),
    decreases fields.len(),
{
    if n == fields.len() {
        assert(fields.take(n) =~= fields);
    } else {
        assert(fields.drop_last().take(n) =~= fields.take(n));
        partition_type_prefix(list, fields.drop_last(), n);
    }
}

fn check_partition_field(list: &Vec<Column>, fields: &Vec<PartitionField>, at: usize) -> (r: Result<(), Error>)
    requires
        at < fields@.len(),
    ensures
        ({
            let fault = partition_field_fault(
                column_views(list@),
                fields@.take(at as int),
                fields@[at as int],
            );
            match r {
                Ok(_) => fault is None,
                Err(e) => fault is Some && e@ == data_invalid(fault.unwrap()),
            }
        }),
{
    let f: &PartitionField = &fields[at];
    let ghost before: Seq<PartitionField> = fields@.take(at as int);
    if f.name.as_str().is_empty() {
        return Err(Error::data_invalid("Cannot use empty partition name".to_owned()));
    }
    let mut i: usize = 0;
    while i < at
        invariant
            i <= at < fields@.len(),
            *f == fields@[at as int],
            before == fields@.take(at as int),
            f.name@.len() > 0,
            forall|j: int| 0 <= j < i ==> (#[trigger] before[j]).name@ != f.name@,
        decreases at - i,
    {
        if fields[i].name == f.name {
            let mut text: String = "Cannot use partition name more than once: ".to_owned();
            text.append(f.name.as_str());
            proof {
                assert(before[i as int].name@ == f.name@);
            }
            return Err(Error::data_invalid(text));
        }
        i = i + 1;
    }
    i = 0;
    while i < at
        invariant
            i <= at < fields@.len(),
            *f == fields@[at as int],
            before == fields@.take(at as int),
            f.name@.len() > 0,
            forall|j: int| 0 <= j < before.len() ==> (#[trigger] before[j]).name@ != f.name@,
            forall|j: int|
                0 <= j < i ==> !((#[trigger] before[j]).source_id == f.source_id && redundant(
                    before[j].transform,
                    f.transform,
                )),
        decreases at - i,
    {
        if fields[i].source_id == f.source_id && fields[i].transform.is_redundant_to(f.transform) {
            proof {
                assert(before[i as int].source_id == f.source_id);
            }
            return Err(
                Error::data_invalid(
                    around_number(
                        "Cannot add redundant partition with source id ",
                        f.source_id as i64,
                        ": its transform repeats another",
                    ),
                ),
            );
        }
        i = i + 1;
    }
    proof {
        assert(column_views(list@).take(list@.len() as int) =~= column_views(list@));
    }
    match find_name(list, &f.name, list.len()) {
        Some(k) => {
            if f.transform != Transform::Identity {
                return Err(
                    Error::data_invalid(
                        around_name(
                            "Cannot create partition with name: '",
                            &f.name,
                            "' that conflicts with schema field and is not an identity transform.",
                        ),
                    ),
                );
            }
            if list[k].field.id != f.source_id {
                let mut text: String = around_name(
                    "Cannot create identity partition sourced from different field in schema. Field name '",
                    &f.name,
                    "' has id ",
                );
                push_decimal(&mut text, list[k].field.id as i64);
                text.append(" in schema but partition source id is ");
                push_decimal(&mut text, f.source_id as i64);
                return Err(Error::data_invalid(text));
            }
        },
        None => {},
    }
    match find_id(list, f.source_id) {
        None => {
            return Err(
                Error::data_invalid(
                    around_number(
                        "Cannot find partition source field with id ",
                        f.source_id as i64,
                        " in schema",
                    ),
                ),
            );
        },
        Some(k) => {
            if f.transform != Transform::Void {
                match &*list[k].field.field_type {
                    Type::Primitive(_) => {},
                    _ => {
                        return Err(
                            Error::data_invalid(
                                around_name(
                                    "Cannot partition by non-primitive source field: '",
                                    &list[k].field.name,
                                    "'.",
                                ),
                            ),
                        );
                    },
                }
                if f.transform.result_type(&list[k].field.field_type).is_none() {
                    return Err(
                        Error::data_invalid(
                            around_name(
                                "Invalid source type for the transform of partition field: '",
                                &f.name,
                                "'.",
                            ),
                        ),
                    );
                }
            }
        },
    }
    i = 0;
    while i < at
        invariant
            i <= at < fields@.len(),
            *f == fields@[at as int],
            before == fields@.take(at as int),
            forall|j: int| 0 <= j < i ==> (#[trigger] before[j]).field_id != f.field_id,
        ensures
            forall|j: int| 0 <= j < i ==> (#[trigger] before[j]).field_id != f.field_id,
            i <= at,
            i < at ==> before[i as int].field_id == f.field_id,
        decreases at - i,
    {
        proof {
            assert(before[i as int] == fields@[i as int]);
        }
        if fields[i].field_id == f.field_id {
            break;
        }
        i = i + 1;
    }
    if i < at {
        let mut text: String = "Cannot use field id more than once in one PartitionSpec: ".to_owned();
        push_decimal(&mut text, f.field_id as i64);
        return Err(Error::data_invalid(text));
    }
    Ok(())
}

impl PartitionSpec {
    /// The partition spec of a table without partitions.
    pub fn unpartition_spec() -> (r: PartitionSpec)
        ensures
            r@ == unpartitioned(),
    {
        PartitionSpec { spec_id: DEFAULT_PARTITION_SPEC_ID, fields: Vec::new() }
    }

    /// The partition spec with this id and these fields for `schema`.
    pub fn bind(spec_id: i32, fields: Vec<PartitionField>, schema: &Schema) -> (r: Result<PartitionSpec, Error>)
        ensures
            match r {
                Ok(s) => spec_of(spec_id, fields@, schema@.fields) == Ok::<PartitionSpecView, ErrorView>(s@),
                Err(e) => spec_of(spec_id, fields@, schema@.fields) == Err::<PartitionSpecView, ErrorView>(e@),
            },
    {
        let list: Vec<Column> = schema.columns();
        let mut i: usize = 0;
        while i < fields.len()
            invariant
                i <= fields@.len(),
                column_views(list@) == schema_columns(schema@.fields),
                partition_fields_fault(column_views(list@), fields@.take(i as int)) is None,
            decreases fields@.len() - i,
        {
            proof {
                assert(fields@.take(i + 1).drop_last() =~= fields@.take(i as int));
            }
            match check_partition_field(&list, &fields, i) {
                Ok(_) => {},
                Err(e) => {
                    proof {
                        partition_fields_fault_prefix(column_views(list@), fields@, i + 1);
                    }
                    return Err(e);
                },
            }
            i = i + 1;
        }
        proof {
            assert(fields@.take(i as int) =~= fields@);
        }
        Ok(PartitionSpec { spec_id, fields })
    }

    /// The id of the spec.
    pub fn spec_id(&self) -> (r: i32)
        ensures
            r == self@.spec_id,
    {
        self.spec_id
    }

    /// The fields of the spec.
    pub fn fields(&self) -> (r: &Vec<PartitionField>)
        ensures
            r@ == self@.fields,
    {
        &self.fields
    }

    /// The type of the partition values of rows that have the given schema.
    pub fn partition_type(&self, schema: &Schema) -> (r: Result<StructType, Error>)
        ensures
            match r {
                Ok(t) => partition_type_of(self@, schema@.fields) == Ok::<Seq<NestedFieldRef>, ErrorView>(t@),
                Err(e) => partition_type_of(self@, schema@.fields) == Err::<Seq<NestedFieldRef>, ErrorView>(e@),
            },
    {
        let list: Vec<Column> = schema.columns();
        let ghost views: Seq<ColumnView> = column_views(list@);
        let mut fields: Vec<NestedFieldRef> = Vec::new();
        let mut i: usize = 0;
        while i < self.fields.len()
            invariant
                i <= self.fields@.len(),
                views == column_views(list@),
                views == schema_columns(schema@.fields),
                partition_type_fields(views, self.fields@.take(i as int)) == Ok::<Seq<NestedFieldRef>, ErrorView>(
                    fields@,
                ),
            decreases self.fields@.len() - i,
        {
            let f: &PartitionField = &self.fields[i];
            proof {
                assert(self.fields@.take(i + 1).drop_last() =~= self.fields@.take(i as int));
            }
            match find_id(&list, f.source_id) {
                None => {
                    proof {
                        partition_type_prefix(views, self.fields@, i + 1);
                    }
                    return Err(
                        Error::new(
                            ErrorKind::Unexpected,
                            around_number(
                                "No column with source column id ",
                                f.source_id as i64,
                                " in schema",
                            ),
                        ),
                    );
                },
                Some(k) => {
                    match f.transform.result_type(&list[k].field.field_type) {
                        None => {
                            proof {
                                partition_type_prefix(views, self.fields@, i + 1);
                            }
                            return Err(
                                Error::data_invalid(
                                    around_name(
                                        "Invalid source type for the transform of partition field: '",
                                        &f.name,
                                        "'.",
                                    ),
                                ),
                            );
                        },
                        Some(field_type) => {
                            fields.push(
                                Arc::new(
                                    NestedField {
                                        id: f.field_id,
                                        name: f.name.clone(),
                                        required: false,
                                        field_type,
                                        doc: None,
                                    },
                                ),
                            );
                        },
                    }
                },
            }
            i = i + 1;
        }
        proof {
            assert(self.fields@.take(i as int) =~= self.fields@);
        }
        Ok(StructType::new(fields))
    }
}

} // verus!
