//! The types of columns.

use crate::shared::{share, share_all};
use std::sync::Arc;
use vstd::prelude::*;
use vstd::string::StringExecFns;

verus! {

/// A type without parts.
#[derive(Debug, Clone, Copy, PartialEq, Eq, Structural)]
pub enum PrimitiveType {
    Boolean,
    Int,
    Long,
    Float,
    Double,
    Decimal { precision: u32, scale: u32 },
    Date,
    Time,
    Timestamp,
    Timestamptz,
    TimestampNs,
    TimestamptzNs,
    String,
    Uuid,
    Fixed(u64),
    Binary,
}

/// A column or a part of one.
#[derive(Debug, PartialEq, Eq)]
pub struct NestedField {
    /// Id that no other field of the table has.
    pub id: i32,
    pub name: String,
    /// Whether the field has a value in every row.
    pub required: bool,
    pub field_type: Arc<Type>,
    pub doc: Option<String>,
}

/// A field that several owners hold.
pub type NestedFieldRef = Arc<NestedField>;

/// A tuple of named fields.
#[derive(Debug, PartialEq, Eq)]
pub struct StructType {
    pub fields: Vec<NestedFieldRef>,
}

/// A list, by the field that stands for its elements.
#[derive(Debug, PartialEq, Eq)]
pub struct ListType {
    pub element_field: NestedFieldRef,
}

/// A map, by the fields that stand for its keys and its values.
#[derive(Debug, PartialEq, Eq)]
pub struct MapType {
    pub key_field: NestedFieldRef,
    pub value_field: NestedFieldRef,
}

/// The type of a field.
#[derive(Debug, PartialEq, Eq)]
pub enum Type {
    Primitive(PrimitiveType),
    Struct(StructType),
    List(ListType),
    MapOf(MapType),
}

impl View for StructType {
    type V = Seq<NestedFieldRef>;

    open spec fn view(&self) -> Seq<NestedFieldRef> {
        self.fields@
    }
}

impl Clone for StructType {
    fn clone(&self) -> (r: Self)
        ensures
            r@ == self@,
    {
        StructType { fields: share_all(&self.fields) }
    }
}

impl StructType {
    /// The struct with these fields.
    pub fn new(fields: Vec<NestedFieldRef>) -> (r: StructType)
        ensures
            r@ == fields@,
    {
        StructType { fields }
    }

    /// The fields of the struct.
    pub fn fields(&self) -> (r: &Vec<NestedFieldRef>)
        ensures
            r@ == self@,
    {
        &self.fields
    }
}

impl NestedField {
    /// A field that has a value in every row.
    pub fn required(id: i32, name: String, field_type: Type) -> (r: NestedField)
        ensures
            r == (NestedField { id, name, required: true, field_type: Arc::new(field_type), doc: None }),
    {
        NestedField { id, name, required: true, field_type: Arc::new(field_type), doc: None }
    }

    /// A field that may have no value in a row.
    pub fn optional(id: i32, name: String, field_type: Type) -> (r: NestedField)
        ensures
            r == (NestedField { id, name, required: false, field_type: Arc::new(field_type), doc: None }),
    {
        NestedField { id, name, required: false, field_type: Arc::new(field_type), doc: None }
    }

    /// The field with this text as its documentation.
    pub fn with_doc(self, doc: String) -> (r: NestedField)
        ensures
            r == (NestedField { doc: Some(doc), ..self }),
    {
        NestedField {
            id: self.id,
            name: self.name,
            required: self.required,
            field_type: self.field_type,
            doc: Some(doc),
        }
    }
}

/// A field at any depth of a schema.
pub ghost struct ColumnView {
    /// The names on the way down to the field, with dots between them.
    pub name: Seq<char>,
    pub field: NestedFieldRef,
    /// Whether every field on the way down is a required struct.
    pub certain: bool,
}

/// The fields `fields`, whose names continue `prefix`, and all that is inside them.
pub open spec fn columns(fields: Seq<NestedFieldRef>, prefix: Seq<char>, certain: bool) -> Seq<ColumnView>
    decreases fields, 1int,
{
    if fields.len() == 0 {
        Seq::empty()
    } else {
        columns(fields.drop_last(), prefix, certain) + field_columns(fields.last(), prefix, certain)
    }
}

/// A field and all that is inside it.
pub open spec fn field_columns(field: NestedFieldRef, prefix: Seq<char>, certain: bool) -> Seq<ColumnView>
    decreases field, 0int,
{
    let name = prefix + field.name@;
    let inner = name + "."@;
    let inside = match *field.field_type {
        Type::Primitive(_) => Seq::empty(),
        Type::Struct(s) => columns(s.fields@, inner, certain && field.required),
        Type::List(l) => field_columns(l.element_field, inner, false),
        Type::MapOf(m) => field_columns(m.key_field, inner, false) + field_columns(m.value_field, inner, false),
    };
    seq![ColumnView { name, field, certain }] + inside
}

/// A field at any depth of a schema.
#[derive(Debug)]
pub struct Column {
    /// The names on the way down to the field, with dots between them.
    pub name: String,
    pub field: NestedFieldRef,
    /// Whether every field on the way down is a required struct.
    pub certain: bool,
}

impl View for Column {
    type V = ColumnView;

    open spec fn view(&self) -> ColumnView {
        ColumnView { name: self.name@, field: self.field, certain: self.certain }
    }
}

/// What the columns of a list are.
pub open spec fn column_views(list: Seq<Column>) -> Seq<ColumnView> {
    list.map_values(|c: Column| c@)
}

fn push_field_columns(list: &mut Vec<Column>, field: &NestedFieldRef, prefix: &String, certain: bool)
    ensures
        column_views(final(list)@) == column_views(old(list)@) + field_columns(*field, prefix@, certain),
    decreases *field, 0int,
{
    let mut name: String = prefix.clone();
    name.append(field.name.as_str());
    let mut inner: String = name.clone();
    inner.append(".");
    list.push(Column { name, field: share(field), certain });
    let ghost own: Seq<ColumnView> = column_views(list@);
    match &*field.field_type {
        Type::Primitive(_) => {},
        Type::Struct(s) => {
            push_columns(list, &s.fields, &inner, certain && field.required);
        },
        Type::List(l) => {
            push_field_columns(list, &l.element_field, &inner, false);
        },
        Type::MapOf(m) => {
            push_field_columns(list, &m.key_field, &inner, false);
            push_field_columns(list, &m.value_field, &inner, false);
        },
    }
    proof {
        assert(own =~= column_views(old(list)@).push(
            ColumnView { name: prefix@ + field.name@, field: *field, certain },
        ));
        assert(column_views(list@) =~= column_views(old(list)@) + field_columns(*field, prefix@, certain));
    }
}

/// Appends the fields `fields`, whose names continue `prefix`, and all that is inside them.
pub fn push_columns(list: &mut Vec<Column>, fields: &Vec<NestedFieldRef>, prefix: &String, certain: bool)
    ensures
        column_views(final(list)@) == column_views(old(list)@) + columns(fields@, prefix@, certain),
    decreases fields@, 1int,
{
    let mut i: usize = 0;
    proof {
        assert(column_views(list@) =~= column_views(old(list)@) + columns(fields@.take(0), prefix@, certain));
    }
    while i < fields.len()
        invariant
            i <= fields@.len(),
            column_views(list@) == column_views(old(list)@) + columns(fields@.take(i as int), prefix@, certain),
        decreases fields@.len() - i,
    {
        push_field_columns(list, &fields[i], prefix, certain);
        proof {
            assert(fields@.take(i + 1).drop_last() =~= fields@.take(i as int));
            assert(column_views(list@) =~= column_views(old(list)@) + columns(
                fields@.take(i + 1),
                prefix@,
                certain,
            ));
        }
        i = i + 1;
    }
    proof {
        assert(fields@.take(i as int) =~= fields@);
    }
}

} // verus!
