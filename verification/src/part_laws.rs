//! What schemas, transforms and partition specs are for, told on the values themselves.

use crate::datatypes::{
    column_views, columns, field_columns, Column, ColumnView, NestedFieldRef, PrimitiveType, StructType, Type,
};
use crate::error::{Error, ErrorKind, ErrorView};
use crate::partition::{
    partition_field_fault, partition_fields_fault, partition_type_field, partition_type_fields, spec_of,
    PartitionField, PartitionSpec, PartitionSpecView,
};
use crate::rule_laws::says;
use crate::schema::{
    column_with_id, column_with_name, identifier_fault, identifiers_fault, names_fault, schema_columns, schema_of,
    Schema, SchemaView,
};
use crate::text::decimal;
use crate::transform::Transform;
use std::sync::Arc;
use vstd::prelude::*;

verus! {

/// What a transform makes of values of a primitive type, with the types that it takes named one by
/// one.
pub open spec fn made_of(t: Transform, p: PrimitiveType) -> Option<PrimitiveType> {
    match t {
        Transform::Identity => Some(p),
        Transform::Void => Some(p),
        Transform::Unknown => Some(PrimitiveType::String),
        Transform::Bucket(_) => match p {
            PrimitiveType::Int => Some(PrimitiveType::Int),
            PrimitiveType::Long => Some(PrimitiveType::Int),
            PrimitiveType::Decimal { .. } => Some(PrimitiveType::Int),
            PrimitiveType::Date => Some(PrimitiveType::Int),
            PrimitiveType::Time => Some(PrimitiveType::Int),
            PrimitiveType::Timestamp => Some(PrimitiveType::Int),
            PrimitiveType::Timestamptz => Some(PrimitiveType::Int),
            PrimitiveType::TimestampNs => Some(PrimitiveType::Int),
            PrimitiveType::TimestamptzNs => Some(PrimitiveType::Int),
            PrimitiveType::String => Some(PrimitiveType::Int),
            PrimitiveType::Uuid => Some(PrimitiveType::Int),
            PrimitiveType::Fixed(_) => Some(PrimitiveType::Int),
            PrimitiveType::Binary => Some(PrimitiveType::Int),
            PrimitiveType::Boolean => None,
            PrimitiveType::Float => None,
            PrimitiveType::Double => None,
        },
        Transform::Truncate(_) => match p {
            PrimitiveType::Int => Some(p),
            PrimitiveType::Long => Some(p),
            PrimitiveType::Decimal { .. } => Some(p),
            PrimitiveType::String => Some(p),
            PrimitiveType::Binary => Some(p),
            PrimitiveType::Boolean => None,
            PrimitiveType::Float => None,
            PrimitiveType::Double => None,
            PrimitiveType::Date => None,
            PrimitiveType::Time => None,
            PrimitiveType::Timestamp => None,
            PrimitiveType::Timestamptz => None,
            PrimitiveType::TimestampNs => None,
            PrimitiveType::TimestamptzNs => None,
            PrimitiveType::Uuid => None,
            PrimitiveType::Fixed(_) => None,
        },
        Transform::Year => match p {
            PrimitiveType::Date => Some(PrimitiveType::Int),
            PrimitiveType::Timestamp => Some(PrimitiveType::Int),
            PrimitiveType::Timestamptz => Some(PrimitiveType::Int),
            PrimitiveType::TimestampNs => Some(PrimitiveType::Int),
            PrimitiveType::TimestamptzNs => Some(PrimitiveType::Int),
            _ => None,
        },
        Transform::Month => match p {
            PrimitiveType::Date => Some(PrimitiveType::Int),
            PrimitiveType::Timestamp => Some(PrimitiveType::Int),
            PrimitiveType::Timestamptz => Some(PrimitiveType::Int),
            PrimitiveType::TimestampNs => Some(PrimitiveType::Int),
            PrimitiveType::TimestamptzNs => Some(PrimitiveType::Int),
            _ => None,
        },
        Transform::Day => match p {
            PrimitiveType::Date => Some(PrimitiveType::Date),
            PrimitiveType::Timestamp => Some(PrimitiveType::Date),
            PrimitiveType::Timestamptz => Some(PrimitiveType::Date),
            PrimitiveType::TimestampNs => Some(PrimitiveType::Date),
            PrimitiveType::TimestamptzNs => Some(PrimitiveType::Date),
            _ => None,
        },
        Transform::Hour => match p {
            PrimitiveType::Timestamp => Some(PrimitiveType::Int),
            PrimitiveType::Timestamptz => Some(PrimitiveType::Int),
            PrimitiveType::TimestampNs => Some(PrimitiveType::Int),
            PrimitiveType::TimestamptzNs => Some(PrimitiveType::Int),
            _ => None,
        },
    }
}

/// A transform makes values of type `made` of values of type `input`. Of values that are not
/// primitive, only the transforms that do not look at them make any.
pub open spec fn makes(t: Transform, input: Type, made: Type) -> bool {
    match input {
        Type::Primitive(p) => made_of(t, p) matches Some(q) && made == Type::Primitive(q),
        _ => (t == Transform::Void && made == input) || (t == Transform::Unknown && made == Type::Primitive(
            PrimitiveType::String,
        )),
    }
}

/// A transform takes values of this type.
pub open spec fn takes(t: Transform, input: Type) -> bool {
    match input {
        Type::Primitive(p) => made_of(t, p) is Some,
        _ => t == Transform::Void || t == Transform::Unknown,
    }
}

/// The result type of a transform is there exactly for the types that the transform takes, and is
/// the type of what it makes of them.
pub proof fn transforms_make_what_they_should(t: Transform, input: Arc<Type>, r: Option<Arc<Type>>)
    requires
        call_ensures(Transform::result_type, (t, &input), r),
    ensures
        r is Some <==> takes(t, *input),
        r matches Some(made) ==> makes(t, *input, *made),
{
}

/// One column has no two transforms that are the same or that both cut time into pieces.
pub proof fn redundant_transforms_repeat(a: Transform, b: Transform, r: bool)
    requires
        call_ensures(Transform::is_redundant_to, (a, b), r),
    ensures
        r <==> a == b || repeats_time(a, b),
{
}

/// Both transforms cut time into pieces.
pub open spec fn repeats_time(a: Transform, b: Transform) -> bool {
    &&& a == Transform::Year || a == Transform::Month || a == Transform::Day || a == Transform::Hour
    &&& b == Transform::Year || b == Transform::Month || b == Transform::Day || b == Transform::Hour
}

/// A column is a field right inside another column. Its name continues the other's after a dot. It
/// is certain to have a value where the other is, and is a struct that is required.
pub open spec fn inside(outer: ColumnView, inner: ColumnView) -> bool {
    &&& inner.name == outer.name + "."@ + inner.field.name@
    &&& match *outer.field.field_type {
        Type::Primitive(_) => false,
        Type::Struct(s) => s.fields@.contains(inner.field) && inner.certain == (outer.certain && outer.field.required),
        Type::List(l) => inner.field == l.element_field && !inner.certain,
        Type::MapOf(m) => (inner.field == m.key_field || inner.field == m.value_field) && !inner.certain,
    }
}

/// A column is one of the fields `fields`.
pub open spec fn on_top(fields: Seq<NestedFieldRef>, prefix: Seq<char>, certain: bool, c: ColumnView) -> bool {
    fields.contains(c.field) && c.name == prefix + c.field.name@ && c.certain == certain
}

/// What is inside a column of the list is in the list.
pub open spec fn reaches_down(list: Seq<ColumnView>) -> bool {
    forall|j: int, d: ColumnView| 0 <= j < list.len() && #[trigger] inside(list[j], d) ==> list.contains(d)
}

/// Every column of the list is one of these, or inside an earlier one.
pub open spec fn comes_from(list: Seq<ColumnView>, tops: Set<ColumnView>) -> bool {
    forall|j: int|
        0 <= j < list.len() ==> tops.contains(#[trigger] list[j]) || exists|k: int|
            0 <= k < j && inside(#[trigger] list[k], list[j])
}

proof fn joined(a: Seq<ColumnView>, b: Seq<ColumnView>, above_a: Set<ColumnView>, above_b: Set<ColumnView>)
    requires
        reaches_down(a),
        reaches_down(b),
        comes_from(a, above_a),
        comes_from(b, above_b),
    ensures
        reaches_down(a + b),
        comes_from(a + b, above_a.union(above_b)),
        forall|c: ColumnView| #[trigger] (a + b).contains(c) <==> a.contains(c) || b.contains(c),
{
    let list: Seq<ColumnView> = a + b;
    assert forall|c: ColumnView| #[trigger] list.contains(c) <==> a.contains(c) || b.contains(c) by {
        if a.contains(c) {
            let j: int = choose|j: int| 0 <= j < a.len() && a[j] == c;
            assert(list[j] == c);
        }
        if b.contains(c) {
            let j: int = choose|j: int| 0 <= j < b.len() && b[j] == c;
            assert(list[a.len() + j] == c);
        }
        if list.contains(c) {
            let j: int = choose|j: int| 0 <= j < list.len() && list[j] == c;
            if j < a.len() {
                assert(a[j] == c);
            } else {
                assert(b[j - a.len()] == c);
            }
        }
    }
    assert forall|j: int, d: ColumnView|
        0 <= j < list.len() && #[trigger] inside(list[j], d) implies list.contains(d) by {
        if j < a.len() {
            assert(inside(a[j], d));
        } else {
            assert(inside(b[j - a.len()], d));
        }
    }
    assert forall|j: int| 0 <= j < list.len() implies above_a.union(above_b).contains(#[trigger] list[j])
        || exists|k: int| 0 <= k < j && inside(#[trigger] list[k], list[j]) by {
        if j < a.len() {
            if !above_a.contains(a[j]) {
                let k: int = choose|k: int| 0 <= k < j && inside(#[trigger] a[k], a[j]);
                assert(inside(list[k], list[j]));
            }
        } else {
            let n: int = j - a.len();
            if !above_b.contains(b[n]) {
                let k: int = choose|k: int| 0 <= k < n && inside(#[trigger] b[k], b[n]);
                assert(inside(list[a.len() + k], list[j]));
            }
        }
    }
}

proof fn nested(own: ColumnView, b: Seq<ColumnView>, above: Set<ColumnView>)
    requires
        reaches_down(b),
        comes_from(b, above),
        forall|d: ColumnView| #[trigger] inside(own, d) ==> b.contains(d),
        forall|d: ColumnView| #[trigger] above.contains(d) ==> inside(own, d),
    ensures
        reaches_down(seq![own] + b),
        comes_from(seq![own] + b, set![own]),
{
    let list: Seq<ColumnView> = seq![own] + b;
    assert forall|j: int, d: ColumnView|
        0 <= j < list.len() && #[trigger] inside(list[j], d) implies list.contains(d) by {
        if j > 0 {
            assert(inside(b[j - 1], d));
        }
        let k: int = choose|k: int| 0 <= k < b.len() && b[k] == d;
        assert(list[k + 1] == d);
    }
    assert forall|j: int| 0 <= j < list.len() implies set![own].contains(#[trigger] list[j]) || exists|k: int|
        0 <= k < j && inside(#[trigger] list[k], list[j]) by {
        if j > 0 {
            if above.contains(b[j - 1]) {
                assert(inside(list[0], list[j]));
            } else {
                let k: int = choose|k: int| 0 <= k < j - 1 && inside(#[trigger] b[k], b[j - 1]);
                assert(inside(list[k + 1], list[j]));
            }
        }
    }
}

/// The columns on top of fields.
pub open spec fn tops(fields: Seq<NestedFieldRef>, prefix: Seq<char>, certain: bool) -> Set<ColumnView> {
    Set::new(|c: ColumnView| on_top(fields, prefix, certain, c))
}

/// The columns of fields are the fields and what is inside columns, and nothing else.
proof fn columns_are(fields: Seq<NestedFieldRef>, prefix: Seq<char>, certain: bool)
    ensures
        reaches_down(columns(fields, prefix, certain)),
        comes_from(columns(fields, prefix, certain), tops(fields, prefix, certain)),
        forall|c: ColumnView| #[trigger]
            on_top(fields, prefix, certain, c) ==> columns(fields, prefix, certain).contains(c),
    decreases fields, 1int,
{
    let list: Seq<ColumnView> = columns(fields, prefix, certain);
    if fields.len() > 0 {
        let rest: Seq<NestedFieldRef> = fields.drop_last();
        let last: NestedFieldRef = fields.last();
        columns_are(rest, prefix, certain);
        assert(decreases_to!(fields => fields[fields.len() - 1]));
        field_columns_are(last, prefix, certain);
        let a: Seq<ColumnView> = columns(rest, prefix, certain);
        let b: Seq<ColumnView> = field_columns(last, prefix, certain);
        let own: ColumnView = ColumnView { name: prefix + last.name@, field: last, certain };
        joined(a, b, tops(rest, prefix, certain), set![own]);
        assert(tops(rest, prefix, certain).union(set![own]) =~= tops(fields, prefix, certain)) by {
            assert forall|c: ColumnView| tops(rest, prefix, certain).union(set![own]).contains(c) == #[trigger] tops(
                fields,
                prefix,
                certain,
            ).contains(c) by {
                if fields.contains(c.field) {
                    let i: int = choose|i: int| 0 <= i < fields.len() && fields[i] == c.field;
                    if i < rest.len() {
                        assert(rest[i] == c.field);
                    }
                }
                if rest.contains(c.field) {
                    let i: int = choose|i: int| 0 <= i < rest.len() && rest[i] == c.field;
                    assert(fields[i] == c.field);
                }
                assert(fields[fields.len() - 1] == last);
            }
        }
        assert forall|c: ColumnView| #[trigger] on_top(fields, prefix, certain, c) implies list.contains(c) by {
            assert(tops(fields, prefix, certain).contains(c));
            if on_top(rest, prefix, certain, c) {
                assert(a.contains(c));
            } else {
                assert(c == own);
                assert(b[0] == c);
                assert(b.contains(c));
            }
            assert((a + b).contains(c));
        }
    }
}

/// The columns of a field are the field and what is inside its columns, and nothing else.
proof fn field_columns_are(field: NestedFieldRef, prefix: Seq<char>, certain: bool)
    ensures
        ({
            let list = field_columns(field, prefix, certain);
            let own = ColumnView { name: prefix + field.name@, field, certain };
            &&& list.len() > 0
            &&& list[0] == own
            &&& reaches_down(list)
            &&& comes_from(list, set![own])
        }),
    decreases field, 0int,
{
    let list: Seq<ColumnView> = field_columns(field, prefix, certain);
    let name: Seq<char> = prefix + field.name@;
    let inner: Seq<char> = name + "."@;
    let own: ColumnView = ColumnView { name, field, certain };
    assert(list[0] == own);
    match *field.field_type {
        Type::Primitive(_) => {
            nested(own, Seq::empty(), Set::empty());
            assert(list =~= seq![own] + Seq::empty());
        },
        Type::Struct(s) => {
            let sure: bool = certain && field.required;
            columns_are(s.fields@, inner, sure);
            let b: Seq<ColumnView> = columns(s.fields@, inner, sure);
            assert(list =~= seq![own] + b);
            assert forall|d: ColumnView| #[trigger] inside(own, d) implies b.contains(d) by {
                assert(on_top(s.fields@, inner, sure, d));
            }
            nested(own, b, tops(s.fields@, inner, sure));
        },
        Type::List(l) => {
            field_columns_are(l.element_field, inner, false);
            let b: Seq<ColumnView> = field_columns(l.element_field, inner, false);
            assert(list =~= seq![own] + b);
            let c: ColumnView = ColumnView { name: inner + l.element_field.name@, field: l.element_field, certain: false };
            assert(b[0] == c);
            assert(inside(own, c));
            nested(own, b, set![c]);
        },
        Type::MapOf(m) => {
            field_columns_are(m.key_field, inner, false);
            field_columns_are(m.value_field, inner, false);
            let a: Seq<ColumnView> = field_columns(m.key_field, inner, false);
            let b: Seq<ColumnView> = field_columns(m.value_field, inner, false);
            assert(list =~= seq![own] + (a + b));
            let c: ColumnView = ColumnView { name: inner + m.key_field.name@, field: m.key_field, certain: false };
            let d: ColumnView = ColumnView { name: inner + m.value_field.name@, field: m.value_field, certain: false };
            joined(a, b, set![c], set![d]);
            assert(a[0] == c);
            assert(b[0] == d);
            assert(inside(own, c));
            assert(inside(own, d));
            assert forall|e: ColumnView| #[trigger] inside(own, e) implies (a + b).contains(e) by {
                assert(e == c || e == d);
            }
            nested(own, a + b, set![c].union(set![d]));
        },
    }
}

/// The columns of a schema are its fields, and the fields inside its columns at any depth, and
/// nothing else.
pub proof fn schema_columns_are_all_fields(s: Schema, r: Vec<Column>)
    requires
        call_ensures(Schema::columns, (&s,), r),
    ensures
        forall|i: int|
            0 <= i < s.fields.fields@.len() ==> exists|j: int|
                0 <= j < r@.len() && (#[trigger] r@[j]).field == #[trigger] s.fields.fields@[i] && r@[j].name@
                    == s.fields.fields@[i].name@ && r@[j].certain,
        forall|j: int, d: ColumnView|
            0 <= j < r@.len() && #[trigger] inside(r@[j]@, d) ==> exists|k: int|
                0 <= k < r@.len() && (#[trigger] r@[k])@ == d,
        forall|j: int|
            0 <= j < r@.len() ==> {
                ||| s.fields.fields@.contains((#[trigger] r@[j]).field) && r@[j].certain && r@[j].name@
                    == r@[j].field.name@
                ||| exists|k: int| 0 <= k < j && inside((#[trigger] r@[k])@, r@[j]@)
            },
{
    let fields: Seq<NestedFieldRef> = s.fields.fields@;
    let list: Seq<ColumnView> = schema_columns(fields);
    columns_are(fields, Seq::empty(), true);
    assert(column_views(r@) == list);
    assert forall|i: int| 0 <= i < fields.len() implies exists|j: int|
        0 <= j < r@.len() && (#[trigger] r@[j]).field == #[trigger] fields[i] && r@[j].name@ == fields[i].name@
            && r@[j].certain by {
        let c: ColumnView = ColumnView { name: fields[i].name@, field: fields[i], certain: true };
        assert(Seq::<char>::empty() + fields[i].name@ =~= fields[i].name@);
        assert(on_top(fields, Seq::empty(), true, c));
        let j: int = choose|j: int| 0 <= j < list.len() && list[j] == c;
        assert(r@[j]@ == c);
    }
    assert forall|j: int, d: ColumnView|
        0 <= j < r@.len() && #[trigger] inside(r@[j]@, d) implies exists|k: int|
        0 <= k < r@.len() && (#[trigger] r@[k])@ == d by {
        assert(list[j] == r@[j]@);
        assert(inside(list[j], d));
        let k: int = choose|k: int| 0 <= k < list.len() && list[k] == d;
        assert(r@[k]@ == d);
    }
    assert forall|j: int| 0 <= j < r@.len() implies {
        ||| fields.contains((#[trigger] r@[j]).field) && r@[j].certain && r@[j].name@ == r@[j].field.name@
        ||| exists|k: int| 0 <= k < j && inside((#[trigger] r@[k])@, r@[j]@)
    } by {
        assert(list[j] == r@[j]@);
        assert(Seq::<char>::empty() + r@[j].field.name@ =~= r@[j].field.name@);
        if !tops(fields, Seq::empty(), true).contains(list[j]) {
            let k: int = choose|k: int| 0 <= k < j && inside(#[trigger] list[k], list[j]);
            assert(inside(r@[k]@, r@[j]@));
        }
    }
}

/// A column is the first one with this id.
pub open spec fn first_with_id(list: Seq<ColumnView>, id: i32, c: ColumnView) -> bool {
    exists|j: int|
        0 <= j < list.len() && #[trigger] list[j] == c && c.field.id == id && forall|k: int|
            0 <= k < j ==> (#[trigger] list[k]).field.id != id
}

/// A column is the first one with this name.
pub open spec fn first_with_name(list: Seq<ColumnView>, name: Seq<char>, c: ColumnView) -> bool {
    exists|j: int|
        0 <= j < list.len() && #[trigger] list[j] == c && c.name == name && forall|k: int|
            0 <= k < j ==> (#[trigger] list[k]).name != name
}

proof fn id_found(list: Seq<ColumnView>, id: i32)
    ensures
        match column_with_id(list, id) {
            Some(c) => first_with_id(list, id, c),
            None => forall|j: int| 0 <= j < list.len() ==> (#[trigger] list[j]).field.id != id,
        },
        forall|c: ColumnView| #[trigger] first_with_id(list, id, c) ==> column_with_id(list, id) == Some(c),
    decreases list.len(),
{
    if list.len() > 0 {
        let rest: Seq<ColumnView> = list.drop_last();
        id_found(rest, id);
        match column_with_id(rest, id) {
            Some(c) => {
                let j: int = choose|j: int|
                    0 <= j < rest.len() && #[trigger] rest[j] == c && c.field.id == id && forall|k: int|
                        0 <= k < j ==> (#[trigger] rest[k]).field.id != id;
                assert(list[j] == c);
                assert forall|k: int| 0 <= k < j implies (#[trigger] list[k]).field.id != id by {
                    assert(rest[k].field.id != id);
                }
                assert forall|d: ColumnView| #[trigger] first_with_id(list, id, d) implies d == c by {
                    let i: int = choose|i: int|
                        0 <= i < list.len() && #[trigger] list[i] == d && d.field.id == id && forall|k: int|
                            0 <= k < i ==> (#[trigger] list[k]).field.id != id;
                    if j < i {
                        assert(list[j].field.id != id);
                    } else if i < j {
                        assert(rest[i].field.id != id);
                    }
                }
            },
            None => {
                assert forall|j: int| 0 <= j < rest.len() implies (#[trigger] list[j]).field.id != id by {
                    assert(rest[j].field.id != id);
                }
                if list.last().field.id == id {
                    assert(list[list.len() - 1] == list.last());
                    assert(first_with_id(list, id, list.last()));
                }
            },
        }
    }
}

proof fn name_found(list: Seq<ColumnView>, name: Seq<char>)
    ensures
        match column_with_name(list, name) {
            Some(c) => first_with_name(list, name, c),
            None => forall|j: int| 0 <= j < list.len() ==> (#[trigger] list[j]).name != name,
        },
        forall|c: ColumnView| #[trigger] first_with_name(list, name, c) ==> column_with_name(list, name) == Some(c),
    decreases list.len(),
{
    if list.len() > 0 {
        let rest: Seq<ColumnView> = list.drop_last();
        name_found(rest, name);
        match column_with_name(rest, name) {
            Some(c) => {
                let j: int = choose|j: int|
                    0 <= j < rest.len() && #[trigger] rest[j] == c && c.name == name && forall|k: int|
                        0 <= k < j ==> (#[trigger] rest[k]).name != name;
                assert(list[j] == c);
                assert forall|k: int| 0 <= k < j implies (#[trigger] list[k]).name != name by {
                    assert(rest[k].name != name);
                }
                assert forall|d: ColumnView| #[trigger] first_with_name(list, name, d) implies d == c by {
                    let i: int = choose|i: int|
                        0 <= i < list.len() && #[trigger] list[i] == d && d.name == name && forall|k: int|
                            0 <= k < i ==> (#[trigger] list[k]).name != name;
                    if j < i {
                        assert(list[j].name != name);
                    } else if i < j {
                        assert(rest[i].name != name);
                    }
                }
            },
            None => {
                assert forall|j: int| 0 <= j < rest.len() implies (#[trigger] list[j]).name != name by {
                    assert(rest[j].name != name);
                }
                if list.last().name == name {
                    assert(list[list.len() - 1] == list.last());
                    assert(first_with_name(list, name, list.last()));
                }
            },
        }
    }
}

/// A field can tell rows apart: it always has a value, which is primitive and no floating-point
/// number.
pub open spec fn identifies(list: Seq<ColumnView>, id: i32) -> bool {
    exists|c: ColumnView| #[trigger]
        first_with_id(list, id, c) && c.field.required && c.certain && match *c.field.field_type {
            Type::Primitive(p) => p != PrimitiveType::Float && p != PrimitiveType::Double,
            _ => false,
        }
}

/// What is said of a field that cannot tell rows apart.
pub open spec fn cannot_identify(list: Seq<ColumnView>, id: i32, e: Error) -> bool {
    ||| (forall|j: int| 0 <= j < list.len() ==> (#[trigger] list[j]).field.id != id) && says(
        e,
        "Cannot add identifier field "@ + decimal(id as int) + ": field does not exist"@,
    )
    ||| exists|c: ColumnView| #[trigger]
        first_with_id(list, id, c) && !c.field.required && says(
            e,
            "Cannot add identifier field: "@ + c.field.name@ + " is an optional field"@,
        )
    ||| exists|c: ColumnView| #[trigger]
        first_with_id(list, id, c) && c.field.required && (*c.field.field_type == Type::Primitive(
            PrimitiveType::Float,
        ) || *c.field.field_type == Type::Primitive(PrimitiveType::Double)) && says(
            e,
            "Cannot add identifier field "@ + c.field.name@ + ": cannot be a float or double type"@,
        )
    ||| exists|c: ColumnView| #[trigger]
        first_with_id(list, id, c) && c.field.required && !c.certain && *c.field.field_type is Primitive && says(
            e,
            "Cannot add field "@ + c.field.name@
                + " as an identifier field: must be nested in required structs only"@,
        )
    ||| exists|c: ColumnView| #[trigger]
        first_with_id(list, id, c) && c.field.required && !(*c.field.field_type is Primitive) && says(
            e,
            "Cannot add field "@ + c.field.name@ + " as an identifier field: not a primitive type field"@,
        )
}

proof fn identifying(list: Seq<ColumnView>, id: i32)
    ensures
        identifier_fault(list, id) is None <==> identifies(list, id),
        forall|e: Error|
            identifier_fault(list, id) is Some && says(e, identifier_fault(list, id).unwrap())
                ==> #[trigger] cannot_identify(list, id, e),
{
    id_found(list, id);
    match column_with_id(list, id) {
        Some(c) => {
            assert(first_with_id(list, id, c));
        },
        None => {
            assert forall|c: ColumnView| !(#[trigger] first_with_id(list, id, c)) by {}
        },
    }
}

/// All of the ids belong to fields that can tell rows apart, or the reason is that of the first
/// that does not.
proof fn all_identifying(list: Seq<ColumnView>, ids: Seq<i32>)
    ensures
        identifiers_fault(list, ids) is None <==> forall|n: int|
            0 <= n < ids.len() ==> identifies(list, #[trigger] ids[n]),
        forall|e: Error|
            identifiers_fault(list, ids) is Some && #[trigger] says(e, identifiers_fault(list, ids).unwrap())
                ==> exists|n: int|
                0 <= n < ids.len() && cannot_identify(list, #[trigger] ids[n], e) && forall|k: int|
                    0 <= k < n ==> identifies(list, #[trigger] ids[k]),
    decreases ids.len(),
{
    if ids.len() > 0 {
        let rest: Seq<i32> = ids.drop_last();
        all_identifying(list, rest);
        identifying(list, ids.last());
        if identifiers_fault(list, ids) is None {
            assert forall|n: int| 0 <= n < ids.len() implies identifies(list, #[trigger] ids[n]) by {
                if n < rest.len() {
                    assert(identifies(list, rest[n]));
                }
            }
        } else if identifiers_fault(list, rest) is Some {
            let n: int = choose|n: int| 0 <= n < rest.len() && !identifies(list, #[trigger] rest[n]);
            assert(!identifies(list, ids[n]));
        } else {
            assert(!identifies(list, ids[ids.len() - 1]));
        }
        assert forall|e: Error|
            identifiers_fault(list, ids) is Some && #[trigger] says(
                e,
                identifiers_fault(list, ids).unwrap(),
            ) implies exists|n: int|
            0 <= n < ids.len() && cannot_identify(list, #[trigger] ids[n], e) && forall|k: int|
                0 <= k < n ==> identifies(list, #[trigger] ids[k]) by {
            if identifiers_fault(list, rest) is Some {
                assert(says(e, identifiers_fault(list, rest).unwrap()));
                let n: int = choose|n: int|
                    0 <= n < rest.len() && cannot_identify(list, #[trigger] rest[n], e) && forall|k: int|
                        0 <= k < n ==> identifies(list, #[trigger] rest[k]);
                assert(cannot_identify(list, ids[n], e));
                assert forall|k: int| 0 <= k < n implies identifies(list, #[trigger] ids[k]) by {
                    assert(identifies(list, rest[k]));
                }
            } else {
                let n: int = ids.len() - 1;
                assert(cannot_identify(list, ids[n], e));
                assert forall|k: int| 0 <= k < n implies identifies(list, #[trigger] ids[k]) by {
                    assert(identifies(list, rest[k]));
                }
            }
        }
    }
}

/// The names of columns differ, or some name that repeats an earlier one is the reason.
proof fn names_differing(list: Seq<ColumnView>)
    ensures
        names_fault(list) is None <==> forall|j: int, k: int|
            0 <= j < k < list.len() ==> (#[trigger] list[j]).name != (#[trigger] list[k]).name,
        names_fault(list) matches Some(m) ==> exists|j: int, k: int|
            0 <= j < k < list.len() && (#[trigger] list[j]).name == (#[trigger] list[k]).name && m
                == "Invalid schema: multiple fields for name "@ + list[k].name,
    decreases list.len(),
{
    if list.len() > 0 {
        let rest: Seq<ColumnView> = list.drop_last();
        let last: ColumnView = list.last();
        names_differing(rest);
        name_found(rest, last.name);
        if names_fault(rest) is Some {
            let (j, k): (int, int) = choose|j: int, k: int|
                0 <= j < k < rest.len() && (#[trigger] rest[j]).name == (#[trigger] rest[k]).name && names_fault(
                    rest,
                ) == Some("Invalid schema: multiple fields for name "@ + rest[k].name);
            assert(list[j].name == list[k].name);
        } else {
            match column_with_name(rest, last.name) {
                Some(c) => {
                    let j: int = choose|j: int|
                        0 <= j < rest.len() && #[trigger] rest[j] == c && c.name == last.name && forall|k: int|
                            0 <= k < j ==> (#[trigger] rest[k]).name != last.name;
                    assert(list[j].name == list[list.len() - 1].name);
                },
                None => {
                    assert forall|j: int, k: int| 0 <= j < k < list.len() implies (#[trigger] list[j]).name != (
                    #[trigger] list[k]).name by {
                        assert(rest[j].name != last.name);
                        if k < rest.len() {
                            assert(rest[j].name != rest[k].name);
                        }
                    }
                },
            }
        }
    }
}

/// A schema is made exactly when each identifier field can tell rows apart and no two columns have
/// the same name; it then has all the fields and all the identifier fields that were given. Else
/// the error is about the first identifier field that cannot, or about a name that two columns have.
pub proof fn schemas_are_made(schema_id: i32, fields: StructType, ids: Vec<i32>, r: Result<Schema, Error>)
    requires
        call_ensures(Schema::new, (schema_id, fields, &ids), r),
    ensures
        ({
            let list = schema_columns(fields.fields@);
            let identified = forall|n: int| 0 <= n < ids@.len() ==> identifies(list, #[trigger] ids@[n]);
            let named = forall|j: int, k: int|
                0 <= j < k < list.len() ==> (#[trigger] list[j]).name != (#[trigger] list[k]).name;
            &&& r is Ok <==> identified && named
            &&& r matches Ok(s) ==> {
                &&& s.schema_id == schema_id
                &&& s.fields.fields@ == fields.fields@
                &&& forall|id: i32| #[trigger] s.identifier_field_ids@.contains(id) <==> ids@.contains(id)
            }
            &&& r matches Err(e) ==> !identified ==> exists|n: int|
                0 <= n < ids@.len() && cannot_identify(list, #[trigger] ids@[n], e) && forall|k: int|
                    0 <= k < n ==> identifies(list, #[trigger] ids@[k])
            &&& r matches Err(e) ==> identified ==> exists|j: int, k: int|
                0 <= j < k < list.len() && (#[trigger] list[j]).name == (#[trigger] list[k]).name && says(
                    e,
                    "Invalid schema: multiple fields for name "@ + list[k].name,
                )
        }),
{
    let list: Seq<ColumnView> = schema_columns(fields.fields@);
    all_identifying(list, ids@);
    names_differing(list);
    if let Err(e) = r {
        if identifiers_fault(list, ids@) is Some {
            assert(says(e, identifiers_fault(list, ids@).unwrap()));
        } else {
            assert(says(e, names_fault(list).unwrap()));
        }
    }
}

/// A partition field can stand behind the fields `before`, for a schema with these columns: its name
/// and its id are new, it does not repeat what another field does with its column, its name is not
/// that of another column, and its transform takes the values of its column.
pub open spec fn fits(list: Seq<ColumnView>, before: Seq<PartitionField>, f: PartitionField) -> bool {
    &&& f.name@.len() > 0
    &&& forall|i: int|
        0 <= i < before.len() ==> {
            &&& (#[trigger] before[i]).name@ != f.name@
            &&& before[i].field_id != f.field_id
            &&& before[i].source_id == f.source_id ==> before[i].transform != f.transform && !repeats_time(
                before[i].transform,
                f.transform,
            )
        }
    &&& forall|c: ColumnView| #[trigger]
        first_with_name(list, f.name@, c) ==> f.transform == Transform::Identity && c.field.id == f.source_id
    &&& exists|c: ColumnView| #[trigger]
        first_with_id(list, f.source_id, c) && (f.transform == Transform::Void || (match *c.field.field_type {
            Type::Primitive(p) => made_of(f.transform, p) is Some,
            _ => false,
        }))
}

/// What is said of a partition field that cannot stand behind the fields `before`.
pub open spec fn cannot_fit(list: Seq<ColumnView>, before: Seq<PartitionField>, f: PartitionField, e: Error) -> bool {
    ||| f.name@.len() == 0 && says(e, "Cannot use empty partition name"@)
    ||| (exists|i: int| 0 <= i < before.len() && (#[trigger] before[i]).name@ == f.name@) && says(
        e,
        "Cannot use partition name more than once: "@ + f.name@,
    )
    ||| (exists|i: int|
        0 <= i < before.len() && (#[trigger] before[i]).source_id == f.source_id && (before[i].transform == f.transform
            || repeats_time(before[i].transform, f.transform))) && says(
        e,
        "Cannot add redundant partition with source id "@ + decimal(f.source_id as int)
            + ": its transform repeats another"@,
    )
    ||| (exists|c: ColumnView| #[trigger] first_with_name(list, f.name@, c)) && f.transform != Transform::Identity
        && says(
        e,
        "Cannot create partition with name: '"@ + f.name@
            + "' that conflicts with schema field and is not an identity transform."@,
    )
    ||| exists|c: ColumnView| #[trigger]
        first_with_name(list, f.name@, c) && f.transform == Transform::Identity && c.field.id != f.source_id && says(
            e,
            "Cannot create identity partition sourced from different field in schema. Field name '"@ + f.name@
                + "' has id "@ + decimal(c.field.id as int) + " in schema but partition source id is "@ + decimal(
                f.source_id as int,
            ),
        )
    ||| (forall|j: int| 0 <= j < list.len() ==> (#[trigger] list[j]).field.id != f.source_id) && says(
        e,
        "Cannot find partition source field with id "@ + decimal(f.source_id as int) + " in schema"@,
    )
    ||| exists|c: ColumnView| #[trigger]
        first_with_id(list, f.source_id, c) && f.transform != Transform::Void && !(*c.field.field_type is Primitive)
            && says(e, "Cannot partition by non-primitive source field: '"@ + c.field.name@ + "'."@)
    ||| exists|c: ColumnView| #[trigger]
        first_with_id(list, f.source_id, c) && !takes(f.transform, *c.field.field_type) && says(
            e,
            "Invalid source type for the transform of partition field: '"@ + f.name@ + "'."@,
        )
    ||| (exists|i: int| 0 <= i < before.len() && (#[trigger] before[i]).field_id == f.field_id) && says(
        e,
        "Cannot use field id more than once in one PartitionSpec: "@ + decimal(f.field_id as int),
    )
}

proof fn fitting(list: Seq<ColumnView>, before: Seq<PartitionField>, f: PartitionField)
    ensures
        partition_field_fault(list, before, f) is None <==> fits(list, before, f),
        forall|e: Error|
            partition_field_fault(list, before, f) is Some && says(e, partition_field_fault(list, before, f).unwrap())
                ==> #[trigger] cannot_fit(list, before, f, e),
{
    id_found(list, f.source_id);
    name_found(list, f.name@);
    match column_with_name(list, f.name@) {
        Some(c) => {
            assert(first_with_name(list, f.name@, c));
        },
        None => {
            assert forall|c: ColumnView| !(#[trigger] first_with_name(list, f.name@, c)) by {}
        },
    }
    match column_with_id(list, f.source_id) {
        Some(c) => {
            assert(first_with_id(list, f.source_id, c));
        },
        None => {
            assert forall|c: ColumnView| !(#[trigger] first_with_id(list, f.source_id, c)) by {}
        },
    }
}

/// All of the fields can stand behind those before them, or the reason is that of the first that
/// cannot.
proof fn all_fitting(list: Seq<ColumnView>, fields: Seq<PartitionField>)
    ensures
        partition_fields_fault(list, fields) is None <==> forall|n: int|
            0 <= n < fields.len() ==> fits(list, fields.take(n), #[trigger] fields[n]),
        forall|e: Error|
            partition_fields_fault(list, fields) is Some && #[trigger] says(
                e,
                partition_fields_fault(list, fields).unwrap(),
            ) ==> exists|n: int|
                0 <= n < fields.len() && cannot_fit(list, fields.take(n), #[trigger] fields[n], e) && forall|k: int|
                    0 <= k < n ==> fits(list, fields.take(k), #[trigger] fields[k]),
    decreases fields.len(),
{
    if fields.len() > 0 {
        let rest: Seq<PartitionField> = fields.drop_last();
        let last: int = fields.len() - 1;
        all_fitting(list, rest);
        fitting(list, rest, fields.last());
        assert(fields.take(last) =~= rest);
        assert forall|n: int| 0 <= n < rest.len() implies fields.take(n) == rest.take(n) && fields[n] == rest[n] by {
            assert(fields.take(n) =~= rest.take(n));
        }
        if partition_fields_fault(list, fields) is None {
            assert forall|n: int| 0 <= n < fields.len() implies fits(
                list,
                fields.take(n),
                #[trigger] fields[n],
            ) by {
                if n < rest.len() {
                    assert(fits(list, rest.take(n), rest[n]));
                    assert(fields.take(n) =~= rest.take(n));
                }
            }
        } else if partition_fields_fault(list, rest) is Some {
            let n: int = choose|n: int| 0 <= n < rest.len() && !fits(list, rest.take(n), #[trigger] rest[n]);
            assert(fields.take(n) =~= rest.take(n));
            assert(!fits(list, fields.take(n), fields[n]));
        } else {
            assert(!fits(list, fields.take(last), fields[last]));
        }
        assert forall|e: Error|
            partition_fields_fault(list, fields) is Some && #[trigger] says(
                e,
                partition_fields_fault(list, fields).unwrap(),
            ) implies exists|n: int|
            0 <= n < fields.len() && cannot_fit(list, fields.take(n), #[trigger] fields[n], e) && forall|k: int|
                0 <= k < n ==> fits(list, fields.take(k), #[trigger] fields[k]) by {
            if partition_fields_fault(list, rest) is Some {
                assert(says(e, partition_fields_fault(list, rest).unwrap()));
                let n: int = choose|n: int|
                    0 <= n < rest.len() && cannot_fit(list, rest.take(n), #[trigger] rest[n], e) && forall|k: int|
                        0 <= k < n ==> fits(list, rest.take(k), #[trigger] rest[k]);
                assert(fields.take(n) =~= rest.take(n));
                assert(cannot_fit(list, fields.take(n), fields[n], e));
                assert forall|k: int| 0 <= k < n implies fits(list, fields.take(k), #[trigger] fields[k]) by {
                    assert(fits(list, rest.take(k), rest[k]));
                    assert(fields.take(k) =~= rest.take(k));
                }
            } else {
                assert(cannot_fit(list, fields.take(last), fields[last], e));
                assert forall|k: int| 0 <= k < last implies fits(list, fields.take(k), #[trigger] fields[k]) by {
                    assert(fits(list, rest.take(k), rest[k]));
                    assert(fields.take(k) =~= rest.take(k));
                }
            }
        }
    }
}

/// A partition spec is made exactly when each field can stand behind those before it; it then has
/// the id and all the fields that were given, in their order. Else the error is about the first
/// field that cannot.
pub proof fn partition_specs_are_made(
    spec_id: i32,
    fields: Vec<PartitionField>,
    schema: Schema,
    r: Result<PartitionSpec, Error>,
)
    requires
        call_ensures(PartitionSpec::bind, (spec_id, fields, &schema), r),
    ensures
        ({
            let list = schema_columns(schema.fields.fields@);
            &&& r is Ok <==> forall|n: int|
                0 <= n < fields@.len() ==> fits(list, fields@.take(n), #[trigger] fields@[n])
            &&& r matches Ok(s) ==> s.spec_id == spec_id && s.fields@ == fields@
            &&& r matches Err(e) ==> exists|n: int|
                0 <= n < fields@.len() && cannot_fit(list, fields@.take(n), #[trigger] fields@[n], e) && forall|
                    k: int,
                |
                    0 <= k < n ==> fits(list, fields@.take(k), #[trigger] fields@[k])
        }),
{
    let list: Seq<ColumnView> = schema_columns(schema.fields.fields@);
    all_fitting(list, fields@);
    if let Err(e) = r {
        assert(says(e, partition_fields_fault(list, fields@).unwrap()));
    }
}

/// The partition value of a field has a type, for a schema with these columns.
pub open spec fn has_value(list: Seq<ColumnView>, f: PartitionField) -> bool {
    exists|c: ColumnView| #[trigger]
        first_with_id(list, f.source_id, c) && takes(f.transform, *c.field.field_type)
}

/// A field of a partition type is that of this partition field: it has the id and the name of the
/// partition field, may have no value, and has the type of what the transform makes of the column.
pub open spec fn value_field(list: Seq<ColumnView>, f: PartitionField, made: NestedFieldRef) -> bool {
    &&& made.id == f.field_id
    &&& made.name@ == f.name@
    &&& !made.required
    &&& made.doc is None
    &&& exists|c: ColumnView| #[trigger]
        first_with_id(list, f.source_id, c) && makes(f.transform, *c.field.field_type, *made.field_type)
}

/// What is said of a partition field whose value has no type.
pub open spec fn has_no_value(list: Seq<ColumnView>, f: PartitionField, e: Error) -> bool {
    ||| (forall|j: int| 0 <= j < list.len() ==> (#[trigger] list[j]).field.id != f.source_id) && e.kind
        == ErrorKind::Unexpected && e.message@ == "No column with source column id "@ + decimal(f.source_id as int)
        + " in schema"@
    ||| exists|c: ColumnView| #[trigger]
        first_with_id(list, f.source_id, c) && !takes(f.transform, *c.field.field_type) && says(
            e,
            "Invalid source type for the transform of partition field: '"@ + f.name@ + "'."@,
        )
}

proof fn value_typed(list: Seq<ColumnView>, f: PartitionField)
    ensures
        match partition_type_field(list, f) {
            Ok(made) => has_value(list, f) && value_field(list, f, made),
            Err(v) => !has_value(list, f) && forall|e: Error| e@ == v ==> #[trigger] has_no_value(list, f, e),
        },
{
    id_found(list, f.source_id);
    match column_with_id(list, f.source_id) {
        Some(c) => {
            assert(first_with_id(list, f.source_id, c));
        },
        None => {
            assert forall|c: ColumnView| !(#[trigger] first_with_id(list, f.source_id, c)) by {}
        },
    }
}

/// The values of partition fields all have types, or the reason is that of the first that has none.
pub proof fn values_typed(list: Seq<ColumnView>, fields: Seq<PartitionField>)
    ensures
        match partition_type_fields(list, fields) {
            Ok(made) => {
                &&& made.len() == fields.len()
                &&& forall|n: int|
                    0 <= n < fields.len() ==> has_value(list, fields[n]) && value_field(
                        list,
                        #[trigger] fields[n],
                        made[n],
                    )
            },
            Err(v) => exists|n: int|
                0 <= n < fields.len() && !has_value(list, #[trigger] fields[n]) && (forall|e: Error|
                    e@ == v ==> #[trigger] has_no_value(list, fields[n], e)) && forall|k: int|
                    0 <= k < n ==> has_value(list, #[trigger] fields[k]),
        },
    decreases fields.len(),
{
    if fields.len() > 0 {
        let rest: Seq<PartitionField> = fields.drop_last();
        let last: int = fields.len() - 1;
        values_typed(list, rest);
        value_typed(list, fields.last());
        match partition_type_fields(list, rest) {
            Ok(known) => {
                assert forall|k: int| 0 <= k < last implies has_value(list, #[trigger] fields[k]) && value_field(
                    list,
                    fields[k],
                    known[k],
                ) by {
                    assert(value_field(list, rest[k], known[k]));
                }
                match partition_type_field(list, fields.last()) {
                    Ok(made) => {
                        let all: Seq<NestedFieldRef> = known.push(made);
                        assert forall|n: int| 0 <= n < fields.len() implies has_value(list, fields[n])
                            && value_field(list, #[trigger] fields[n], all[n]) by {
                            if n < last {
                                assert(all[n] == known[n]);
                            }
                        }
                    },
                    Err(v) => {
                        assert(!has_value(list, fields[last]));
                    },
                }
            },
            Err(v) => {
                let n: int = choose|n: int|
                    0 <= n < rest.len() && !has_value(list, #[trigger] rest[n]) && (forall|e: Error|
                        e@ == v ==> #[trigger] has_no_value(list, rest[n], e)) && forall|k: int|
                        0 <= k < n ==> has_value(list, #[trigger] rest[k]);
                assert(!has_value(list, fields[n]));
                assert(fields[n] == rest[n]);
                assert forall|k: int| 0 <= k < n implies has_value(list, #[trigger] fields[k]) by {
                    assert(has_value(list, rest[k]));
                }
            },
        }
    }
}

/// The partition type of a spec is there exactly when every field of the spec is of a column whose
/// values its transform takes. It has one field for each field of the spec, in their order. Else the
/// error is about the first field without a value.
pub proof fn partition_types_follow_the_fields(spec: PartitionSpec, schema: Schema, r: Result<StructType, Error>)
    requires
        call_ensures(PartitionSpec::partition_type, (&spec, &schema), r),
    ensures
        ({
            let list = schema_columns(schema.fields.fields@);
            &&& r is Ok <==> forall|n: int|
                0 <= n < spec.fields@.len() ==> has_value(list, #[trigger] spec.fields@[n])
            &&& r matches Ok(t) ==> {
                &&& t.fields@.len() == spec.fields@.len()
                &&& forall|n: int|
                    0 <= n < spec.fields@.len() ==> value_field(list, #[trigger] spec.fields@[n], t.fields@[n])
            }
            &&& r matches Err(e) ==> exists|n: int|
                0 <= n < spec.fields@.len() && has_no_value(list, #[trigger] spec.fields@[n], e) && forall|k: int|
                    0 <= k < n ==> has_value(list, #[trigger] spec.fields@[k])
        }),
{
    let list: Seq<ColumnView> = schema_columns(schema.fields.fields@);
    values_typed(list, spec.fields@);
    if let Err(e) = r {
        let v: ErrorView = e@;
        let n: int = choose|n: int|
            0 <= n < spec.fields@.len() && !has_value(list, #[trigger] spec.fields@[n]) && (forall|f: Error|
                f@ == v ==> #[trigger] has_no_value(list, spec.fields@[n], f)) && forall|k: int|
                0 <= k < n ==> has_value(list, #[trigger] spec.fields@[k]);
        assert(has_no_value(list, spec.fields@[n], e));
    }
}

/// A spec of buckets has a partition type for every schema in which each of its fields is of a
/// column of a type that can be hashed, named one by one; and that type has an optional int field
/// for each of them.
pub proof fn buckets_are_optional_ints(spec: PartitionSpec, schema: Schema, r: Result<StructType, Error>)
    requires
        call_ensures(PartitionSpec::partition_type, (&spec, &schema), r),
        forall|n: int|
            0 <= n < spec.fields@.len() ==> (#[trigger] spec.fields@[n]).transform is Bucket && exists|c: ColumnView|
             #[trigger]
                first_with_id(schema_columns(schema.fields.fields@), spec.fields@[n].source_id, c) && (match *c.field.field_type {
                    Type::Primitive(PrimitiveType::Int) => true,
                    Type::Primitive(PrimitiveType::Long) => true,
                    Type::Primitive(PrimitiveType::Decimal { .. }) => true,
                    Type::Primitive(PrimitiveType::Date) => true,
                    Type::Primitive(PrimitiveType::Time) => true,
                    Type::Primitive(PrimitiveType::Timestamp) => true,
                    Type::Primitive(PrimitiveType::Timestamptz) => true,
                    Type::Primitive(PrimitiveType::TimestampNs) => true,
                    Type::Primitive(PrimitiveType::TimestamptzNs) => true,
                    Type::Primitive(PrimitiveType::String) => true,
                    Type::Primitive(PrimitiveType::Uuid) => true,
                    Type::Primitive(PrimitiveType::Fixed(_)) => true,
                    Type::Primitive(PrimitiveType::Binary) => true,
                    _ => false,
                }),
    ensures
        r matches Ok(t) && t.fields@.len() == spec.fields@.len() && forall|n: int|
            0 <= n < spec.fields@.len() ==> {
                let made = #[trigger] t.fields@[n];
                &&& made.id == spec.fields@[n].field_id
                &&& made.name@ == spec.fields@[n].name@
                &&& !made.required
                &&& *made.field_type == Type::Primitive(PrimitiveType::Int)
            },
{
    let list: Seq<ColumnView> = schema_columns(schema.fields.fields@);
    partition_types_follow_the_fields(spec, schema, r);
    assert forall|n: int| 0 <= n < spec.fields@.len() implies has_value(list, #[trigger] spec.fields@[n]) by {}
    let t: StructType = r->Ok_0;
    assert forall|n: int| 0 <= n < spec.fields@.len() implies {
        let made = #[trigger] t.fields@[n];
        &&& made.id == spec.fields@[n].field_id
        &&& made.name@ == spec.fields@[n].name@
        &&& !made.required
        &&& *made.field_type == Type::Primitive(PrimitiveType::Int)
    } by {
        assert(value_field(list, spec.fields@[n], t.fields@[n]));
    }
}

/// Fields and identifier fields make up a schema: each identifier field can tell rows apart, and no
/// two columns have the same name.
pub open spec fn well_made(fields: Seq<NestedFieldRef>, ids: Seq<i32>) -> bool {
    let list = schema_columns(fields);
    &&& forall|n: int| 0 <= n < ids.len() ==> identifies(list, #[trigger] ids[n])
    &&& forall|j: int, k: int| 0 <= j < k < list.len() ==> (#[trigger] list[j]).name != (#[trigger] list[k]).name
}

/// What is said of fields and identifier fields that make up no schema: it is about the first
/// identifier field that cannot tell rows apart, or else about a name that two columns have.
pub open spec fn ill_made(fields: Seq<NestedFieldRef>, ids: Seq<i32>, e: Error) -> bool {
    let list = schema_columns(fields);
    ||| exists|n: int|
        0 <= n < ids.len() && cannot_identify(list, #[trigger] ids[n], e) && forall|k: int|
            0 <= k < n ==> identifies(list, #[trigger] ids[k])
    ||| (forall|n: int| 0 <= n < ids.len() ==> identifies(list, #[trigger] ids[n])) && exists|j: int, k: int|
        0 <= j < k < list.len() && (#[trigger] list[j]).name == (#[trigger] list[k]).name && says(
            e,
            "Invalid schema: multiple fields for name "@ + list[k].name,
        )
}

pub(crate) proof fn making(schema_id: i32, fields: Seq<NestedFieldRef>, ids: Seq<i32>)
    ensures
        schema_of(schema_id, fields, ids) is Ok <==> well_made(fields, ids),
        forall|e: Error| schema_of(schema_id, fields, ids) == Err::<SchemaView, ErrorView>(e@) ==> #[trigger] ill_made(
            fields,
            ids,
            e,
        ),
{
    let list: Seq<ColumnView> = schema_columns(fields);
    all_identifying(list, ids);
    names_differing(list);
    assert forall|e: Error| schema_of(schema_id, fields, ids) == Err::<SchemaView, ErrorView>(e@) implies #[trigger] ill_made(
        fields,
        ids,
        e,
    ) by {
        if identifiers_fault(list, ids) is Some {
            assert(says(e, identifiers_fault(list, ids).unwrap()));
        } else {
            assert(says(e, names_fault(list).unwrap()));
        }
    }
}

/// Partition fields make up a spec for a schema with these columns.
pub open spec fn all_fit(list: Seq<ColumnView>, fields: Seq<PartitionField>) -> bool {
    forall|n: int| 0 <= n < fields.len() ==> fits(list, fields.take(n), #[trigger] fields[n])
}

/// What is said of partition fields that make up no spec: it is about the first that does not fit.
pub open spec fn first_misfit(list: Seq<ColumnView>, fields: Seq<PartitionField>, e: Error) -> bool {
    exists|n: int|
        0 <= n < fields.len() && cannot_fit(list, fields.take(n), #[trigger] fields[n], e) && forall|k: int|
            0 <= k < n ==> fits(list, fields.take(k), #[trigger] fields[k])
}

pub(crate) proof fn binding(spec_id: i32, fields: Seq<PartitionField>, schema_fields: Seq<NestedFieldRef>)
    ensures
        spec_of(spec_id, fields, schema_fields) is Ok <==> all_fit(schema_columns(schema_fields), fields),
        forall|e: Error|
            spec_of(spec_id, fields, schema_fields) == Err::<PartitionSpecView, ErrorView>(e@) ==> #[trigger] first_misfit(
                schema_columns(schema_fields),
                fields,
                e,
            ),
{
    let list: Seq<ColumnView> = schema_columns(schema_fields);
    all_fitting(list, fields);
    assert forall|e: Error|
        spec_of(spec_id, fields, schema_fields) == Err::<PartitionSpecView, ErrorView>(
            e@,
        ) implies #[trigger] first_misfit(list, fields, e) by {
        assert(says(e, partition_fields_fault(list, fields).unwrap()));
    }
}

} // verus!
