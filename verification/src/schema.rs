//! Schemas of a table, and the forms that they have in metadata files.

use crate::datatypes::{
    column_views, columns, push_columns, Column, ColumnView, NestedFieldRef, PrimitiveType, StructType, Type,
};
use crate::error::{data_invalid, Error, ErrorView};
use crate::text::{around_name, around_number, decimal};
use std::collections::HashSet;
use std::sync::Arc;
use vstd::prelude::*;
use vstd::std_specs::iter::IteratorSpec;
use vstd::string::StringExecFns;

verus! {

broadcast use vstd::std_specs::hash::group_hash_axioms;

/// The id of a schema.
pub type SchemaId = i32;

/// The id of a schema that a file gives without one.
pub const DEFAULT_SCHEMA_ID: i32 = 0;

/// The columns of a table at some time.
#[derive(Debug, PartialEq, Eq)]
pub struct Schema {
    pub schema_id: SchemaId,
    pub fields: StructType,
    /// Ids of the fields that tell rows apart.
    pub identifier_field_ids: HashSet<i32>,
}

/// A schema that several owners hold.
pub type SchemaRef = Arc<Schema>;

/// What a [`Schema`] is.
pub ghost struct SchemaView {
    pub schema_id: SchemaId,
    pub fields: Seq<NestedFieldRef>,
    pub identifier_field_ids: Set<i32>,
}

impl View for Schema {
    type V = SchemaView;

    open spec fn view(&self) -> SchemaView {
        SchemaView {
            schema_id: self.schema_id,
            fields: self.fields@,
            identifier_field_ids: self.identifier_field_ids@,
        }
    }
}

/// All fields of a schema with these fields, at any depth.
pub open spec fn schema_columns(fields: Seq<NestedFieldRef>) -> Seq<ColumnView> {
    columns(fields, Seq::empty(), true)
}

/// The first column with this id.
pub open spec fn column_with_id(list: Seq<ColumnView>, id: i32) -> Option<ColumnView>
    decreases list.len(),
{
    if list.len() == 0 {
        None
    } else {
        match column_with_id(list.drop_last(), id) {
            Some(c) => Some(c),
            None => if list.last().field.id == id {
                Some(list.last())
            } else {
                None
            },
        }
    }
}

/// The first column with this name.
pub open spec fn column_with_name(list: Seq<ColumnView>, name: Seq<char>) -> Option<ColumnView>
    decreases list.len(),
{
    if list.len() == 0 {
        None
    } else {
        match column_with_name(list.drop_last(), name) {
            Some(c) => Some(c),
            None => if list.last().name == name {
                Some(list.last())
            } else {
                None
            },
        }
    }
}

/// Why the field with this id cannot tell rows apart, if it cannot.
pub open spec fn identifier_fault(list: Seq<ColumnView>, id: i32) -> Option<Seq<char>> {
    match column_with_id(list, id) {
        None => Some("Cannot add identifier field "@ + decimal(id as int) + ": field does not exist"@),
        Some(c) => if !c.field.required {
            Some("Cannot add identifier field: "@ + c.field.name@ + " is an optional field"@)
        } else {
            match *c.field.field_type {
                Type::Primitive(p) => if p == PrimitiveType::Float || p == PrimitiveType::Double {
                    Some(
                        "Cannot add identifier field "@ + c.field.name@
                            + ": cannot be a float or double type"@,
                    )
                } else if !c.certain {
                    Some(
                        "Cannot add field "@ + c.field.name@
                            + " as an identifier field: must be nested in required structs only"@,
                    )
                } else {
                    None
                },
                _ => Some(
                    "Cannot add field "@ + c.field.name@
                        + " as an identifier field: not a primitive type field"@,
                ),
            }
        },
    }
}

/// Why one of the fields with these ids cannot tell rows apart: the first reason there is.
pub open spec fn identifiers_fault(list: Seq<ColumnView>, ids: Seq<i32>) -> Option<Seq<char>>
    decreases ids.len(),
{
    if ids.len() == 0 {
        None
    } else {
        match identifiers_fault(list, ids.drop_last()) {
            Some(m) => Some(m),
            None => identifier_fault(list, ids.last()),
        }
    }
}

/// That a name occurs twice among the columns, for the first column that repeats one.
pub open spec fn names_fault(list: Seq<ColumnView>) -> Option<Seq<char>>
    decreases list.len(),
{
    if list.len() == 0 {
        None
    } else {
        match names_fault(list.drop_last()) {
            Some(m) => Some(m),
            None => if column_with_name(list.drop_last(), list.last().name) is Some {
                Some("Invalid schema: multiple fields for name "@ + list.last().name)
            } else {
                None
            },
        }
    }
}

/// Why fields and identifier fields make up no schema, if they do not.
pub open spec fn schema_fault(fields: Seq<NestedFieldRef>, ids: Seq<i32>) -> Option<Seq<char>> {
    match identifiers_fault(schema_columns(fields), ids) {
        Some(m) => Some(m),
        None => names_fault(schema_columns(fields)),
    }
}

/// The schema with this id, these fields and these identifier fields, or why there is none.
pub open spec fn schema_of(schema_id: SchemaId, fields: Seq<NestedFieldRef>, ids: Seq<i32>) -> Result<
    SchemaView,
    ErrorView,
> {
    match schema_fault(fields, ids) {
        Some(m) => Err(data_invalid(m)),
        None => Ok(SchemaView { schema_id, fields, identifier_field_ids: ids.to_set() }),
    }
}

/// A schema that keeps the rules for schemas.
pub open spec fn schema_valid(s: SchemaView) -> bool {
    &&& forall|id: i32| #[trigger]
        s.identifier_field_ids.contains(id) ==> identifier_fault(schema_columns(s.fields), id) is None
    &&& names_fault(schema_columns(s.fields)) is None
}

/// Identifier fields are at fault exactly when one of them is.
pub proof fn identifiers_fault_means(list: Seq<ColumnView>, ids: Seq<i32>)
    ensures
        identifiers_fault(list, ids) is None <==> forall|id: i32| #[trigger]
            ids.to_set().contains(id) ==> identifier_fault(list, id) is None,
    decreases ids.len(),
{
    if ids.len() > 0 {
        identifiers_fault_means(list, ids.drop_last());
        members_of_list(ids);
        if identifiers_fault(list, ids) is None {
            assert forall|id: i32| #[trigger] ids.to_set().contains(id) implies identifier_fault(list, id)
                is None by {
                assert(ids.drop_last().to_set().contains(id) || id == ids.last());
            }
        } else if identifiers_fault(list, ids.drop_last()) is Some {
            let id: i32 = choose|id: i32| #[trigger]
                ids.drop_last().to_set().contains(id) && identifier_fault(list, id) is Some;
            assert(ids.to_set().contains(id));
        } else {
            assert(ids.to_set().contains(ids.last()));
        }
    }
}

/// The members of a list are those of the list without its last entry, and that entry.
proof fn members_of_list(ids: Seq<i32>)
    requires
        ids.len() > 0,
    ensures
        ids.to_set() == ids.drop_last().to_set().insert(ids.last()),
{
    assert forall|id: i32| #[trigger] ids.to_set().contains(id) <==> ids.drop_last().to_set().insert(
        ids.last(),
    ).contains(id) by {
        if ids.contains(id) && id != ids.last() {
            let i: int = choose|i: int| 0 <= i < ids.len() && ids[i] == id;
            assert(ids.drop_last()[i] == id);
        }
        if ids.drop_last().contains(id) {
            let i: int = choose|i: int| 0 <= i < ids.drop_last().len() && ids.drop_last()[i] == id;
            assert(ids[i] == id);
        }
        assert(ids[ids.len() - 1] == ids.last());
    }
    assert(ids.to_set() =~= ids.drop_last().to_set().insert(ids.last()));
}

/// Every schema that can be made keeps the rules, and every schema that keeps the rules can be
/// made from its parts, in whatever order its identifier fields are listed.
pub proof fn schemas_made_are_valid(schema_id: SchemaId, fields: Seq<NestedFieldRef>, ids: Seq<i32>)
    ensures
        schema_of(schema_id, fields, ids) matches Ok(s) ==> schema_valid(s),
        ({
            let s = SchemaView { schema_id, fields, identifier_field_ids: ids.to_set() };
            schema_valid(s) ==> schema_of(schema_id, fields, ids) == Ok::<SchemaView, ErrorView>(s)
        }),
{
    identifiers_fault_means(schema_columns(fields), ids);
    let s = SchemaView { schema_id, fields, identifier_field_ids: ids.to_set() };
    if schema_valid(s) {
        assert forall|id: i32| #[trigger] ids.to_set().contains(id) implies identifier_fault(
            schema_columns(fields),
            id,
        ) is None by {
            assert(s.identifier_field_ids.contains(id));
        }
    }
}

pub(crate) fn find_id(list: &Vec<Column>, id: i32) -> (r: Option<usize>)
    ensures
        match r {
            Some(i) => i < list@.len() && column_with_id(column_views(list@), id) == Some(list@[i as int]@),
            None => column_with_id(column_views(list@), id) is None,
        },
{
    let ghost views: Seq<ColumnView> = column_views(list@);
    let mut i: usize = 0;
    let mut found: Option<usize> = None;
    while i < list.len()
        invariant
            views == column_views(list@),
            i <= list@.len(),
            match found {
                Some(k) => k < list@.len() && column_with_id(views.take(i as int), id) == Some(list@[k as int]@),
                None => column_with_id(views.take(i as int), id) is None,
            },
        decreases list@.len() - i,
    {
        proof {
            assert(views.take(i + 1).drop_last() =~= views.take(i as int));
            assert(views.take(i + 1).last() == list@[i as int]@);
        }
        if found.is_none() && list[i].field.id == id {
            found = Some(i);
        }
        i = i + 1;
    }
    proof {
        assert(views.take(i as int) =~= views);
    }
    found
}

pub(crate) fn find_name(list: &Vec<Column>, name: &String, upto: usize) -> (r: Option<usize>)
    requires
        upto <= list@.len(),
    ensures
        match r {
            Some(i) => i < list@.len() && column_with_name(column_views(list@).take(upto as int), name@) == Some(
                list@[i as int]@,
            ),
            None => column_with_name(column_views(list@).take(upto as int), name@) is None,
        },
{
    let ghost views: Seq<ColumnView> = column_views(list@);
    let mut i: usize = 0;
    let mut found: Option<usize> = None;
    while i < upto
        invariant
            views == column_views(list@),
            i <= upto <= list@.len(),
            match found {
                Some(k) => k < list@.len() && column_with_name(views.take(i as int), name@) == Some(
                    list@[k as int]@,
                ),
                None => column_with_name(views.take(i as int), name@) is None,
            },
        decreases upto - i,
    {
        proof {
            assert(views.take(i + 1).drop_last() =~= views.take(i as int));
            assert(views.take(i + 1).last() == list@[i as int]@);
        }
        if found.is_none() && list[i].name == *name {
            found = Some(i);
        }
        i = i + 1;
    }
    found
}

fn check_identifier(list: &Vec<Column>, id: i32) -> (r: Result<(), Error>)
    ensures
        match r {
            Ok(_) => identifier_fault(column_views(list@), id) is None,
            Err(e) => identifier_fault(column_views(list@), id) is Some && e@ == data_invalid(
                identifier_fault(column_views(list@), id).unwrap(),
            ),
        },
{
    match find_id(list, id) {
        None => Err(
            Error::data_invalid(
                around_number("Cannot add identifier field ", id as i64, ": field does not exist"),
            ),
        ),
        Some(i) => {
            let field: &NestedFieldRef = &list[i].field;
            if !field.required {
                return Err(
                    Error::data_invalid(
                        around_name("Cannot add identifier field: ", &field.name, " is an optional field"),
                    ),
                );
            }
            match &*field.field_type {
                Type::Primitive(p) => {
                    if *p == PrimitiveType::Float || *p == PrimitiveType::Double {
                        Err(
                            Error::data_invalid(
                                around_name(
                                    "Cannot add identifier field ",
                                    &field.name,
                                    ": cannot be a float or double type",
                                ),
                            ),
                        )
                    } else if !list[i].certain {
                        Err(
                            Error::data_invalid(
                                around_name(
                                    "Cannot add field ",
                                    &field.name,
                                    " as an identifier field: must be nested in required structs only",
                                ),
                            ),
                        )
                    } else {
                        Ok(())
                    }
                },
                _ => Err(
                    Error::data_invalid(
                        around_name(
                            "Cannot add field ",
                            &field.name,
                            " as an identifier field: not a primitive type field",
                        ),
                    ),
                ),
            }
        },
    }
}

fn check_names(list: &Vec<Column>) -> (r: Result<(), Error>)
    ensures
        match r {
            Ok(_) => names_fault(column_views(list@)) is None,
            Err(e) => names_fault(column_views(list@)) is Some && e@ == data_invalid(
                names_fault(column_views(list@)).unwrap(),
            ),
        },
{
    let ghost views: Seq<ColumnView> = column_views(list@);
    let mut i: usize = 0;
    let mut fault: Option<usize> = None;
    while i < list.len()
        invariant
            views == column_views(list@),
            i <= list@.len(),
            match fault {
                Some(k) => k < list@.len() && names_fault(views.take(i as int)) == Some(
                    "Invalid schema: multiple fields for name "@ + list@[k as int].name@,
                ),
                None => names_fault(views.take(i as int)) is None,
            },
        decreases list@.len() - i,
    {
        proof {
            assert(views.take(i + 1).drop_last() =~= views.take(i as int));
            assert(views.take(i + 1).last() == list@[i as int]@);
        }
        if fault.is_none() && find_name(list, &list[i].name, i).is_some() {
            fault = Some(i);
        }
        i = i + 1;
    }
    proof {
        assert(views.take(i as int) =~= views);
    }
    match fault {
        Some(k) => {
            let mut text: String = "Invalid schema: multiple fields for name ".to_owned();
            text.append(list[k].name.as_str());
            Err(Error::data_invalid(text))
        },
        None => Ok(()),
    }
}

fn list_columns(fields: &StructType) -> (r: Vec<Column>)
    ensures
        column_views(r@) == schema_columns(fields@),
{
    let mut list: Vec<Column> = Vec::new();
    push_columns(&mut list, &fields.fields, &String::new(), true);
    proof {
        assert(column_views(list@) =~= schema_columns(fields@));
    }
    list
}

impl Schema {
    /// The id of the schema.
    pub fn schema_id(&self) -> (r: SchemaId)
        ensures
            r == self@.schema_id,
    {
        self.schema_id
    }

    /// The schema as a struct.
    pub fn as_struct(&self) -> (r: &StructType)
        ensures
            r@ == self@.fields,
    {
        &self.fields
    }

    /// All fields of the schema, at any depth.
    pub fn columns(&self) -> (r: Vec<Column>)
        ensures
            column_views(r@) == schema_columns(self@.fields),
    {
        list_columns(&self.fields)
    }

    /// The schema with this id, these fields and these identifier fields.
    pub fn new(schema_id: SchemaId, fields: StructType, ids: &Vec<i32>) -> (r: Result<Schema, Error>)
        ensures
            match r {
                Ok(s) => schema_of(schema_id, fields@, ids@) == Ok::<SchemaView, ErrorView>(s@),
                Err(e) => schema_of(schema_id, fields@, ids@) == Err::<SchemaView, ErrorView>(e@),
            },
    {
        let list: Vec<Column> = list_columns(&fields);
        let mut set: HashSet<i32> = HashSet::new();
        let mut i: usize = 0;
        while i < ids.len()
            invariant
                i <= ids@.len(),
                column_views(list@) == schema_columns(fields@),
                identifiers_fault(schema_columns(fields@), ids@.take(i as int)) is None,
                set@ == ids@.take(i as int).to_set(),
            decreases ids@.len() - i,
        {
            proof {
                assert(ids@.take(i + 1).drop_last() =~= ids@.take(i as int));
                members_of_list(ids@.take(i + 1));
            }
            match check_identifier(&list, ids[i]) {
                Ok(_) => {},
                Err(e) => {
                    proof {
                        identifiers_fault_prefix(schema_columns(fields@), ids@, i + 1);
                    }
                    return Err(e);
                },
            }
            set.insert(ids[i]);
            i = i + 1;
        }
        proof {
            assert(ids@.take(i as int) =~= ids@);
        }
        check_names(&list)?;
        Ok(Schema { schema_id, fields, identifier_field_ids: set })
    }
}

/// A schema as version 1 metadata files give it.
#[derive(Debug, PartialEq, Eq)]
pub struct SchemaV1 {
    pub schema_id: Option<SchemaId>,
    pub identifier_field_ids: Option<Vec<i32>>,
    pub fields: StructType,
}

/// A schema as version 2 metadata files give it.
#[derive(Debug, PartialEq, Eq)]
pub struct SchemaV2 {
    pub schema_id: SchemaId,
    pub identifier_field_ids: Option<Vec<i32>>,
    pub fields: StructType,
}

/// The ids in a list that may be missing.
pub open spec fn listed_ids(ids: Option<Vec<i32>>) -> Seq<i32> {
    match ids {
        Some(v) => v@,
        None => Seq::empty(),
    }
}

impl SchemaV1 {
    /// The id of the schema, which is the default one where the file gives none.
    pub open spec fn id(self) -> SchemaId {
        match self.schema_id {
            Some(id) => id,
            None => DEFAULT_SCHEMA_ID,
        }
    }

    /// The schema that the file gives, or why it gives none.
    pub open spec fn schema(self) -> Result<SchemaView, ErrorView> {
        schema_of(self.id(), self.fields@, listed_ids(self.identifier_field_ids))
    }

    /// The file gives this schema.
    pub open spec fn gives(self, s: SchemaView) -> bool {
        &&& self.schema_id == Some(s.schema_id)
        &&& self.fields@ == s.fields
        &&& listed_ids(self.identifier_field_ids).to_set() == s.identifier_field_ids
        &&& self.identifier_field_ids matches Some(ids) ==> ids@.len() > 0 && ids@.no_duplicates()
    }
}

impl SchemaV2 {
    /// The schema that the file gives, or why it gives none.
    pub open spec fn schema(self) -> Result<SchemaView, ErrorView> {
        schema_of(self.schema_id, self.fields@, listed_ids(self.identifier_field_ids))
    }

    /// The file gives this schema.
    pub open spec fn gives(self, s: SchemaView) -> bool {
        &&& self.schema_id == s.schema_id
        &&& self.fields@ == s.fields
        &&& listed_ids(self.identifier_field_ids).to_set() == s.identifier_field_ids
        &&& self.identifier_field_ids matches Some(ids) ==> ids@.len() > 0 && ids@.no_duplicates()
    }
}

/// A valid schema is read back from the form that gives it.
pub proof fn schema_read_back(v1: SchemaV1, v2: SchemaV2, s: SchemaView)
    requires
        schema_valid(s),
    ensures
        v1.gives(s) ==> v1.schema() == Ok::<SchemaView, ErrorView>(s),
        v2.gives(s) ==> v2.schema() == Ok::<SchemaView, ErrorView>(s),
{
    schemas_made_are_valid(s.schema_id, s.fields, listed_ids(v1.identifier_field_ids));
    schemas_made_are_valid(s.schema_id, s.fields, listed_ids(v2.identifier_field_ids));
}

fn ids_or_none(ids: &Option<Vec<i32>>) -> (r: Vec<i32>)
    ensures
        r@ == listed_ids(*ids),
{
    match ids {
        Some(v) => {
            let copy: Vec<i32> = v.clone();
            proof {
                assert(copy@ =~= v@);
            }
            copy
        },
        None => Vec::new(),
    }
}

fn list_ids(ids: &HashSet<i32>) -> (r: Option<Vec<i32>>)
    ensures
        listed_ids(r).to_set() == ids@,
        r matches Some(v) ==> v@.len() > 0 && v@.no_duplicates(),
{
    let mut list: Vec<i32> = Vec::new();
    let ghost walk: Seq<i32> = ids.iter().remaining().unref();
    for id in it: ids.iter()
        invariant
            it.seq().unref() == walk,
            list@ == walk.take(it.index()),
    {
        list.push(*id);
        proof {
            assert(list@ =~= walk.take(it.index() + 1));
        }
    }
    proof {
        assert(list@ =~= walk);
        if list@.len() == 0 {
            assert(Seq::<i32>::empty() =~= list@);
        }
    }
    if list.len() == 0 {
        None
    } else {
        Some(list)
    }
}

impl Schema {
    /// Reads a schema from its form in version 1 metadata files.
    pub fn try_from_v1(value: SchemaV1) -> (r: Result<Schema, Error>)
        ensures
            match r {
                Ok(s) => value.schema() == Ok::<SchemaView, ErrorView>(s@),
                Err(e) => value.schema() == Err::<SchemaView, ErrorView>(e@),
            },
    {
        let id: SchemaId = match value.schema_id {
            Some(id) => id,
            None => DEFAULT_SCHEMA_ID,
        };
        let ids: Vec<i32> = ids_or_none(&value.identifier_field_ids);
        Schema::new(id, value.fields, &ids)
    }

    /// Reads a schema from its form in version 2 metadata files.
    pub fn try_from_v2(value: SchemaV2) -> (r: Result<Schema, Error>)
        ensures
            match r {
                Ok(s) => value.schema() == Ok::<SchemaView, ErrorView>(s@),
                Err(e) => value.schema() == Err::<SchemaView, ErrorView>(e@),
            },
    {
        let ids: Vec<i32> = ids_or_none(&value.identifier_field_ids);
        Schema::new(value.schema_id, value.fields, &ids)
    }

    /// The form of the schema in version 1 metadata files.
    pub fn to_v1(&self) -> (r: SchemaV1)
        ensures
            r.gives(self@),
    {
        SchemaV1 {
            schema_id: Some(self.schema_id),
            identifier_field_ids: list_ids(&self.identifier_field_ids),
            fields: self.fields.clone(),
        }
    }

    /// The form of the schema in version 2 metadata files.
    pub fn to_v2(&self) -> (r: SchemaV2)
        ensures
            r.gives(self@),
    {
        SchemaV2 {
            schema_id: self.schema_id,
            identifier_field_ids: list_ids(&self.identifier_field_ids),
            fields: self.fields.clone(),
        }
    }
}

/// A fault of the first ids is the fault of all of them.
proof fn identifiers_fault_prefix(list: Seq<ColumnView>, ids: Seq<i32>, n: int)
    requires
        0 <= n <= ids.len(),
        identifiers_fault(list, ids.take(n)) is Some,
    ensures
        identifiers_fault(list, ids) == identifiers_fault(list, ids.take(n)),
    decreases ids.len(),
{
    if n == ids.len() {
        assert(ids.take(n) =~= ids);
    } else {
        assert(ids.drop_last().take(n) =~= ids.take(n));
        identifiers_fault_prefix(list, ids.drop_last(), n);
    }
}

} // verus!
