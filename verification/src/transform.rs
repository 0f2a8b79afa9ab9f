//! Transforms: how partition values and sort keys come from column values.

use crate::datatypes::{PrimitiveType, Type};
use crate::shared::share;
use std::sync::Arc;
use vstd::prelude::*;

verus! {

/// How a value comes from the value of a column.
#[derive(Debug, Clone, Copy, PartialEq, Eq, Structural)]
pub enum Transform {
    /// The value itself.
    Identity,
    /// The hash of the value, modulo a number.
    Bucket(u32),
    /// The value cut to a width.
    Truncate(u32),
    /// Years from 1970.
    Year,
    /// Months from January 1970.
    Month,
    /// Days from the first of January 1970.
    Day,
    /// Hours from the first hour of 1970.
    Hour,
    /// Always null.
    Void,
    /// A transform that is not known here.
    Unknown,
}

/// A moment or a day.
pub open spec fn is_dated(p: PrimitiveType) -> bool {
    p == PrimitiveType::Date || is_timed(p)
}

/// A moment.
pub open spec fn is_timed(p: PrimitiveType) -> bool {
    ||| p == PrimitiveType::Timestamp
    ||| p == PrimitiveType::Timestamptz
    ||| p == PrimitiveType::TimestampNs
    ||| p == PrimitiveType::TimestamptzNs
}

/// A type whose values can be hashed into buckets.
pub open spec fn is_hashable(p: PrimitiveType) -> bool {
    ||| is_dated(p)
    ||| p is Decimal
    ||| p is Fixed
    ||| p == PrimitiveType::Int
    ||| p == PrimitiveType::Long
    ||| p == PrimitiveType::Time
    ||| p == PrimitiveType::String
    ||| p == PrimitiveType::Uuid
    ||| p == PrimitiveType::Binary
}

/// A type whose values can be cut to a width.
pub open spec fn is_cuttable(p: PrimitiveType) -> bool {
    ||| p is Decimal
    ||| p == PrimitiveType::Int
    ||| p == PrimitiveType::Long
    ||| p == PrimitiveType::String
    ||| p == PrimitiveType::Binary
}

/// The type of what a transform makes of values of type `input`, if it takes such values.
pub open spec fn transformed(transform: Transform, input: Arc<Type>) -> Option<Arc<Type>> {
    match transform {
        Transform::Void => Some(input),
        Transform::Unknown => Some(Arc::new(Type::Primitive(PrimitiveType::String))),
        _ => match *input {
            Type::Primitive(p) => match transform {
                Transform::Identity => Some(input),
                Transform::Bucket(_) => if is_hashable(p) {
                    Some(Arc::new(Type::Primitive(PrimitiveType::Int)))
                } else {
                    None
                },
                Transform::Truncate(_) => if is_cuttable(p) {
                    Some(input)
                } else {
                    None
                },
                Transform::Day => if is_dated(p) {
                    Some(Arc::new(Type::Primitive(PrimitiveType::Date)))
                } else {
                    None
                },
                Transform::Hour => if is_timed(p) {
                    Some(Arc::new(Type::Primitive(PrimitiveType::Int)))
                } else {
                    None
                },
                _ => if is_dated(p) {
                    Some(Arc::new(Type::Primitive(PrimitiveType::Int)))
                } else {
                    None
                },
            },
            _ => None,
        },
    }
}

/// Transforms of which one column has at most one in a partition spec: the same one twice, or two
/// that cut time into pieces.
pub open spec fn redundant(a: Transform, b: Transform) -> bool {
    a == b || (cuts_time(a) && cuts_time(b))
}

/// A transform that cuts time into pieces.
pub open spec fn cuts_time(t: Transform) -> bool {
    t == Transform::Year || t == Transform::Month || t == Transform::Day || t == Transform::Hour
}

fn primitive(p: PrimitiveType) -> (r: Arc<Type>)
    ensures
        r == Arc::new(Type::Primitive(p)),
{
    Arc::new(Type::Primitive(p))
}

fn timed(p: PrimitiveType) -> (r: bool)
    ensures
        r == is_timed(p),
{
    p == PrimitiveType::Timestamp || p == PrimitiveType::Timestamptz || p == PrimitiveType::TimestampNs || p
        == PrimitiveType::TimestamptzNs
}

fn dated(p: PrimitiveType) -> (r: bool)
    ensures
        r == is_dated(p),
{
    p == PrimitiveType::Date || timed(p)
}

fn cuttable(p: PrimitiveType) -> (r: bool)
    ensures
        r == is_cuttable(p),
{
    match p {
        PrimitiveType::Decimal { .. } => true,
        PrimitiveType::Int => true,
        PrimitiveType::Long => true,
        PrimitiveType::String => true,
        PrimitiveType::Binary => true,
        _ => false,
    }
}

fn hashable(p: PrimitiveType) -> (r: bool)
    ensures
        r == is_hashable(p),
{
    match p {
        PrimitiveType::Fixed(_) => true,
        PrimitiveType::Time => true,
        PrimitiveType::Uuid => true,
        _ => dated(p) || cuttable(p),
    }
}

impl Transform {
    /// The type of what the transform makes of values of type `input`, if it takes such values.
    pub fn result_type(self, input: &Arc<Type>) -> (r: Option<Arc<Type>>)
        ensures
            r == transformed(self, *input),
    {
        match self {
            Transform::Void => Some(share(input)),
            Transform::Unknown => Some(primitive(PrimitiveType::String)),
            _ => match &**input {
                Type::Primitive(p) => match self {
                    Transform::Identity => Some(share(input)),
                    Transform::Bucket(_) => if hashable(*p) {
                        Some(primitive(PrimitiveType::Int))
                    } else {
                        None
                    },
                    Transform::Truncate(_) => if cuttable(*p) {
                        Some(share(input))
                    } else {
                        None
                    },
                    Transform::Day => if dated(*p) {
                        Some(primitive(PrimitiveType::Date))
                    } else {
                        None
                    },
                    Transform::Hour => if timed(*p) {
                        Some(primitive(PrimitiveType::Int))
                    } else {
                        None
                    },
                    _ => if dated(*p) {
                        Some(primitive(PrimitiveType::Int))
                    } else {
                        None
                    },
                },
                _ => None,
            },
        }
    }

    fn cuts_time(self) -> (r: bool)
        ensures
            r == cuts_time(self),
    {
        self == Transform::Year || self == Transform::Month || self == Transform::Day || self == Transform::Hour
    }

    /// Tells whether one column cannot have both transforms in a partition spec.
    pub fn is_redundant_to(self, other: Transform) -> (r: bool)
        ensures
            r == redundant(self, other),
    {
        self == other || (self.cuts_time() && other.cuts_time())
    }
}

} // verus!
