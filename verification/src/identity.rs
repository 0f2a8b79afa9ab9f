//! The ids of tables.

use uuid::Uuid;
use vstd::prelude::*;

verus! {

/// The id of a table, as the crate `uuid` has it.
#[verifier::external_type_specification]
#[verifier::external_body]
pub struct ExUuid(Uuid);

/// What `Uuid::from_u128` returns: the id whose sixteen bytes are those of the number, the most
/// significant one first.
pub uninterp spec fn uuid_from_u128(value: u128) -> Uuid;

/// The id with this number.
///
/// Calls `Uuid::from_u128`, which keeps the bytes of the number as the bytes of the id: the same
/// number gives the same id, and different numbers give different ids.
#[verifier::external_body]
pub(crate) fn uuid_from_number(value: u128) -> (r: Uuid)
    ensures
        r == uuid_from_u128(value),
        forall|other: u128| #[trigger] uuid_from_u128(other) == r ==> other == value,
{
    Uuid::from_u128(value)
}

/// The id of a table that has none: the nil id, whose bytes are all zero.
pub(crate) fn default_uuid() -> (r: Uuid)
    ensures
        r == uuid_from_u128(0),
        forall|other: u128| #[trigger] uuid_from_u128(other) == r ==> other == 0,
{
    uuid_from_number(0)
}

} // verus!
