//! Sort orders: how writers sort the rows of a table.

use crate::transform::Transform;
use std::sync::Arc;
use vstd::prelude::*;

verus! {

/// Which way rows are sorted.
#[derive(Debug, Clone, Copy, PartialEq, Eq, Structural)]
pub enum SortDirection {
    Ascending,
    Descending,
}

/// Where rows without a value go.
#[derive(Debug, Clone, Copy, PartialEq, Eq, Structural)]
pub enum NullOrder {
    First,
    Last,
}

/// One key by which rows are sorted.
#[derive(Debug, Clone, Copy, PartialEq, Eq, Structural)]
pub struct SortField {
    /// Id of the column that the key comes from.
    pub source_id: i32,
    /// How the key comes from the column.
    pub transform: Transform,
    pub direction: SortDirection,
    pub null_order: NullOrder,
}

/// The keys by which rows are sorted, the most important one first.
#[derive(Debug, PartialEq, Eq)]
pub struct SortOrder {
    pub order_id: i64,
    pub fields: Vec<SortField>,
}

/// A sort order that several owners hold.
pub type SortOrderRef = Arc<SortOrder>;

/// What a [`SortOrder`] is.
pub ghost struct SortOrderView {
    pub order_id: i64,
    pub fields: Seq<SortField>,
}

impl View for SortOrder {
    type V = SortOrderView;

    open spec fn view(&self) -> SortOrderView {
        SortOrderView { order_id: self.order_id, fields: self.fields@ }
    }
}

impl Clone for SortOrder {
    fn clone(&self) -> (r: Self)
        ensures
            r@ == self@,
    {
        let fields: Vec<SortField> = self.fields.clone();
        proof {
            assert(fields@ =~= self.fields@);
        }
        SortOrder { order_id: self.order_id, fields }
    }
}

/// The sort order of rows that are not sorted.
pub open spec fn unsorted() -> SortOrderView {
    SortOrderView { order_id: SortOrder::UNSORTED_ORDER_ID, fields: Seq::empty() }
}

impl SortOrder {
    /// The id of the sort order of rows that are not sorted.
    pub const UNSORTED_ORDER_ID: i64 = 0;

    /// The sort order of rows that are not sorted.
    pub fn unsorted_order() -> (r: SortOrder)
        ensures
            r@ == unsorted(),
    {
        SortOrder { order_id: SortOrder::UNSORTED_ORDER_ID, fields: Vec::new() }
    }
}

impl Default for SortOrder {
    fn default() -> (r: Self)
        ensures
            r@ == unsorted(),
    {
        SortOrder::unsorted_order()
    }
}

} // verus!
