//! Requests that change whole orders.

use vstd::prelude::*;

verus! {

/// An order as the list of orders shows it.
#[derive(Clone, Debug)]
pub struct Order {
    pub id: i32,
    pub description: String,
    pub author_id: i32,
}

/// What becomes of the quantity of a part that both orders of a merge
/// list.
#[derive(Clone, Copy, Debug, PartialEq, Eq, Structural)]
pub enum MergeOrderOption {
    KeepSrcQuantity,
    KeepTargetQuantity,
    KeepHighestQuantity,
    KeepLowestQuantity,
    AddQuantities,
}

/// The request to merge the order `source_id` into the order `target_id`.
#[derive(Clone, Copy, Debug, PartialEq, Eq, Structural)]
pub struct MergeOrderRequest {
    pub source_id: i32,
    pub target_id: i32,
}

} // verus!
