//! The line items of an order.

use vstd::prelude::*;

verus! {

/// One line of an order: a manufacturer's part, how many pieces of it, and
/// what it is bought for. The vendor part numbers are set once the line
/// has been sourced.
#[derive(Clone, Debug)]
pub struct OrderItem {
    pub order_id: i32,
    pub manufacturer: String,
    pub manufacturer_pn: String,
    pub quantity: i32,
    pub proposal: String,
    pub project: String,
    pub mouser_pn: Option<String>,
    pub digikey_pn: Option<String>,
}

} // verus!
