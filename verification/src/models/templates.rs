//! What the pages show.

use crate::data::order::Order;
use crate::models::item::OrderItem;
use vstd::prelude::*;

verus! {

/// What the page for a new order offers to choose from.
#[derive(Clone, Debug)]
pub struct NewOrderTemplate {
    pub areas: Vec<String>,
    pub sub_areas: Vec<String>,
    pub proposals: Vec<String>,
    pub projects: Vec<String>,
}

/// What the page that edits an order shows: the order, its lines, and what
/// there is to choose from.
#[derive(Clone, Debug)]
pub struct EditOrderTemplate {
    pub order: Order,
    pub items: Vec<OrderItem>,
    pub areas: Vec<String>,
    pub sub_areas: Vec<String>,
    pub proposals: Vec<String>,
    pub projects: Vec<String>,
}

} // verus!
