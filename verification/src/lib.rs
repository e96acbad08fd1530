//! Sourcing of electronic components for the orders of a team: what two
//! vendors offer for each line of an order, which of them the line is
//! bought from, and the workbooks that list each vendor's share.
//!
//! The library decides and computes; it neither sends requests nor keeps
//! data. A caller reaches the vendors and the order store, hands what came
//! back to the functions here, and acts on what they return. Prices are
//! whole millionths of the currency unit, so that every comparison and
//! every written amount is exact.
//!
//! - [`price`] and [`text`]: amounts and numerals, read and written.
//! - [`models`]: the data of requests, answers, orders and forms.
//! - [`data`]: the offers of each vendor, the choice between them, and the
//!   workbooks.
//! - [`handlers`]: what the pages of the application decide.

pub mod data;
pub mod handlers;
pub mod models;
pub mod price;
pub mod text;
