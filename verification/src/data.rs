//! The sourcing engine: vendor answers, the choice between them, and the
//! bill-of-materials workbooks that record it.

pub mod digikey_apis;
pub mod errors;
pub mod excel;
pub mod mouser_apis;
pub mod order;
pub mod user;
