//! The data that travels between the vendors, the sourcing engine and the
//! order store.

pub mod app;
pub mod digikey_api_models;
pub mod item;
pub mod mouser_api_models;
pub mod order_operations;
pub mod password_reset;
pub mod templates;
pub mod user_info;
