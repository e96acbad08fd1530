//! What the request handlers decide, apart from what they read and send.

pub mod auth;
pub mod edit_order;
pub mod new_order;
pub mod order_operations;
pub mod password_reset;
pub mod prof_homepage;
pub mod user_settings;
