//! What is known of a user.

use vstd::prelude::*;

verus! {

#[derive(Clone, Debug)]
pub struct UserInfo {
    pub id: i32,
    pub username: String,
    pub email: Option<String>,
    pub active: bool,
    pub role: String,
    pub belonging_area_division: String,
    pub belonging_area_sub_area: String,
}

} // verus!
