//! Who is using the application.

use vstd::prelude::*;

verus! {

/// The user on whose behalf a request is handled.
#[derive(Clone, Debug)]
pub struct CurrentUser {
    pub is_authenticated: bool,
    pub user_id: Option<i32>,
}

impl CurrentUser {
    /// Nobody: the user of a request that came without a login.
    pub fn anonymous() -> (user: CurrentUser)
        ensures
            !user.is_authenticated,
            user.user_id is None,
    {
        CurrentUser { is_authenticated: false, user_id: None }
    }

    /// The user that logged in as `user_id`.
    pub fn logged_in(user_id: i32) -> (user: CurrentUser)
        ensures
            user.is_authenticated,
            user.user_id == Some(user_id),
    {
        CurrentUser { is_authenticated: true, user_id: Some(user_id) }
    }
}

} // verus!
