//! What the pages that reset a password are sent.

use vstd::prelude::*;

verus! {

/// The query of the page that asks for a new password.
#[derive(Clone, Debug)]
pub struct ResetQuery {
    pub token: String,
}

/// The form that sets a new password.
#[derive(Clone, Debug)]
pub struct ResetForm {
    pub token: String,
    pub new_password: String,
}

} // verus!
