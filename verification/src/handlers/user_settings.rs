//! What a user may change about itself.

use crate::data::errors::AppError;
use crate::data::errors::AppErrorView;
use crate::data::errors::DataError;
use crate::data::errors::DataErrorView;
use validator::ValidateEmail;
use vstd::prelude::*;

verus! {

/// The form that changes the e-mail address of a user.
#[derive(Clone, Debug)]
pub struct UpdateEmailForm {
    pub email: String,
}

/// Whether a text is an e-mail address as HTML forms accept it.
pub uninterp spec fn is_email(text: Seq<char>) -> bool;

/// `ValidateEmail::validate_email` on a text: whether it is an e-mail
/// address as HTML forms accept it.
#[verifier::external_body]
fn validate_email(text: &str) -> (valid: bool)
    ensures
        valid == is_email(text@),
{
    text.validate_email()
}

impl UpdateEmailForm {
    /// Whether the form can be taken: its address has to be an e-mail
    /// address.
    pub fn validate(&self) -> (checked: Result<(), AppError>)
        ensures
            if is_email(self.email@) {
                checked is Ok
            } else {
                checked matches Err(e) && e@ == AppErrorView::Database(
                    DataErrorView::Mail("email: Invalid email format"@),
                )
            },
    {
        if validate_email(self.email.as_str()) {
            Ok(())
        } else {
            Err(
                AppError::Database(
                    DataError::Mail(String::from_str("email: Invalid email format")),
                ),
            )
        }
    }
}

/// The user whose address a request changes: nobody, where the request
/// comes without a login.
pub fn user_to_update(user_id: Option<i32>) -> (user: i32)
    ensures
        user == match user_id {
            Some(id) => id,
            None => -1i32,
        },
{
    match user_id {
        Some(id) => id,
        None => -1,
    }
}

} // verus!
