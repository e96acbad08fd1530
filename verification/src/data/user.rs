//! Users and their passwords.

use crate::data::errors::DataError;
use crate::data::errors::DataErrorView;
use bcrypt::BcryptError;
use vstd::prelude::*;

verus! {

#[verifier::external_type_specification]
#[verifier::external_body]
pub struct ExBcryptError(bcrypt::BcryptError);

/// A user as the login knows it: its number, and the hash of its
/// password.
#[derive(Clone, Debug)]
pub struct User {
    pub id: i32,
    pub password_hash: String,
}

/// Whether `password` is the password that `hash` was made from, as far as
/// `hash` is a bcrypt hash: nothing where it is none.
pub uninterp spec fn password_check(password: Seq<char>, hash: Seq<char>) -> Option<bool>;

/// `bcrypt::verify`: whether the password is the one that the hash was
/// made from, or why the hash cannot be used.
#[verifier::external_body]
fn verify(password: &str, hash: &str) -> (checked: Result<bool, BcryptError>)
    ensures
        checked matches Ok(valid) ==> password_check(password@, hash@) == Some(valid),
        checked is Err ==> password_check(password@, hash@) is None,
{
    bcrypt::verify(password, hash)
}

/// `bcrypt::hash`: a hash of the password at the given cost, salted with
/// random bytes, or why none could be made. Whatever the salt, the hash is
/// one that `bcrypt::verify` accepts for this password: it carries its
/// cost and its salt, from which the same hash is made again.
#[verifier::external_body]
fn hash(password: &str, cost: u32) -> (hashed: Result<String, BcryptError>)
    ensures
        hashed matches Ok(h) ==> password_check(password@, h@) == Some(true),
{
    bcrypt::hash(password, cost)
}

/// `BcryptError`'s `Display`: the wording of the error.
#[verifier::external_body]
fn error_text(error: &BcryptError) -> (text: String) {
    error.to_string()
}

/// The number of the user who logs in with `password`, given what the
/// store knows of the user name: a user that is not known and a password
/// that is not the user's are refused in the same words, so that nothing
/// is told about which user names exist.
pub fn authenticate_user(user: &Option<User>, password: &str) -> (id: Result<i32, DataError>)
    ensures
        match *user {
            None => id matches Err(e) && e@ == DataErrorView::FailedQuery("Invalid credentials"@),
            Some(u) => match password_check(password@, u.password_hash@) {
                Some(true) => id == Ok::<i32, DataError>(u.id),
                Some(false) => id matches Err(e) && e@ == DataErrorView::FailedQuery(
                    "Invalid credentials"@,
                ),
                None => id matches Err(e) && e@ is Bcrypt,
            },
        },
{
    match user {
        None => Err(DataError::FailedQuery(String::from_str("Invalid credentials"))),
        Some(u) => match verify(password, u.password_hash.as_str()) {
            Ok(true) => Ok(u.id),
            Ok(false) => Err(DataError::FailedQuery(String::from_str("Invalid credentials"))),
            Err(e) => Err(DataError::Bcrypt(error_text(&e))),
        },
    }
}

/// How costly the hashes of new passwords are to compute.
pub const HASH_COST: u32 = 10;

/// A hash of `password` to keep in place of it: one that the login
/// accepts for this password, whichever of its many hashes it is.
///
/// Fails where no hash can be made.
pub fn hash_password(password: &str) -> (hashed: Result<String, DataError>)
    ensures
        match hashed {
            Ok(h) => password_check(password@, h@) == Some(true),
            Err(e) => e@ is Internal,
        },
{
    match hash(password, HASH_COST) {
        Ok(hashed) => Ok(hashed),
        Err(e) => Err(DataError::Internal(error_text(&e))),
    }
}

/// The role of a user as the store gives it; a user that the store does
/// not know has none.
pub fn get_user_role(role: Option<String>) -> (found: Result<String, DataError>)
    ensures
        match role {
            Some(r) => found == Ok::<String, DataError>(r),
            None => found matches Err(e) && e@ == DataErrorView::FailedQuery("User not found"@),
        },
{
    match role {
        Some(r) => Ok(r),
        None => Err(DataError::FailedQuery(String::from_str("User not found"))),
    }
}

} // verus!
