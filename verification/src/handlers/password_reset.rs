//! Resetting a password: the token that allows it, and what becomes of the
//! new password.

use crate::data::errors::AppError;
use crate::data::errors::AppErrorView;
use crate::data::errors::DataError;
use crate::data::errors::DataErrorView;
use crate::data::user::hash_password;
use crate::data::user::password_check;
use crate::models::password_reset::ResetForm;
use crate::text::concat;
use rand::RngCore;
use vstd::prelude::*;

verus! {

/// How many random bytes a reset token is made of.
pub const TOKEN_BYTES: usize = 24;

/// Base64 in the alphabet that is safe in addresses, without padding.
pub uninterp spec fn base64_url(bytes: Seq<u8>) -> Seq<char>;

/// The text without the white space at its beginning and at its end, as
/// `str::trim` gives it.
pub uninterp spec fn trimmed(text: Seq<char>) -> Seq<char>;

/// `RngCore::fill_bytes` of `rand::thread_rng` on `count` bytes: that many
/// bytes, which nothing more is known of.
#[verifier::external_body]
fn random_bytes(count: usize) -> (bytes: Vec<u8>)
    ensures
        bytes@.len() == count,
{
    let mut bytes = vec![0u8; count];
    rand::thread_rng().fill_bytes(&mut bytes);
    bytes
}

/// `Engine::encode` of `base64::engine::general_purpose::URL_SAFE_NO_PAD`:
/// the bytes in base64, in the alphabet that is safe in addresses, without
/// padding.
#[verifier::external_body]
fn encode(bytes: &Vec<u8>) -> (text: String)
    requires
        bytes@.len() <= 0x1000,
    ensures
        text@ == base64_url(bytes@),
{
    base64::Engine::encode(&base64::engine::general_purpose::URL_SAFE_NO_PAD, bytes)
}

/// `str::trim`: the text without the white space around it.
#[verifier::external_body]
fn trim(text: &str) -> (inner: String)
    ensures
        inner@ == trimmed(text@),
{
    text.trim().to_string()
}

/// The token made of the bytes `bytes`.
pub fn token_of(bytes: &Vec<u8>) -> (token: String)
    requires
        bytes@.len() == TOKEN_BYTES,
    ensures
        token@ == base64_url(bytes@),
{
    encode(bytes)
}

/// A fresh token: the text of `TOKEN_BYTES` random bytes.
pub fn new_token() -> (token: String)
    ensures
        exists|bytes: Seq<u8>| bytes.len() == TOKEN_BYTES && token@ == base64_url(bytes),
{
    let bytes = random_bytes(TOKEN_BYTES);
    token_of(&bytes)
}

/// The address of the page on which the holder of `token` sets a new
/// password.
pub fn reset_link(token: &str) -> (link: String)
    ensures
        link@ == "/reset-password?token="@ + token@,
{
    concat("/reset-password?token=", token)
}

/// What a logged-in user is sent to when asking to reset the password,
/// and the token that is stored for the user; a request without user is
/// an error.
pub fn request_password_reset(user_id: Option<i32>, token: String) -> (answer: Result<
    (i32, String, String),
    AppError,
>)
    ensures
        match user_id {
            Some(user) => answer matches Ok((id, stored, link)) && id == user && stored@ == token@
                && link@ == "/reset-password?token="@ + token@,
            None => answer matches Err(e) && e@ == AppErrorView::Database(
                DataErrorView::Internal("user not logged in while attempting password reset"@),
            ),
        },
{
    match user_id {
        Some(user) => {
            let link = reset_link(token.as_str());
            Ok((user, token, link))
        },
        None => Err(
            AppError::Database(
                DataError::Internal(
                    String::from_str("user not logged in while attempting password reset"),
                ),
            ),
        ),
    }
}

/// The error that answers a token that is unknown or has run out.
pub fn token_error(message: &str) -> (error: AppError)
    ensures
        error@ == AppErrorView::Database(DataErrorView::TokenError(message@)),
{
    AppError::Database(DataError::TokenError(String::from_str(message)))
}

/// The hash that is kept for the new password of a reset form: made of
/// the password without the white space around it, so that the login
/// accepts that password for it.
///
/// Fails where no hash can be made.
pub fn new_password_hash(form: &ResetForm) -> (hashed: Result<String, DataError>)
    ensures
        match hashed {
            Ok(h) => password_check(trimmed(form.new_password@), h@) == Some(true),
            Err(e) => e@ is Internal,
        },
{
    hash_password(trim(form.new_password.as_str()).as_str())
}

} // verus!
