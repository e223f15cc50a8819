use vstd::prelude::*;
use vstd::string::StrSliceExecFns;
use crate::error::ApiError;
use crate::model::{CreateUserRequest, LoginRequest};

verus! {

/// Shortest accepted display name, in characters.
pub const MIN_NAME_CHARS: usize = 2;

/// Shortest password accepted at registration, in characters.
pub const MIN_NEW_PASSWORD_CHARS: usize = 8;

/// Shortest password accepted at login, in characters.
pub const MIN_LOGIN_PASSWORD_CHARS: usize = 6;

/// Whether `validator` accepts the text as an email address.
pub uninterp spec fn email_accepted(s: Seq<char>) -> bool;

/// Relies on `validator::validate_email`: the verdict depends on the text
/// alone, and an empty text or one without '@' is refused.
#[verifier::external_body]
fn email_format_ok(s: &str) -> (r: bool)
    ensures
        r == email_accepted(s@),
        s@.len() == 0 ==> !r,
        !s@.contains('@') ==> !r,
{
    validator::validate_email(s)
}

pub open spec fn registration_valid(email: Seq<char>, full_name: Seq<char>, password: Seq<char>) -> bool {
    &&& email_accepted(email)
    &&& full_name.len() >= MIN_NAME_CHARS
    &&& password.len() >= MIN_NEW_PASSWORD_CHARS
}

pub open spec fn login_valid(email: Seq<char>, password: Seq<char>) -> bool {
    &&& email_accepted(email)
    &&& password.len() >= MIN_LOGIN_PASSWORD_CHARS
}

/// Whether the text is a well-formed email address.
pub fn is_valid_email(s: &str) -> (r: bool)
    ensures
        r == email_accepted(s@),
{
    email_format_ok(s)
}

/// Checks the input of a registration: email format, a name of at least two
/// characters and a password of at least eight.
pub fn validate_registration(req: &CreateUserRequest) -> (r: Result<(), ApiError>)
    ensures
        r is Ok <==> registration_valid(req.email@, req.full_name@, req.password@),
        r is Err ==> r == Err::<(), ApiError>(ApiError::Validation),
{
    if email_format_ok(req.email.as_str()) && req.full_name.as_str().unicode_len() >= MIN_NAME_CHARS
        && req.password.as_str().unicode_len() >= MIN_NEW_PASSWORD_CHARS {
        Ok(())
    } else {
        Err(ApiError::Validation)
    }
}

/// Checks the input of a login: email format and a password of at least six characters.
pub fn validate_login(req: &LoginRequest) -> (r: Result<(), ApiError>)
    ensures
        r is Ok <==> login_valid(req.email@, req.password@),
        r is Err ==> r == Err::<(), ApiError>(ApiError::Validation),
{
    if email_format_ok(req.email.as_str()) && req.password.as_str().unicode_len()
        >= MIN_LOGIN_PASSWORD_CHARS {
        Ok(())
    } else {
        Err(ApiError::Validation)
    }
}

} // verus!
