use vstd::prelude::*;

verus! {

/// What a failed operation reports to its caller.
#[derive(Debug, Clone, Copy, PartialEq, Eq, Structural)]
pub enum ApiError {
    /// Malformed input (bad email format, short password or name).
    Validation,
    /// A request that can never succeed as stated (connecting to oneself).
    BadRequest,
    /// No identity, or credentials that do not match.
    Unauthorized,
    /// A missing user, or a connection that is missing or addressed to someone else.
    NotFound,
    /// A duplicate email or a duplicate connection request.
    Conflict,
    /// Storage or hashing failure, reported without detail.
    Internal,
}

pub open spec fn status_code_of(e: ApiError) -> u16 {
    match e {
        ApiError::Validation => 400,
        ApiError::BadRequest => 400,
        ApiError::Unauthorized => 401,
        ApiError::NotFound => 404,
        ApiError::Conflict => 409,
        ApiError::Internal => 500,
    }
}

impl ApiError {
    /// The HTTP status under which the error is reported.
    pub fn status_code(&self) -> (r: u16)
        ensures
            r == status_code_of(*self),
    {
        match self {
            ApiError::Validation => 400,
            ApiError::BadRequest => 400,
            ApiError::Unauthorized => 401,
            ApiError::NotFound => 404,
            ApiError::Conflict => 409,
            ApiError::Internal => 500,
        }
    }
}

/// Why a bearer token was not accepted.
#[derive(Debug, Clone, Copy, PartialEq, Eq, Structural)]
pub enum TokenError {
    /// Bad signature, malformed token or claims of the wrong shape.
    Invalid,
    /// A correctly signed token whose expiration has passed.
    Expired,
}

} // verus!
