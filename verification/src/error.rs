//! The failures that the service reports, by component and as the caller
//! of the service sees them.

use vstd::prelude::*;

verus! {

/// Why the credential store refused a write.
#[derive(Debug, Clone, Copy, PartialEq, Eq, Structural)]
pub enum CredentialError {
    /// The username is already stored.
    Conflict,
    /// No further user id can be assigned.
    StorageUnavailable,
}

/// Why registration or login failed.
#[derive(Debug, Clone, Copy, PartialEq, Eq, Structural)]
pub enum AuthError {
    /// The username belongs to a registered user.
    UsernameTaken,
    /// The password does not meet the configured policy.
    WeakPassword,
    /// Unknown username or wrong password; which of the two is not told.
    InvalidCredentials,
    /// The store or the random source could not do its part.
    StorageUnavailable,
}

/// Why a token was not accepted.
#[derive(Debug, Clone, Copy, PartialEq, Eq, Structural)]
pub enum TokenError {
    /// The token's time is up.
    Expired,
    /// The bytes do not have the shape of a token.
    Malformed,
    /// The tag does not belong to the token's contents under the current
    /// secret.
    BadSignature,
}

/// Why an operation on the resource store failed.
#[derive(Debug, Clone, Copy, PartialEq, Eq, Structural)]
pub enum StoreError {
    /// No such item, or an item of another owner.
    NotFound,
    /// The expected version is not the stored one.
    VersionConflict,
    /// No further id or version can be assigned.
    StorageUnavailable,
}

/// The failures that leave the service.
#[derive(Debug, Clone, Copy, PartialEq, Eq, Structural)]
pub enum ApiError {
    InputInvalid,
    UsernameTaken,
    InvalidCredentials,
    Unauthorized,
    NotFound,
    VersionConflict,
    StorageUnavailable,
}

impl ApiError {
    /// The failure that a caller sees for a failed registration or login.
    pub open spec fn of_auth(e: AuthError) -> ApiError {
        match e {
            AuthError::UsernameTaken => ApiError::UsernameTaken,
            AuthError::WeakPassword => ApiError::InputInvalid,
            AuthError::InvalidCredentials => ApiError::InvalidCredentials,
            AuthError::StorageUnavailable => ApiError::StorageUnavailable,
        }
    }

    /// The failure that a caller sees for a failed store operation.
    pub open spec fn of_store(e: StoreError) -> ApiError {
        match e {
            StoreError::NotFound => ApiError::NotFound,
            StoreError::VersionConflict => ApiError::VersionConflict,
            StoreError::StorageUnavailable => ApiError::StorageUnavailable,
        }
    }

    /// The HTTP status that stands for each failure.
    pub open spec fn spec_status(self) -> u16 {
        match self {
            ApiError::InputInvalid => 422,
            ApiError::UsernameTaken => 409,
            ApiError::InvalidCredentials => 401,
            ApiError::Unauthorized => 401,
            ApiError::NotFound => 404,
            ApiError::VersionConflict => 409,
            ApiError::StorageUnavailable => 503,
        }
    }

    /// Maps a registration or login failure to what the caller sees.
    pub fn from_auth(e: AuthError) -> (out: ApiError)
        ensures
            out == Self::of_auth(e),
    {
        match e {
            AuthError::UsernameTaken => ApiError::UsernameTaken,
            AuthError::WeakPassword => ApiError::InputInvalid,
            AuthError::InvalidCredentials => ApiError::InvalidCredentials,
            AuthError::StorageUnavailable => ApiError::StorageUnavailable,
        }
    }

    /// Maps a token failure to what the caller sees: every one of them is
    /// `Unauthorized`, so that a caller cannot tell them apart.
    pub fn from_token(e: TokenError) -> (out: ApiError)
        ensures
            out == ApiError::Unauthorized,
    {
        ApiError::Unauthorized
    }

    /// Maps a store failure to what the caller sees.
    pub fn from_store(e: StoreError) -> (out: ApiError)
        ensures
            out == Self::of_store(e),
    {
        match e {
            StoreError::NotFound => ApiError::NotFound,
            StoreError::VersionConflict => ApiError::VersionConflict,
            StoreError::StorageUnavailable => ApiError::StorageUnavailable,
        }
    }

    /// Whether the caller may try the same request again later: so it is
    /// for `StorageUnavailable` and for nothing else.
    pub fn retryable(&self) -> (yes: bool)
        ensures
            yes == (*self == ApiError::StorageUnavailable),
    {
        match self {
            ApiError::StorageUnavailable => true,
            _ => false,
        }
    }

    /// The HTTP status of this failure.
    pub fn status(&self) -> (code: u16)
        ensures
            code == self.spec_status(),
    {
        match self {
            ApiError::InputInvalid => 422,
            ApiError::UsernameTaken => 409,
            ApiError::InvalidCredentials => 401,
            ApiError::Unauthorized => 401,
            ApiError::NotFound => 404,
            ApiError::VersionConflict => 409,
            ApiError::StorageUnavailable => 503,
        }
    }
}

} // verus!
