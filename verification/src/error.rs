use vstd::prelude::*;
use vstd::string::StringExecFns;

verus! {

/// Why an operation was refused.
#[derive(Clone, Copy, Debug, PartialEq, Eq, Structural)]
pub enum ServiceError {
    /// No attachment, blob or share link matches.
    NotFound,
    /// The caller is neither the owner nor the named recipient.
    Forbidden,
    /// The share link is past its window.
    Expired,
    /// A freshly drawn token is already taken.
    Conflict,
    /// The object storage could not write or delete the bytes.
    StorageError,
    /// The request itself is malformed.
    ValidationError,
    /// The tables cannot take the change.
    Internal,
}

impl ServiceError {
    /// The HTTP status that a client sees for this error.
    pub open spec fn status(self) -> int {
        match self {
            ServiceError::NotFound => 404,
            ServiceError::Expired => 404,
            ServiceError::Forbidden => 403,
            ServiceError::ValidationError => 400,
            ServiceError::Conflict => 500,
            ServiceError::StorageError => 500,
            ServiceError::Internal => 500,
        }
    }

    /// The error as a client may learn of it: an expired link looks like a
    /// missing one, and a token collision like any other internal failure.
    pub open spec fn surfaced_spec(self) -> ServiceError {
        match self {
            ServiceError::Expired => ServiceError::NotFound,
            ServiceError::Conflict => ServiceError::Internal,
            e => e,
        }
    }

    /// The words that a client reads for this error. They tell no more
    /// than the status does.
    pub open spec fn words(self) -> Seq<char> {
        match self.surfaced_spec() {
            ServiceError::NotFound => "not found"@,
            ServiceError::Forbidden => "forbidden"@,
            ServiceError::ValidationError => "invalid request"@,
            _ => "internal error"@,
        }
    }

    pub fn message(&self) -> (text: String)
        ensures
            text@ == self.words(),
    {
        match self.surfaced() {
            ServiceError::NotFound => String::from_str("not found"),
            ServiceError::Forbidden => String::from_str("forbidden"),
            ServiceError::ValidationError => String::from_str("invalid request"),
            _ => String::from_str("internal error"),
        }
    }

    pub fn status_code(&self) -> (code: u16)
        ensures
            code == self.status(),
    {
        match self {
            ServiceError::NotFound => 404,
            ServiceError::Expired => 404,
            ServiceError::Forbidden => 403,
            ServiceError::ValidationError => 400,
            ServiceError::Conflict => 500,
            ServiceError::StorageError => 500,
            ServiceError::Internal => 500,
        }
    }

    pub fn surfaced(&self) -> (e: ServiceError)
        ensures
            e == self.surfaced_spec(),
    {
        match self {
            ServiceError::Expired => ServiceError::NotFound,
            ServiceError::Conflict => ServiceError::Internal,
            ServiceError::NotFound => ServiceError::NotFound,
            ServiceError::Forbidden => ServiceError::Forbidden,
            ServiceError::StorageError => ServiceError::StorageError,
            ServiceError::ValidationError => ServiceError::ValidationError,
            ServiceError::Internal => ServiceError::Internal,
        }
    }
}

} // verus!
