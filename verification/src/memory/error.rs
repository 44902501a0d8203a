//! Errors of the in-memory stores, and their place in the shared vocabulary.

use vstd::prelude::*;
use crate::error::Error as DomainError;
use crate::error::ErrorTrait;
use vstd::string::StringExecFns;

verus! {

/// What an operation of an in-memory store fails with.
#[derive(Clone, Debug, PartialEq, Eq)]
pub enum Error {
    /// A lock that guards the records was poisoned.
    LockPoisoned,
    /// A principal with the same contact is present.
    UserWithEmailExists,
    /// A membership with the same tenant and principal is present.
    MemberAlreadyExists,
    /// No membership has the key.
    MemberNotFound,
    /// The named record is absent.
    NotFound(&'static str),
    /// The records contradict each other.
    InconsistentData,
    /// The operation is not defined for the entity.
    UnsupportedOperation,
    /// A failure of the shared vocabulary that the store passes on.
    New(DomainError),
}

impl Error {
    /// The error of the shared vocabulary that stands for this one.
    pub open spec fn domain(self) -> DomainError {
        match self {
            Error::LockPoisoned => DomainError::LockPoisoned,
            Error::UserWithEmailExists => DomainError::Conflict("user"),
            Error::MemberAlreadyExists => DomainError::Conflict("member"),
            Error::MemberNotFound => DomainError::NotFound("member"),
            Error::NotFound(name) => DomainError::NotFound(name),
            Error::InconsistentData => DomainError::InconsistentData,
            Error::UnsupportedOperation => DomainError::UnsupportedOperation,
            Error::New(err) => err,
        }
    }

    /// Turns the store's error into the shared vocabulary.
    pub fn into_domain(self) -> (out: DomainError)
        ensures
            out == self.domain(),
    {
        match self {
            Error::LockPoisoned => DomainError::LockPoisoned,
            Error::UserWithEmailExists => DomainError::Conflict("user"),
            Error::MemberAlreadyExists => DomainError::Conflict("member"),
            Error::MemberNotFound => DomainError::NotFound("member"),
            Error::NotFound(name) => DomainError::NotFound(name),
            Error::InconsistentData => DomainError::InconsistentData,
            Error::UnsupportedOperation => DomainError::UnsupportedOperation,
            Error::New(err) => err,
        }
    }
}

impl Error {
    /// The text with which the error answers a caller: the failures of the
    /// store's own machinery, a poisoned lock and records that contradict
    /// each other, answer with a general text that tells nothing of them;
    /// every other error answers with its message.
    pub open spec fn response_text(self) -> Seq<char> {
        match self {
            Error::LockPoisoned => "Internal Server Error"@,
            Error::InconsistentData => "Internal Server Error"@,
            other => other.message(),
        }
    }

    /// The body with which the error answers a caller: a JSON object with
    /// the response text under `error`. The text is written as it is.
    pub open spec fn response_body_text(self) -> Seq<char> {
        "{\"error\": \""@ + self.response_text() + "\"}"@
    }

    /// The text with which the error answers a caller.
    pub fn response_message(&self) -> (out: String)
        ensures
            out@ == self.response_text(),
    {
        match self {
            Error::LockPoisoned => String::from_str("Internal Server Error"),
            Error::InconsistentData => String::from_str("Internal Server Error"),
            other => other.msg(),
        }
    }

    /// The body with which the error answers a caller.
    pub fn response_body(&self) -> (out: String)
        ensures
            out@ == self.response_body_text(),
    {
        String::from_str("{\"error\": \"").concat(self.response_message().as_str()).concat("\"}")
    }
}

impl From<Error> for DomainError {
    fn from(err: Error) -> (out: DomainError) {
        err.into_domain()
    }
}

impl vstd::std_specs::convert::FromSpecImpl<Error> for DomainError {
    open spec fn obeys_from_spec() -> bool {
        true
    }

    open spec fn from_spec(err: Error) -> DomainError {
        err.domain()
    }
}

impl ErrorTrait for Error {
    open spec fn status(&self) -> u16 {
        self.domain().status()
    }

    open spec fn message(&self) -> Seq<char> {
        match self {
            Error::LockPoisoned => "Lock Poisoned"@,
            Error::UserWithEmailExists => "user with the same email already exists"@,
            Error::MemberAlreadyExists => "member already exists"@,
            Error::MemberNotFound => "member not found"@,
            Error::NotFound(name) => name@ + " not found"@,
            Error::InconsistentData => "data inconsistency"@,
            Error::UnsupportedOperation => "unsupported operation"@,
            Error::New(err) => err.message(),
        }
    }

    fn status_code(&self) -> (out: u16) {
        match self {
            Error::LockPoisoned => 500,
            Error::UserWithEmailExists => 409,
            Error::MemberAlreadyExists => 409,
            Error::MemberNotFound => 404,
            Error::NotFound(_) => 404,
            Error::InconsistentData => 500,
            Error::UnsupportedOperation => 405,
            Error::New(err) => err.status_code(),
        }
    }

    fn msg(&self) -> (out: String) {
        match self {
            Error::LockPoisoned => String::from_str("Lock Poisoned"),
            Error::UserWithEmailExists => String::from_str(
                "user with the same email already exists",
            ),
            Error::MemberAlreadyExists => String::from_str("member already exists"),
            Error::MemberNotFound => String::from_str("member not found"),
            Error::NotFound(name) => String::from_str(name).concat(" not found"),
            Error::InconsistentData => String::from_str("data inconsistency"),
            Error::UnsupportedOperation => String::from_str("unsupported operation"),
            Error::New(err) => err.msg(),
        }
    }
}

} // verus!
