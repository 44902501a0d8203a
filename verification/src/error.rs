//! The error vocabulary shared by the stores and the services.

use vstd::prelude::*;
use vstd::string::StringExecFns;

verus! {

/// Errors that carry a caller-facing status classification and a message.
pub trait ErrorTrait {
    /// The status classification, as an HTTP status code.
    spec fn status(&self) -> u16;

    /// The caller-facing message.
    spec fn message(&self) -> Seq<char>;

    /// The status classification, as an HTTP status code.
    fn status_code(&self) -> (out: u16)
        ensures
            out == self.status(),
    ;

    /// The caller-facing message.
    fn msg(&self) -> (out: String)
        ensures
            out@ == self.message(),
    ;
}

/// What an operation of the stores or the services fails with.
#[derive(Clone, Debug, PartialEq, Eq)]
pub enum Error {
    /// The named record is absent.
    NotFound(&'static str),
    /// A record with the same key as the named one is present.
    Conflict(&'static str),
    /// The credentials do not match.
    Unauthorized,
    /// A lower layer failed unexpectedly; the text names the layer.
    Internal(&'static str),
    /// The text is no email address.
    InvalidEmail,
    /// The token's signature does not validate, or its claims are malformed.
    InvalidToken,
    /// The token is past its expiration.
    ExpiredToken,
    /// A value does not convert to the type that a field or a parser wants.
    ConversionError {
        /// The field that the value was meant for.
        field: Option<&'static str>,
        /// The status classification.
        status: u16,
        /// A message in place of the general one.
        message: Option<&'static str>,
    },
    /// A lock that guards the records was poisoned.
    LockPoisoned,
    /// The records contradict each other.
    InconsistentData,
    /// The operation is not defined for the entity.
    UnsupportedOperation,
}

/// The status code that stands for `status`: itself where it is a three
/// digit code, else 200.
pub open spec fn effective_status(status: u16) -> u16 {
    if 100 <= status <= 999 {
        status
    } else {
        200
    }
}

/// A result with its text taken by its view.
pub open spec fn text_result(r: Result<String, Error>) -> Result<Seq<char>, Error> {
    match r {
        Ok(s) => Ok(s@),
        Err(e) => Err(e),
    }
}

/// Whether `out` is the result `expected`, its text taken by its view.
pub open spec fn is_text_result(out: Result<String, Error>, expected: Result<Seq<char>, Error>)
    -> bool {
    text_result(out) == expected
}

impl Error {
    /// A conversion failure with status 400, no field and the given message.
    pub fn conversion_error(message: Option<&'static str>) -> (out: Error)
        ensures
            out == (Error::ConversionError { field: None, status: 400, message }),
    {
        Error::ConversionError { field: None, status: 400, message }
    }

    /// Names the field of a conversion failure; other errors stay as they are.
    pub fn set_field(self, field: &'static str) -> (out: Error)
        ensures
            out == match self {
                Error::ConversionError { field: _, status, message } => Error::ConversionError {
                    field: Some(field),
                    status,
                    message,
                },
                other => other,
            },
    {
        match self {
            Error::ConversionError { field: _, status, message } => Error::ConversionError {
                field: Some(field),
                status,
                message,
            },
            other => other,
        }
    }

    /// Sets the status of a conversion failure; other errors stay as they are.
    pub fn set_status(self, status: u16) -> (out: Error)
        ensures
            out == match self {
                Error::ConversionError { field, status: _, message } => Error::ConversionError {
                    field,
                    status,
                    message,
                },
                other => other,
            },
    {
        match self {
            Error::ConversionError { field, status: _, message } => Error::ConversionError {
                field,
                status,
                message,
            },
            other => other,
        }
    }
}

impl Error {
    /// The text that describes the error in a log. Unlike the caller-facing
    /// message it names the layer of an internal failure.
    pub open spec fn description(self) -> Seq<char> {
        match self {
            Error::NotFound(name) => name@ + " not found"@,
            Error::Conflict(name) => name@ + " already exists"@,
            Error::Unauthorized => "unauthorized"@,
            Error::Internal(layer) => "internal: "@ + layer@,
            Error::InvalidEmail => "invalid email address"@,
            Error::InvalidToken => "invalid token"@,
            Error::ExpiredToken => "expired token"@,
            Error::ConversionError { field, .. } => match field {
                Some(f) => "conversion failed for field `"@ + f@ + "`"@,
                None => "conversion failed"@,
            },
            Error::LockPoisoned => "lock poisoned"@,
            Error::InconsistentData => "data inconsistency"@,
            Error::UnsupportedOperation => "unsupported operation"@,
        }
    }

    /// The text that describes the error in a log.
    pub fn describe(&self) -> (out: String)
        ensures
            out@ == self.description(),
    {
        match self {
            Error::NotFound(name) => String::from_str(name).concat(" not found"),
            Error::Conflict(name) => String::from_str(name).concat(" already exists"),
            Error::Unauthorized => String::from_str("unauthorized"),
            Error::Internal(layer) => String::from_str("internal: ").concat(layer),
            Error::InvalidEmail => String::from_str("invalid email address"),
            Error::InvalidToken => String::from_str("invalid token"),
            Error::ExpiredToken => String::from_str("expired token"),
            Error::ConversionError { field, .. } => match field {
                Some(f) => String::from_str("conversion failed for field `").concat(f).concat(
                    "`",
                ),
                None => String::from_str("conversion failed"),
            },
            Error::LockPoisoned => String::from_str("lock poisoned"),
            Error::InconsistentData => String::from_str("data inconsistency"),
            Error::UnsupportedOperation => String::from_str("unsupported operation"),
        }
    }
}

impl ErrorTrait for Error {
    open spec fn status(&self) -> u16 {
        match self {
            Error::NotFound(_) => 404,
            Error::Conflict(_) => 409,
            Error::Unauthorized => 401,
            Error::Internal(_) => 500,
            Error::InvalidEmail => 400,
            Error::InvalidToken => 401,
            Error::ExpiredToken => 401,
            Error::ConversionError { status, .. } => effective_status(*status),
            Error::LockPoisoned => 500,
            Error::InconsistentData => 500,
            Error::UnsupportedOperation => 405,
        }
    }

    open spec fn message(&self) -> Seq<char> {
        match self {
            Error::NotFound(name) => name@ + " not found"@,
            Error::Conflict(name) => name@ + " already exists"@,
            Error::Unauthorized => "unauthorized"@,
            Error::Internal(_) => "internal server error"@,
            Error::InvalidEmail => "invalid email address"@,
            Error::InvalidToken => "invalid token"@,
            Error::ExpiredToken => "expired token"@,
            Error::ConversionError { field, status, message } => {
                if *status >= 500 {
                    "internal server Error"@
                } else {
                    match (message, field) {
                        (Some(m), Some(f)) => m@ + " for field `"@ + f@ + "`"@,
                        (Some(m), None) => m@,
                        (None, Some(f)) => "invalid data format for field "@ + f@,
                        (None, None) => "invalid data format"@,
                    }
                }
            },
            Error::LockPoisoned => "internal server error"@,
            Error::InconsistentData => "internal server error"@,
            Error::UnsupportedOperation => "unsupported operation"@,
        }
    }

    fn status_code(&self) -> (out: u16) {
        match self {
            Error::NotFound(_) => 404,
            Error::Conflict(_) => 409,
            Error::Unauthorized => 401,
            Error::Internal(_) => 500,
            Error::InvalidEmail => 400,
            Error::InvalidToken => 401,
            Error::ExpiredToken => 401,
            Error::ConversionError { status, .. } => {
                if 100 <= *status && *status <= 999 {
                    *status
                } else {
                    200
                }
            },
            Error::LockPoisoned => 500,
            Error::InconsistentData => 500,
            Error::UnsupportedOperation => 405,
        }
    }

    fn msg(&self) -> (out: String) {
        match self {
            Error::NotFound(name) => String::from_str(name).concat(" not found"),
            Error::Conflict(name) => String::from_str(name).concat(" already exists"),
            Error::Unauthorized => String::from_str("unauthorized"),
            Error::Internal(_) => String::from_str("internal server error"),
            Error::InvalidEmail => String::from_str("invalid email address"),
            Error::InvalidToken => String::from_str("invalid token"),
            Error::ExpiredToken => String::from_str("expired token"),
            Error::ConversionError { field, status, message } => {
                if *status >= 500 {
                    String::from_str("internal server Error")
                } else {
                    match (message, field) {
                        (Some(m), Some(f)) => String::from_str(m).concat(" for field `").concat(
                            f,
                        ).concat("`"),
                        (Some(m), None) => String::from_str(m),
                        (None, Some(f)) => String::from_str("invalid data format for field ").concat(
                            f,
                        ),
                        (None, None) => String::from_str("invalid data format"),
                    }
                }
            },
            Error::LockPoisoned => String::from_str("internal server error"),
            Error::InconsistentData => String::from_str("internal server error"),
            Error::UnsupportedOperation => String::from_str("unsupported operation"),
        }
    }
}

} // verus!
