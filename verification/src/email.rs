//! Email addresses and whether they were verified.

use vstd::prelude::*;
use crate::error::Error;
use crate::text::{chars_of, contains_char};

verus! {

/// Whether a text can be an email address: it holds an `@` and a dot.
pub open spec fn is_email(text: Seq<char>) -> bool {
    text.contains('@') && text.contains('.')
}

/// An email address, new or verified.
#[derive(Debug, PartialEq, Eq, Hash)]
pub enum Email {
    /// An address that nobody verified yet.
    New(String),
    /// An address whose owner proved to read it.
    Verified(String),
}

/// What an [`Email`] holds.
pub enum EmailView {
    New(Seq<char>),
    Verified(Seq<char>),
}

impl View for Email {
    type V = EmailView;

    open spec fn view(&self) -> EmailView {
        match self {
            Email::New(s) => EmailView::New(s@),
            Email::Verified(s) => EmailView::Verified(s@),
        }
    }
}

impl EmailView {
    /// The address.
    pub open spec fn address(self) -> Seq<char> {
        match self {
            EmailView::New(s) => s,
            EmailView::Verified(s) => s,
        }
    }
}

impl Clone for Email {
    fn clone(&self) -> (out: Email)
        ensures
            out@ == self@,
    {
        match self {
            Email::New(s) => Email::New(s.clone()),
            Email::Verified(s) => Email::Verified(s.clone()),
        }
    }
}

impl Email {
    /// A new, unverified address. Fails with `InvalidEmail` unless the text
    /// holds an `@` and a dot.
    pub fn new(email: &str) -> (out: Result<Email, Error>)
        ensures
            match out {
                Ok(e) => is_email(email@) && e@ == EmailView::New(email@),
                Err(e) => !is_email(email@) && e == Error::InvalidEmail,
            },
    {
        let chars = chars_of(email);
        if contains_char(&chars, '@') && contains_char(&chars, '.') {
            Ok(Email::New(email.to_owned()))
        } else {
            Err(Error::InvalidEmail)
        }
    }

    /// The address with the given verification state, as a record names
    /// them. The text is taken as it is.
    pub fn from_parts(email: String, verified: bool) -> (out: Email)
        ensures
            out@ == if verified {
                EmailView::Verified(email@)
            } else {
                EmailView::New(email@)
            },
    {
        if verified {
            Email::Verified(email)
        } else {
            Email::New(email)
        }
    }

    /// The address.
    pub fn address(&self) -> (out: &str)
        ensures
            out@ == self@.address(),
    {
        match self {
            Email::New(s) => s.as_str(),
            Email::Verified(s) => s.as_str(),
        }
    }

    /// Whether the address was verified.
    pub fn is_verified(&self) -> (out: bool)
        ensures
            out == (self@ is Verified),
    {
        match self {
            Email::New(_) => false,
            Email::Verified(_) => true,
        }
    }

    /// Whether two addresses are the same, verification state included.
    pub fn same(&self, other: &Email) -> (out: bool)
        ensures
            out == (self@ == other@),
    {
        match (self, other) {
            (Email::New(a), Email::New(b)) => *a == *b,
            (Email::Verified(a), Email::Verified(b)) => *a == *b,
            _ => false,
        }
    }
}

} // verus!
