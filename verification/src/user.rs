//! Principals: the identities that authenticate.

use vstd::prelude::*;
use crate::contact::{Contact, ContactView};
use crate::id::Id;

verus! {

/// A principal.
#[derive(Debug, PartialEq, Eq)]
pub struct User {
    /// The identifier of the principal.
    pub id: Id,
    /// The name by which the principal signs in.
    pub username: String,
    /// The given name.
    pub first_name: String,
    /// The family name.
    pub last_name: String,
    /// How the principal is reached.
    pub contact: Contact,
    /// The password: in a stored principal its hash, in one that is handed
    /// out the empty text.
    pub password: String,
}

/// What a [`User`] holds.
pub struct UserView {
    pub id: Id,
    pub username: Seq<char>,
    pub first_name: Seq<char>,
    pub last_name: Seq<char>,
    pub contact: ContactView,
    pub password: Seq<char>,
}

impl UserView {
    /// The principal with the given password in place of its own.
    pub open spec fn with_password(self, password: Seq<char>) -> UserView {
        UserView { password, ..self }
    }
}

impl View for User {
    type V = UserView;

    open spec fn view(&self) -> UserView {
        UserView {
            id: self.id,
            username: self.username@,
            first_name: self.first_name@,
            last_name: self.last_name@,
            contact: self.contact@,
            password: self.password@,
        }
    }
}

impl Clone for User {
    fn clone(&self) -> (out: User)
        ensures
            out@ == self@,
    {
        User {
            id: self.id,
            username: self.username.clone(),
            first_name: self.first_name.clone(),
            last_name: self.last_name.clone(),
            contact: self.contact.clone(),
            password: self.password.clone(),
        }
    }
}

impl User {
    /// The principal with the given password in place of its own.
    pub fn with_password(&self, password: String) -> (out: User)
        ensures
            out@ == self@.with_password(password@),
    {
        User {
            id: self.id,
            username: self.username.clone(),
            first_name: self.first_name.clone(),
            last_name: self.last_name.clone(),
            contact: self.contact.clone(),
            password,
        }
    }
}

} // verus!
