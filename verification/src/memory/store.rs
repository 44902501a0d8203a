//! The in-memory database: one value that holds every table.

use vstd::prelude::*;
use super::members::Members;
use super::model::MembersView;
use super::users::Users;
use crate::user::UserView;

verus! {

/// An in-memory database: the principals and the memberships. It is made
/// once, when the process starts, and handed to whoever needs storage.
#[derive(Debug)]
pub struct Memory {
    /// The principals.
    pub users: Users,
    /// The memberships.
    pub members: Members,
}

impl Memory {
    /// The database that holds nothing.
    pub fn new() -> (out: Memory)
        ensures
            out.users@ == Seq::<UserView>::empty(),
            out.members@ == MembersView::empty(),
    {
        Memory { users: Users::new(), members: Members::new() }
    }

    /// The table of principals.
    pub fn users(&self) -> (out: &Users)
        ensures
            *out == self.users,
    {
        &self.users
    }

    /// The table of memberships.
    pub fn members(&self) -> (out: &Members)
        ensures
            *out == self.members,
    {
        &self.members
    }
}

} // verus!
