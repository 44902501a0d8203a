//! Memberships: the association of a principal with a tenant.

use vstd::prelude::*;
use crate::id::Id;

verus! {

/// The membership of a principal (`user_id`) in a tenant (`org_id`).
#[derive(Debug, PartialEq, Eq)]
pub struct Member {
    /// The tenant.
    pub org_id: Id,
    /// The principal.
    pub user_id: Id,
    /// The display title.
    pub title: String,
    /// Whether the principal owns the tenant.
    pub owner: bool,
    /// The roles that the principal holds in the tenant.
    pub roles: Vec<Id>,
}

/// What a [`Member`] holds.
pub struct MemberView {
    pub org_id: Id,
    pub user_id: Id,
    pub title: Seq<char>,
    pub owner: bool,
    pub roles: Seq<Id>,
}

impl MemberView {
    /// The composite key of the membership: tenant, then principal.
    pub open spec fn key(self) -> (Id, Id) {
        (self.org_id, self.user_id)
    }
}

impl View for Member {
    type V = MemberView;

    open spec fn view(&self) -> MemberView {
        MemberView {
            org_id: self.org_id,
            user_id: self.user_id,
            title: self.title@,
            owner: self.owner,
            roles: self.roles@,
        }
    }
}

/// A copy of a list of identifiers.
pub fn clone_ids(ids: &Vec<Id>) -> (out: Vec<Id>)
    ensures
        out@ == ids@,
{
    let mut out: Vec<Id> = Vec::new();
    let mut i: usize = 0;
    while i < ids.len()
        invariant
            i <= ids.len(),
            out@ == ids@.take(i as int),
        decreases ids.len() - i,
    {
        out.push(ids[i]);
        i += 1;
    }
    assert(ids@.take(ids.len() as int) == ids@);
    out
}

impl Clone for Member {
    fn clone(&self) -> (out: Member)
        ensures
            out@ == self@,
    {
        Member {
            org_id: self.org_id,
            user_id: self.user_id,
            title: self.title.clone(),
            owner: self.owner,
            roles: clone_ids(&self.roles),
        }
    }
}

impl Member {
    /// The composite key of the membership: tenant, then principal.
    pub fn key(&self) -> (out: (Id, Id))
        ensures
            out == self@.key(),
    {
        (self.org_id, self.user_id)
    }
}

} // verus!
