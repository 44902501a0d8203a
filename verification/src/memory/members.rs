//! The indexed membership store: memberships keyed by (tenant, principal),
//! with one index from each tenant to its principals and one from each
//! principal to its tenants.
//!
//! The store is one value that is changed through `&mut`: whoever shares it
//! between threads guards the table and both indexes with a single lock, so
//! that no reader sees the table changed and an index not yet.

use std::collections::HashMap;
use vstd::prelude::*;
use crate::error::Error as DomainError;
use crate::id::{parsed_id, Id};
use crate::key::Key;
use crate::member::{clone_ids, Member, MemberView};
use crate::value::{FieldMap, Value};
use super::error::Error;
use super::laws::{
    lemma_create_consistent,
    lemma_delete_consistent,
    lemma_patch_consistent,
    lemma_update_consistent,
};
use super::model::{
    all_ids,
    index_add,
    index_list,
    index_remove,
    patched,
    without,
    MembersView,
};

verus! {

broadcast use {vstd::std_specs::hash::group_hash_axioms, Id::lemma_number_injective};

/// What a hash map from identifier numbers to lists stands for.
spec fn index_view(index: HashMap<u128, Vec<Id>>) -> Map<Id, Seq<Id>> {
    Map::new(|k: Id| index@.contains_key(k.number()), |k: Id| index@[k.number()]@)
}

/// What the two-level table stands for.
spec fn table_view(table: HashMap<u128, HashMap<u128, Member>>) -> Map<
    (Id, Id),
    MemberView,
> {
    Map::new(
        |k: (Id, Id)|
            table@.contains_key(k.0.number())
                && table@[k.0.number()]@.contains_key(k.1.number()),
        |k: (Id, Id)| table@[k.0.number()]@[k.1.number()]@,
    )
}

/// `list` without every occurrence of `id`.
pub fn remove_id(list: &Vec<Id>, id: Id) -> (out: Vec<Id>)
    ensures
        out@ == without(list@, id),
{
    let mut out: Vec<Id> = Vec::new();
    let mut i: usize = 0;
    while i < list.len()
        invariant
            i <= list.len(),
            out@ == without(list@.take(i as int), id),
        decreases list.len() - i,
    {
        assert(list@.take(i + 1).drop_last() == list@.take(i as int));
        if list[i] != id {
            out.push(list[i]);
        }
        i += 1;
    }
    assert(list@.take(list.len() as int) == list@);
    out
}

/// Puts `id` under `key`: a stale occurrence leaves the list, then `id`
/// joins its end.
fn add_to_index(index: &mut HashMap<u128, Vec<Id>>, key: Id, id: Id)
    ensures
        index_view(*final(index)) == index_add(index_view(*old(index)), key, id),
{
    let k = key.value();
    let mut list = match index.remove(&k) {
        Some(list) => remove_id(&list, id),
        None => Vec::new(),
    };
    list.push(id);
    index.insert(k, list);
    assert(index_view(*index) =~= index_add(index_view(*old(index)), key, id));
}

/// Takes `id` from under `key`, where the index has the key.
fn remove_from_index(index: &mut HashMap<u128, Vec<Id>>, key: Id, id: Id)
    ensures
        index_view(*final(index)) == index_remove(index_view(*old(index)), key, id),
{
    let k = key.value();
    match index.remove(&k) {
        Some(list) => {
            let cut = remove_id(&list, id);
            index.insert(k, cut);
        },
        None => {},
    }
    assert(index_view(*index) =~= index_remove(index_view(*old(index)), key, id));
}

/// The identifiers that a list of texts writes, if every text writes one.
fn parse_roles(items: &Vec<String>) -> (out: Option<Vec<Id>>)
    ensures
        out is Some <==> all_ids(items.deep_view()),
        out matches Some(roles) ==> roles@ == Seq::new(
            items.len() as nat,
            |i: int| parsed_id(items.deep_view()[i])->0,
        ),
{
    let mut out: Vec<Id> = Vec::new();
    let mut i: usize = 0;
    while i < items.len()
        invariant
            i <= items.len(),
            out.len() == i,
            forall|j: int| 0 <= j < i ==> parsed_id(#[trigger] items.deep_view()[j]) == Some(out[j]),
        decreases items.len() - i,
    {
        assert(items.deep_view()[i as int] == items[i as int]@);
        match Id::parse(items[i].as_str()) {
            Some(id) => {
                out.push(id);
            },
            None => {
                return None;
            },
        }
        i += 1;
    }
    assert(out@ =~= Seq::new(items.len() as nat, |i: int| parsed_id(items.deep_view()[i])->0));
    Some(out)
}

/// The membership `member` with the fields that `fields` names set to the
/// values it gives.
pub fn apply_patch(member: &Member, fields: &FieldMap) -> (out: Result<Member, Error>)
    ensures
        match out {
            Ok(m) => patched(member@, fields@) == Ok::<MemberView, Error>(m@),
            Err(e) => patched(member@, fields@) == Err::<MemberView, Error>(e),
        },
{
    let title = match fields.get("title") {
        Some(Value::String(s)) => s.clone(),
        Some(_) => {
            return Err(
                Error::New(DomainError::conversion_error(None).set_field("title")),
            );
        },
        None => member.title.clone(),
    };
    let owner = match fields.get("owner") {
        Some(Value::Bool(b)) => *b,
        Some(_) => {
            return Err(
                Error::New(DomainError::conversion_error(None).set_field("owner")),
            );
        },
        None => member.owner,
    };
    let roles = match fields.get("roles") {
        Some(Value::List(items)) => match parse_roles(items) {
            Some(roles) => roles,
            None => {
                return Err(
                    Error::New(DomainError::conversion_error(None).set_field("roles")),
                );
            },
        },
        Some(_) => {
            return Err(
                Error::New(DomainError::conversion_error(None).set_field("roles")),
            );
        },
        None => clone_ids(&member.roles),
    };
    Ok(Member { org_id: member.org_id, user_id: member.user_id, title, owner, roles })
}

/// The indexed store of memberships. The table and the indexes are hash maps
/// keyed by the numbers of the identifiers, for which the hash map's
/// behaviour is specified; the table has one level for the tenant and one for
/// the principal.
#[derive(Debug)]
pub struct Members {
    /// The primary table: tenant, then principal, then the membership.
    members: HashMap<u128, HashMap<u128, Member>>,
    /// For each tenant, its principals.
    org_index: HashMap<u128, Vec<Id>>,
    /// For each principal, its tenants.
    user_index: HashMap<u128, Vec<Id>>,
}

impl View for Members {
    type V = MembersView;

    closed spec fn view(&self) -> MembersView {
        MembersView {
            members: table_view(self.members),
            org_index: index_view(self.org_index),
            user_index: index_view(self.user_index),
        }
    }
}

impl Default for Members {
    fn default() -> (out: Members)
        ensures
            out@ == MembersView::empty(),
    {
        Members::new()
    }
}

impl Members {
    /// The store that holds nothing.
    pub fn new() -> (out: Members)
        ensures
            out@ == MembersView::empty(),
            out@.consistent(),
    {
        let out = Members {
            members: HashMap::new(),
            org_index: HashMap::new(),
            user_index: HashMap::new(),
        };
        assert(out@.members =~= Map::empty());
        assert(out@.org_index =~= Map::empty());
        assert(out@.user_index =~= Map::empty());
        out
    }

    /// Makes both indexes list the pair of `member`, once each, at the end
    /// of its lists. The primary table stays as it is.
    pub fn update_indexes(&mut self, member: &Member)
        ensures
            final(self)@ == old(self)@.update_indexes(member@),
    {
        add_to_index(&mut self.org_index, member.org_id, member.user_id);
        add_to_index(&mut self.user_index, member.user_id, member.org_id);
    }

    /// Strikes the pair of `member` from both indexes. The primary table
    /// stays as it is.
    pub fn remove_from_indexes(&mut self, member: &Member)
        ensures
            final(self)@ == old(self)@.remove_from_indexes(member@),
    {
        remove_from_index(&mut self.org_index, member.org_id, member.user_id);
        remove_from_index(&mut self.user_index, member.user_id, member.org_id);
    }

    /// The membership under `key`, where the table holds one.
    fn lookup(&self, key: (Id, Id)) -> (out: Option<&Member>)
        ensures
            match out {
                Some(m) => self@.get(key) == Some(m@),
                None => self@.get(key) is None,
            },
    {
        let t = key.0.value();
        let p = key.1.value();
        match self.members.get(&t) {
            Some(inner) => inner.get(&p),
            None => None,
        }
    }

    /// Puts `member` under `key` in the primary table, in place of what was
    /// there. The indexes stay as they are.
    fn store(&mut self, key: (Id, Id), member: Member)
        ensures
            final(self)@ == (MembersView {
                members: old(self)@.members.insert(key, member@),
                ..old(self)@
            }),
    {
        let t = key.0.value();
        let p = key.1.value();
        let mut inner = match self.members.remove(&t) {
            Some(inner) => inner,
            None => HashMap::new(),
        };
        inner.insert(p, member);
        self.members.insert(t, inner);
        assert(self@.members =~= old(self)@.members.insert(key, member@));
    }

    /// Takes the membership under `key` out of the primary table. The
    /// indexes stay as they are.
    fn discard(&mut self, key: (Id, Id))
        ensures
            final(self)@ == (MembersView {
                members: old(self)@.members.remove(key),
                ..old(self)@
            }),
    {
        let t = key.0.value();
        let p = key.1.value();
        match self.members.remove(&t) {
            Some(inner) => {
                let mut inner = inner;
                inner.remove(&p);
                self.members.insert(t, inner);
            },
            None => {},
        }
        assert(self@.members =~= old(self)@.members.remove(key));
    }

    /// Takes the membership under `key` out of the table and strikes its
    /// pair from both indexes.
    fn evict(&mut self, key: (Id, Id))
        ensures
            final(self)@ == old(self)@.evict(key),
    {
        let prior = match self.lookup(key) {
            Some(m) => Some(m.clone()),
            None => None,
        };
        match prior {
            Some(m) => {
                self.remove_from_indexes(&m);
                self.discard(key);
            },
            None => {},
        }
    }

    /// Creates a membership. Fails with `MemberAlreadyExists`, and changes
    /// nothing, where the table holds one for the same tenant and principal.
    pub fn create_item(&mut self, member: Member) -> (out: Result<Member, Error>)
        ensures
            final(self)@ == old(self)@.create(member@),
            match out {
                Ok(m) => m@ == member@ && !old(self)@.members.contains_key(member@.key()),
                Err(e) => e == Error::MemberAlreadyExists && old(self)@.members.contains_key(
                    member@.key(),
                ),
            },
            old(self)@.consistent() ==> final(self)@.consistent(),
    {
        proof {
            if old(self)@.consistent() {
                lemma_create_consistent(old(self)@, member@);
            }
        }
        let key = member.key();
        if self.lookup(key).is_some() {
            return Err(Error::MemberAlreadyExists);
        }
        self.update_indexes(&member);
        self.store(key, member.clone());
        Ok(member)
    }

    /// The membership under the primary key that `key` names. Fails with
    /// `MemberNotFound` where `key` names none or the table holds none.
    pub fn get_item(&self, key: Key<(Id, Id), Id>) -> (out: Result<Member, Error>)
        ensures
            match out {
                Ok(m) => key.primary() matches Some(pk) && self@.get(pk) == Some(m@),
                Err(e) => e == Error::MemberNotFound && (key.primary() matches Some(pk)
                    ==> self@.get(pk) is None),
            },
    {
        let pk = match key {
            Key::Pk(pk) => pk,
            Key::Both(pk, _) => pk,
            Key::Sk(_) => {
                return Err(Error::MemberNotFound);
            },
        };
        match self.lookup(pk) {
            Some(m) => Ok(m.clone()),
            None => Err(Error::MemberNotFound),
        }
    }

    /// Replaces the record under the primary key that `key` names by
    /// `member`: the prior record leaves the table and the indexes, and
    /// `member` enters both under its own tenant and principal. Fails with
    /// `MemberNotFound`, and changes nothing, where `key` names no primary
    /// key or the table holds no record under it.
    pub fn update_item(&mut self, key: Key<(Id, Id), Id>, member: Member) -> (out: Result<
        Member,
        Error,
    >)
        ensures
            match key.primary() {
                Some(pk) => if old(self)@.members.contains_key(pk) {
                    final(self)@ == old(self)@.update(pk, member@) && (out matches Ok(m) && m@
                        == member@)
                } else {
                    final(self)@ == old(self)@ && out == Err::<Member, Error>(
                        Error::MemberNotFound,
                    )
                },
                None => final(self)@ == old(self)@ && out == Err::<Member, Error>(
                    Error::MemberNotFound,
                ),
            },
            old(self)@.consistent() ==> final(self)@.consistent(),
    {
        let pk = match key {
            Key::Pk(pk) => pk,
            Key::Both(pk, _) => pk,
            Key::Sk(_) => {
                return Err(Error::MemberNotFound);
            },
        };
        if self.lookup(pk).is_none() {
            return Err(Error::MemberNotFound);
        }
        proof {
            if old(self)@.consistent() {
                lemma_update_consistent(old(self)@, pk, member@);
            }
        }
        self.evict(pk);
        self.update_indexes(&member);
        self.store(member.key(), member.clone());
        Ok(member)
    }

    /// Sets the fields of the membership under `key` that `fields` names:
    /// `title`, `owner` and `roles`; other names are ignored. Fails with
    /// `MemberNotFound` where `key` names no primary key or the table holds
    /// none, and with a conversion failure that names the field where a value
    /// does not convert; in both cases nothing changes.
    pub fn patch_item(&mut self, key: Key<(Id, Id), Id>, fields: &FieldMap) -> (out: Result<
        Member,
        Error,
    >)
        ensures
            match key.primary() {
                Some(pk) => {
                    &&& final(self)@ == old(self)@.patch(pk, fields@)
                    &&& match old(self)@.get(pk) {
                        Some(m) => match patched(m, fields@) {
                            Ok(p) => out matches Ok(r) && r@ == p,
                            Err(e) => out == Err::<Member, Error>(e),
                        },
                        None => out == Err::<Member, Error>(Error::MemberNotFound),
                    }
                },
                None => final(self)@ == old(self)@ && out == Err::<Member, Error>(
                    Error::MemberNotFound,
                ),
            },
            old(self)@.consistent() ==> final(self)@.consistent(),
    {
        let pk = match key {
            Key::Pk(pk) => pk,
            Key::Both(pk, _) => pk,
            Key::Sk(_) => {
                return Err(Error::MemberNotFound);
            },
        };
        proof {
            if old(self)@.consistent() {
                lemma_patch_consistent(old(self)@, pk, fields@);
            }
        }
        let next = match self.lookup(pk) {
            Some(m) => apply_patch(m, fields),
            None => {
                return Err(Error::MemberNotFound);
            },
        };
        match next {
            Ok(member) => {
                self.store(pk, member.clone());
                self.remove_from_indexes(&member);
                self.update_indexes(&member);
                Ok(member)
            },
            Err(e) => Err(e),
        }
    }

    /// Memberships have no fields that can be deleted: fails with
    /// `UnsupportedOperation`, whatever the key and the fields.
    pub fn delete_fields(&self, key: Key<(Id, Id), Id>, fields: &[String]) -> (out: Result<
        Member,
        Error,
    >)
        ensures
            out == Err::<Member, Error>(Error::UnsupportedOperation),
    {
        Err(Error::UnsupportedOperation)
    }

    /// Deletes the membership under the primary key that `key` names, from
    /// the table and from both indexes. Fails with `MemberNotFound`, and
    /// changes nothing, where `key` names no primary key or the table holds
    /// none.
    pub fn delete_item(&mut self, key: Key<(Id, Id), Id>) -> (out: Result<(), Error>)
        ensures
            match key.primary() {
                Some(pk) => final(self)@ == old(self)@.delete(pk) && (out is Ok <==> old(
                    self,
                )@.members.contains_key(pk)),
                None => final(self)@ == old(self)@ && out is Err,
            },
            out matches Err(e) ==> e == Error::MemberNotFound,
            old(self)@.consistent() ==> final(self)@.consistent(),
    {
        let pk = match key {
            Key::Pk(pk) => pk,
            Key::Both(pk, _) => pk,
            Key::Sk(_) => {
                return Err(Error::MemberNotFound);
            },
        };
        proof {
            if old(self)@.consistent() {
                lemma_delete_consistent(old(self)@, pk);
            }
        }
        if self.lookup(pk).is_none() {
            return Err(Error::MemberNotFound);
        }
        self.evict(pk);
        Ok(())
    }

    /// The principals of the tenant `org`, in the order in which the index
    /// lists them.
    pub fn users_of(&self, org: Id) -> (out: Vec<Id>)
        ensures
            out@ == index_list(self@.org_index, org),
    {
        match self.org_index.get(&org.value()) {
            Some(list) => clone_ids(list),
            None => Vec::new(),
        }
    }

    /// The tenants of the principal `user`, in the order in which the index
    /// lists them.
    pub fn orgs_of(&self, user: Id) -> (out: Vec<Id>)
        ensures
            out@ == index_list(self@.user_index, user),
    {
        match self.user_index.get(&user.value()) {
            Some(list) => clone_ids(list),
            None => Vec::new(),
        }
    }
}

} // verus!
