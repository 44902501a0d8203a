//! The mathematical model of the membership store: a primary table keyed by
//! (tenant, principal) and two secondary indexes derived from it.

use vstd::prelude::*;
use crate::error::Error as DomainError;
use crate::id::{parsed_id, Id};
use crate::member::MemberView;
use crate::value::ValueView;
use super::error::Error;

verus! {

/// `list` without every occurrence of `id`.
pub open spec fn without(list: Seq<Id>, id: Id) -> Seq<Id>
    decreases list.len(),
{
    if list.len() == 0 {
        list
    } else if list.last() == id {
        without(list.drop_last(), id)
    } else {
        without(list.drop_last(), id).push(list.last())
    }
}

/// The list under `key`, empty where the index has none.
pub open spec fn index_list(index: Map<Id, Seq<Id>>, key: Id) -> Seq<Id> {
    if index.contains_key(key) {
        index[key]
    } else {
        Seq::empty()
    }
}

/// The index after `id` was put under `key`: a stale occurrence leaves the
/// list, then `id` joins its end.
pub open spec fn index_add(index: Map<Id, Seq<Id>>, key: Id, id: Id) -> Map<Id, Seq<Id>> {
    index.insert(key, without(index_list(index, key), id).push(id))
}

/// The index after `id` was taken from under `key`. A key that the index
/// holds stays, if need be with an empty list.
pub open spec fn index_remove(index: Map<Id, Seq<Id>>, key: Id, id: Id) -> Map<Id, Seq<Id>> {
    if index.contains_key(key) {
        index.insert(key, without(index[key], id))
    } else {
        index
    }
}

/// Whether `index` lists `id` under `key`.
pub open spec fn index_has(index: Map<Id, Seq<Id>>, key: Id, id: Id) -> bool {
    index.contains_key(key) && index[key].contains(id)
}

/// The title that a value gives, if it is a string.
pub open spec fn as_title(v: ValueView) -> Option<Seq<char>> {
    match v {
        ValueView::String(s) => Some(s),
        _ => None,
    }
}

/// The owner flag that a value gives, if it is a boolean.
pub open spec fn as_owner(v: ValueView) -> Option<bool> {
    match v {
        ValueView::Bool(b) => Some(b),
        _ => None,
    }
}

/// Whether every text of `items` writes an identifier.
pub open spec fn all_ids(items: Seq<Seq<char>>) -> bool {
    forall|i: int| 0 <= i < items.len() ==> parsed_id(#[trigger] items[i]) is Some
}

/// The roles that a value gives, if it is a list of identifiers in their
/// textual form.
pub open spec fn as_roles(v: ValueView) -> Option<Seq<Id>> {
    match v {
        ValueView::List(items) => if all_ids(items) {
            Some(Seq::new(items.len(), |i: int| parsed_id(items[i])->0))
        } else {
            None
        },
        _ => None,
    }
}

/// The failure of a value to convert to what `field` holds.
pub open spec fn conversion_failure(field: &'static str) -> Error {
    Error::New(DomainError::ConversionError { field: Some(field), status: 400, message: None })
}

/// The membership `m` with the fields that `fields` names set to the values
/// it gives. Only `title`, `owner` and `roles` count; the first of them, in
/// this order, whose value does not convert decides the failure.
pub open spec fn patched(m: MemberView, fields: Map<Seq<char>, ValueView>) -> Result<
    MemberView,
    Error,
> {
    let title = if fields.contains_key("title"@) {
        as_title(fields["title"@])
    } else {
        Some(m.title)
    };
    let owner = if fields.contains_key("owner"@) {
        as_owner(fields["owner"@])
    } else {
        Some(m.owner)
    };
    let roles = if fields.contains_key("roles"@) {
        as_roles(fields["roles"@])
    } else {
        Some(m.roles)
    };
    if title is None {
        Err(conversion_failure("title"))
    } else if owner is None {
        Err(conversion_failure("owner"))
    } else if roles is None {
        Err(conversion_failure("roles"))
    } else {
        Ok(MemberView { title: title->0, owner: owner->0, roles: roles->0, ..m })
    }
}

/// The state of the membership store.
pub struct MembersView {
    /// The primary table.
    pub members: Map<(Id, Id), MemberView>,
    /// For each tenant, its principals.
    pub org_index: Map<Id, Seq<Id>>,
    /// For each principal, its tenants.
    pub user_index: Map<Id, Seq<Id>>,
}

impl MembersView {
    /// The store that holds nothing.
    pub open spec fn empty() -> MembersView {
        MembersView { members: Map::empty(), org_index: Map::empty(), user_index: Map::empty() }
    }

    /// The membership under `key`, if there is one.
    pub open spec fn get(self, key: (Id, Id)) -> Option<MemberView> {
        if self.members.contains_key(key) {
            Some(self.members[key])
        } else {
            None
        }
    }

    /// The store after both indexes took up `m`.
    pub open spec fn update_indexes(self, m: MemberView) -> MembersView {
        MembersView {
            members: self.members,
            org_index: index_add(self.org_index, m.org_id, m.user_id),
            user_index: index_add(self.user_index, m.user_id, m.org_id),
        }
    }

    /// The store after both indexes dropped `m`.
    pub open spec fn remove_from_indexes(self, m: MemberView) -> MembersView {
        MembersView {
            members: self.members,
            org_index: index_remove(self.org_index, m.org_id, m.user_id),
            user_index: index_remove(self.user_index, m.user_id, m.org_id),
        }
    }

    /// The store after `m` was put under its own key and into the indexes.
    pub open spec fn install(self, m: MemberView) -> MembersView {
        MembersView { members: self.members.insert(m.key(), m), ..self.update_indexes(m) }
    }

    /// The store without the membership under `key` and without its index
    /// entries; the store itself where `key` is absent.
    pub open spec fn evict(self, key: (Id, Id)) -> MembersView {
        if self.members.contains_key(key) {
            MembersView {
                members: self.members.remove(key),
                ..self.remove_from_indexes(self.members[key])
            }
        } else {
            self
        }
    }

    /// The store after an attempt to create `m`: unchanged where the key of
    /// `m` is taken.
    pub open spec fn create(self, m: MemberView) -> MembersView {
        if self.members.contains_key(m.key()) {
            self
        } else {
            self.install(m)
        }
    }

    /// The store after an attempt to replace the record under `key` by `m`:
    /// the prior record leaves the table and the indexes and `m` enters both
    /// under its own key; unchanged where `key` is absent.
    pub open spec fn update(self, key: (Id, Id), m: MemberView) -> MembersView {
        if self.members.contains_key(key) {
            self.evict(key).install(m)
        } else {
            self
        }
    }

    /// The store after the membership under `key` took the value `m`, and
    /// the indexes dropped and took up `m` again.
    pub open spec fn replace(self, key: (Id, Id), m: MemberView) -> MembersView {
        MembersView {
            members: self.members.insert(key, m),
            ..self.remove_from_indexes(m).update_indexes(m)
        }
    }

    /// The store after an attempt to patch the membership under `key`:
    /// unchanged where `key` is absent or a value does not convert.
    pub open spec fn patch(self, key: (Id, Id), fields: Map<Seq<char>, ValueView>) -> MembersView {
        if self.members.contains_key(key) {
            match patched(self.members[key], fields) {
                Ok(m) => self.replace(key, m),
                Err(_) => self,
            }
        } else {
            self
        }
    }

    /// The store after the membership under `key` was deleted.
    pub open spec fn delete(self, key: (Id, Id)) -> MembersView {
        self.evict(key)
    }

    /// The indexes agree with the primary table: every membership stands
    /// under its own key, an index lists a pair exactly where the table holds
    /// the membership, and no list holds an identifier twice.
    pub open spec fn consistent(self) -> bool {
        &&& forall|k: (Id, Id)| #[trigger]
            self.members.contains_key(k) ==> self.members[k].key() == k
        &&& forall|t: Id, p: Id|
            self.members.contains_key((t, p)) <==> #[trigger] index_has(self.org_index, t, p)
        &&& forall|t: Id, p: Id|
            self.members.contains_key((t, p)) <==> #[trigger] index_has(self.user_index, p, t)
        &&& forall|t: Id| #[trigger]
            self.org_index.contains_key(t) ==> self.org_index[t].no_duplicates()
        &&& forall|p: Id| #[trigger]
            self.user_index.contains_key(p) ==> self.user_index[p].no_duplicates()
    }
}

} // verus!
