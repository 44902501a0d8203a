//! The store of principals: found by identifier or by contact, and unique in
//! both.

use vstd::prelude::*;
use crate::contact::{Contact, ContactView};
use crate::error::Error as DomainError;
use crate::id::Id;
use crate::key::Key;
use crate::user::{User, UserView};
use crate::value::{FieldMap, Value, ValueView};
use super::error::Error;
use super::model::conversion_failure;

verus! {

/// The principal with the identifier `id`: of several the last.
pub open spec fn find_id(users: Seq<UserView>, id: Id) -> Option<UserView>
    decreases users.len(),
{
    if users.len() == 0 {
        None
    } else if users.last().id == id {
        Some(users.last())
    } else {
        find_id(users.drop_last(), id)
    }
}

/// The principal with the contact `contact`: of several the last.
pub open spec fn find_contact(users: Seq<UserView>, contact: ContactView) -> Option<UserView>
    decreases users.len(),
{
    if users.len() == 0 {
        None
    } else if users.last().contact == contact {
        Some(users.last())
    } else {
        find_contact(users.drop_last(), contact)
    }
}

/// The principals without those with the identifier `id`.
pub open spec fn without_id(users: Seq<UserView>, id: Id) -> Seq<UserView>
    decreases users.len(),
{
    if users.len() == 0 {
        users
    } else if users.last().id == id {
        without_id(users.drop_last(), id)
    } else {
        without_id(users.drop_last(), id).push(users.last())
    }
}

/// The principal that a key names among `users`: by the primary key where
/// the key has one, else by the contact.
pub open spec fn find(users: Seq<UserView>, key: Key<Id, ContactView>) -> Option<UserView> {
    match key {
        Key::Pk(id) => find_id(users, id),
        Key::Both(id, _) => find_id(users, id),
        Key::Sk(contact) => find_contact(users, contact),
    }
}

/// Why `user` cannot join `users`, if it cannot: its identifier is taken, or
/// its contact is.
pub open spec fn create_failure(users: Seq<UserView>, user: UserView) -> Option<Error> {
    if find_id(users, user.id) is Some {
        Some(Error::New(DomainError::Conflict("user")))
    } else if find_contact(users, user.contact) is Some {
        Some(Error::UserWithEmailExists)
    } else {
        None
    }
}

/// The principals after an attempt to create `user`.
pub open spec fn created(users: Seq<UserView>, user: UserView) -> Seq<UserView> {
    if create_failure(users, user) is Some {
        users
    } else {
        users.push(user)
    }
}

/// The principals with `user` in place of every one with its identifier.
pub open spec fn replaced(users: Seq<UserView>, user: UserView) -> Seq<UserView>
    decreases users.len(),
{
    if users.len() == 0 {
        users
    } else if users.last().id == user.id {
        replaced(users.drop_last(), user).push(user)
    } else {
        replaced(users.drop_last(), user).push(users.last())
    }
}

/// Why `user` cannot take the place of the stored principal with its
/// identifier, if it cannot: there is none, or its contact is taken by
/// another principal.
pub open spec fn update_failure(users: Seq<UserView>, user: UserView) -> Option<Error> {
    if find_id(users, user.id) is None {
        Some(Error::NotFound("user"))
    } else if find_contact(users, user.contact) matches Some(other) && other.id != user.id {
        Some(Error::UserWithEmailExists)
    } else {
        None
    }
}

/// The principals after an attempt to replace a principal by `user`.
pub open spec fn updated(users: Seq<UserView>, user: UserView) -> Seq<UserView> {
    if update_failure(users, user) is Some {
        users
    } else {
        replaced(users, user)
    }
}

/// The text that the field `name` gives, where it is present: the outer
/// `None` says that its value is no text.
pub open spec fn text_field(
    fields: Map<Seq<char>, ValueView>,
    name: Seq<char>,
    current: Seq<char>,
) -> Option<Seq<char>> {
    if fields.contains_key(name) {
        match fields[name] {
            ValueView::String(s) => Some(s),
            _ => None,
        }
    } else {
        Some(current)
    }
}

/// The principal `user` with the names that `fields` gives: `username`,
/// `first_name` and `last_name` count, and the first of them, in this order,
/// whose value is no text decides the failure.
pub open spec fn patched_user(user: UserView, fields: Map<Seq<char>, ValueView>) -> Result<
    UserView,
    Error,
> {
    let username = text_field(fields, "username"@, user.username);
    let first_name = text_field(fields, "first_name"@, user.first_name);
    let last_name = text_field(fields, "last_name"@, user.last_name);
    if username is None {
        Err(conversion_failure("username"))
    } else if first_name is None {
        Err(conversion_failure("first_name"))
    } else if last_name is None {
        Err(conversion_failure("last_name"))
    } else {
        Ok(
            UserView {
                username: username->0,
                first_name: first_name->0,
                last_name: last_name->0,
                ..user
            },
        )
    }
}

/// What a patch of the principal with the identifier `id` comes to.
pub open spec fn patch_outcome(users: Seq<UserView>, id: Id, fields: Map<Seq<char>, ValueView>)
    -> Result<UserView, Error> {
    match find_id(users, id) {
        None => Err(Error::NotFound("user")),
        Some(user) => patched_user(user, fields),
    }
}

/// No two principals share an identifier or a contact.
pub open spec fn distinct(users: Seq<UserView>) -> bool {
    forall|i: int, j: int|
        0 <= i < users.len() && 0 <= j < users.len() && i != j ==> users[i].id != users[j].id
            && users[i].contact != users[j].contact
}

/// What a key's view is.
pub open spec fn key_view(key: Key<Id, Contact>) -> Key<Id, ContactView> {
    match key {
        Key::Pk(id) => Key::Pk(id),
        Key::Both(id, contact) => Key::Both(id, contact@),
        Key::Sk(contact) => Key::Sk(contact@),
    }
}

/// A principal that `find_id` gives has the identifier and is among the
/// principals; where it gives none, nobody has the identifier.
pub proof fn lemma_find_id(users: Seq<UserView>, id: Id)
    ensures
        match find_id(users, id) {
            Some(u) => u.id == id && users.contains(u),
            None => forall|i: int| 0 <= i < users.len() ==> users[i].id != id,
        },
    decreases users.len(),
{
    if users.len() > 0 {
        lemma_find_id(users.drop_last(), id);
        if users.last().id == id {
            assert(users[users.len() - 1] == users.last());
        } else {
            match find_id(users.drop_last(), id) {
                Some(u) => {
                    let i = choose|i: int|
                        0 <= i < users.drop_last().len() && users.drop_last()[i] == u;
                    assert(users[i] == u);
                },
                None => {
                    assert forall|i: int| 0 <= i < users.len() implies users[i].id != id by {
                        if i < users.len() - 1 {
                            assert(users.drop_last()[i] == users[i]);
                        }
                    }
                },
            }
        }
    }
}

/// A principal that `find_contact` gives has the contact and is among the
/// principals; where it gives none, nobody has the contact.
pub proof fn lemma_find_contact(users: Seq<UserView>, contact: ContactView)
    ensures
        match find_contact(users, contact) {
            Some(u) => u.contact == contact && users.contains(u),
            None => forall|i: int| 0 <= i < users.len() ==> users[i].contact != contact,
        },
    decreases users.len(),
{
    if users.len() > 0 {
        lemma_find_contact(users.drop_last(), contact);
        if users.last().contact == contact {
            assert(users[users.len() - 1] == users.last());
        } else {
            match find_contact(users.drop_last(), contact) {
                Some(u) => {
                    let i = choose|i: int|
                        0 <= i < users.drop_last().len() && users.drop_last()[i] == u;
                    assert(users[i] == u);
                },
                None => {
                    assert forall|i: int| 0 <= i < users.len() implies users[i].contact
                        != contact by {
                        if i < users.len() - 1 {
                            assert(users.drop_last()[i] == users[i]);
                        }
                    }
                },
            }
        }
    }
}

/// Creating a principal keeps the principals distinct, and a principal that
/// was created is found by its identifier and by its contact.
pub proof fn lemma_created(users: Seq<UserView>, user: UserView)
    requires
        distinct(users),
    ensures
        distinct(created(users, user)),
        create_failure(users, user) is None ==> find_id(created(users, user), user.id) == Some(
            user,
        ) && find_contact(created(users, user), user.contact) == Some(user),
{
    if create_failure(users, user) is None {
        lemma_find_id(users, user.id);
        lemma_find_contact(users, user.contact);
        let after = users.push(user);
        assert(after.drop_last() == users);
        assert forall|i: int, j: int|
            0 <= i < after.len() && 0 <= j < after.len() && i != j implies after[i].id
            != after[j].id && after[i].contact != after[j].contact by {
            if i < users.len() {
                assert(after[i] == users[i]);
            }
            if j < users.len() {
                assert(after[j] == users[j]);
            }
        }
    }
}

/// Replacing keeps the number of principals, and changes exactly those with
/// the identifier.
pub proof fn lemma_replaced(users: Seq<UserView>, user: UserView)
    ensures
        replaced(users, user).len() == users.len(),
        forall|i: int|
            0 <= i < users.len() ==> #[trigger] replaced(users, user)[i] == if users[i].id
                == user.id {
                user
            } else {
                users[i]
            },
    decreases users.len(),
{
    if users.len() > 0 {
        lemma_replaced(users.drop_last(), user);
        assert forall|i: int| 0 <= i < users.len() implies #[trigger] replaced(users, user)[i]
            == if users[i].id == user.id {
            user
        } else {
            users[i]
        } by {
            if i < users.len() - 1 {
                assert(users.drop_last()[i] == users[i]);
            }
        }
    }
}

/// Replacing a principal keeps the principals distinct, and the principal
/// that took the place is found by its identifier.
pub proof fn lemma_updated(users: Seq<UserView>, user: UserView)
    requires
        distinct(users),
    ensures
        distinct(updated(users, user)),
        update_failure(users, user) is None ==> find_id(updated(users, user), user.id) == Some(
            user,
        ),
{
    if update_failure(users, user) is None {
        let after = replaced(users, user);
        lemma_replaced(users, user);
        lemma_find_id(users, user.id);
        lemma_find_contact(users, user.contact);
        let prior = find_id(users, user.id)->0;
        let at = choose|i: int| 0 <= i < users.len() && users[i] == prior;
        assert(after[at] == user);
        assert forall|i: int, j: int|
            0 <= i < after.len() && 0 <= j < after.len() && i != j implies after[i].id
            != after[j].id && after[i].contact != after[j].contact by {
            assert(after[i].id == users[i].id);
            assert(after[j].id == users[j].id);
            if after[i].contact == after[j].contact {
                if users[i].id == user.id {
                    assert(users[j].contact == user.contact);
                } else if users[j].id == user.id {
                    assert(users[i].contact == user.contact);
                }
            }
        }
        lemma_find_id(after, user.id);
        let found = find_id(after, user.id);
        assert(found is Some) by {
            if found is None {
                assert(after[at].id != user.id);
            }
        }
        let k = choose|k: int| 0 <= k < after.len() && after[k] == found->0;
        assert(after[k].id == user.id);
        assert(users[k].id == user.id);
    }
}

/// Deleting keeps the principals distinct, and nobody is left with the
/// identifier.
pub proof fn lemma_without_id(users: Seq<UserView>, id: Id)
    requires
        distinct(users),
    ensures
        distinct(without_id(users, id)),
        find_id(without_id(users, id), id) is None,
        forall|u: UserView| without_id(users, id).contains(u) <==> users.contains(u) && u.id != id,
    decreases users.len(),
{
    if users.len() > 0 {
        let rest = users.drop_last();
        let last = users.last();
        assert forall|i: int, j: int|
            0 <= i < rest.len() && 0 <= j < rest.len() && i != j implies rest[i].id != rest[j].id
            && rest[i].contact != rest[j].contact by {
            assert(rest[i] == users[i] && rest[j] == users[j]);
        }
        lemma_without_id(rest, id);
        let kept = without_id(rest, id);
        let after = without_id(users, id);
        assert forall|u: UserView| after.contains(u) <==> users.contains(u) && u.id != id by {
            if users.contains(u) {
                let i = choose|i: int| 0 <= i < users.len() && users[i] == u;
                if i < rest.len() {
                    assert(rest[i] == u);
                }
            }
            if rest.contains(u) {
                let i = choose|i: int| 0 <= i < rest.len() && rest[i] == u;
                assert(users[i] == u);
            }
            assert(users[users.len() - 1] == last);
            if last.id != id {
                assert(after == kept.push(last));
                assert(after[kept.len() as int] == last);
                if after.contains(u) {
                    let i = choose|i: int| 0 <= i < after.len() && after[i] == u;
                    if i < kept.len() {
                        assert(kept[i] == u);
                    }
                }
                if kept.contains(u) {
                    let i = choose|i: int| 0 <= i < kept.len() && kept[i] == u;
                    assert(after[i] == u);
                }
            }
        }
        if last.id != id {
            assert(after.drop_last() == kept);
            assert forall|i: int, j: int|
                0 <= i < after.len() && 0 <= j < after.len() && i != j implies after[i].id
                != after[j].id && after[i].contact != after[j].contact by {
                let a = after[i];
                let b = after[j];
                if i < kept.len() && j < kept.len() {
                    assert(kept[i] == a && kept[j] == b);
                } else {
                    let other = if i < kept.len() {
                        i
                    } else {
                        j
                    };
                    let o = kept[other];
                    assert(kept.contains(o));
                    assert(rest.contains(o));
                    let k = choose|k: int| 0 <= k < rest.len() && rest[k] == o;
                    assert(users[k] == o);
                    assert(users[users.len() - 1] == last);
                }
            }
        }
    }
}

/// A patch keeps the principals distinct: it changes neither an identifier
/// nor a contact.
pub proof fn lemma_patched(users: Seq<UserView>, id: Id, fields: Map<Seq<char>, ValueView>)
    requires
        distinct(users),
    ensures
        patch_outcome(users, id, fields) matches Ok(u) ==> distinct(replaced(users, u)) && find_id(
            replaced(users, u),
            id,
        ) == Some(u),
{
    if let Ok(u) = patch_outcome(users, id, fields) {
        lemma_find_id(users, id);
        lemma_find_contact(users, u.contact);
        let prior = find_id(users, id)->0;
        assert(u.id == id && u.contact == prior.contact);
        let at = choose|i: int| 0 <= i < users.len() && users[i] == prior;
        match find_contact(users, u.contact) {
            Some(other) => {
                let k = choose|k: int| 0 <= k < users.len() && users[k] == other;
                assert(k == at);
            },
            None => {
                assert(users[at].contact != u.contact);
            },
        }
        assert(update_failure(users, u) is None);
        lemma_updated(users, u);
    }
}

/// The store of principals. It is a list that is searched in order: a
/// principal is found by its identifier and by its contact alike, and a
/// contact is no number to key a hash map by.
#[derive(Debug)]
pub struct Users {
    users: Vec<User>,
}

impl View for Users {
    type V = Seq<UserView>;

    closed spec fn view(&self) -> Seq<UserView> {
        self.users@.map_values(|u: User| u@)
    }
}

impl Default for Users {
    fn default() -> (out: Users)
        ensures
            out@ == Seq::<UserView>::empty(),
    {
        Users::new()
    }
}

impl Users {
    /// The store that holds nobody.
    pub fn new() -> (out: Users)
        ensures
            out@ == Seq::<UserView>::empty(),
            distinct(out@),
    {
        let out = Users { users: Vec::new() };
        assert(out@ =~= Seq::<UserView>::empty());
        out
    }

    /// The stored principal with the identifier `id`.
    fn by_id(&self, id: Id) -> (out: Option<&User>)
        ensures
            match out {
                Some(u) => find_id(self@, id) == Some(u@),
                None => find_id(self@, id) is None,
            },
    {
        let mut found: Option<&User> = None;
        let mut i: usize = 0;
        while i < self.users.len()
            invariant
                i <= self.users.len(),
                match found {
                    Some(u) => find_id(self@.take(i as int), id) == Some(u@),
                    None => find_id(self@.take(i as int), id) is None,
                },
            decreases self.users.len() - i,
        {
            assert(self@.take(i + 1).drop_last() == self@.take(i as int));
            assert(self@.take(i + 1).last() == self.users[i as int]@);
            if self.users[i].id == id {
                found = Some(&self.users[i]);
            }
            i += 1;
        }
        assert(self@.take(i as int) == self@);
        found
    }

    /// The stored principal with the contact `contact`.
    fn by_contact(&self, contact: &Contact) -> (out: Option<&User>)
        ensures
            match out {
                Some(u) => find_contact(self@, contact@) == Some(u@),
                None => find_contact(self@, contact@) is None,
            },
    {
        let mut found: Option<&User> = None;
        let mut i: usize = 0;
        while i < self.users.len()
            invariant
                i <= self.users.len(),
                match found {
                    Some(u) => find_contact(self@.take(i as int), contact@) == Some(u@),
                    None => find_contact(self@.take(i as int), contact@) is None,
                },
            decreases self.users.len() - i,
        {
            assert(self@.take(i + 1).drop_last() == self@.take(i as int));
            assert(self@.take(i + 1).last() == self.users[i as int]@);
            if self.users[i].contact.same(contact) {
                found = Some(&self.users[i]);
            }
            i += 1;
        }
        assert(self@.take(i as int) == self@);
        found
    }

    /// Creates a principal. Fails, and changes nothing, where the identifier
    /// is taken (`Conflict`) or the contact is (`UserWithEmailExists`).
    pub fn create_item(&mut self, user: User) -> (out: Result<User, Error>)
        ensures
            final(self)@ == created(old(self)@, user@),
            match out {
                Ok(u) => u@ == user@ && create_failure(old(self)@, user@) is None,
                Err(e) => create_failure(old(self)@, user@) == Some(e),
            },
            distinct(old(self)@) ==> distinct(final(self)@),
    {
        proof {
            if distinct(old(self)@) {
                lemma_created(old(self)@, user@);
            }
        }
        if self.by_id(user.id).is_some() {
            return Err(Error::New(DomainError::Conflict("user")));
        }
        if self.by_contact(&user.contact).is_some() {
            return Err(Error::UserWithEmailExists);
        }
        self.users.push(user.clone());
        assert(self@ =~= old(self)@.push(user@));
        Ok(user)
    }

    /// The principal that `key` names: by the identifier where the key has
    /// one, else by the contact. Fails with `NotFound` where there is none.
    pub fn get_item(&self, key: &Key<Id, Contact>) -> (out: Result<User, Error>)
        ensures
            match out {
                Ok(u) => find(self@, key_view(*key)) == Some(u@),
                Err(e) => find(self@, key_view(*key)) is None && e == Error::NotFound("user"),
            },
    {
        let found = match key {
            Key::Pk(id) => self.by_id(*id),
            Key::Both(id, _) => self.by_id(*id),
            Key::Sk(contact) => self.by_contact(contact),
        };
        match found {
            Some(u) => Ok(u.clone()),
            None => Err(Error::NotFound("user")),
        }
    }

    /// Puts `user` in place of every stored principal with its identifier.
    fn replace(&mut self, user: &User)
        ensures
            final(self)@ == replaced(old(self)@, user@),
    {
        let mut next: Vec<User> = Vec::new();
        let mut i: usize = 0;
        while i < self.users.len()
            invariant
                i <= self.users.len(),
                next@.map_values(|u: User| u@) == replaced(self@.take(i as int), user@),
            decreases self.users.len() - i,
        {
            assert(self@.take(i + 1).drop_last() == self@.take(i as int));
            assert(self@.take(i + 1).last() == self.users[i as int]@);
            let ghost prior = next@.map_values(|u: User| u@);
            if self.users[i].id == user.id {
                next.push(user.clone());
                assert(next@.map_values(|u: User| u@) =~= prior.push(user@));
            } else {
                next.push(self.users[i].clone());
                assert(next@.map_values(|u: User| u@) =~= prior.push(self.users[i as int]@));
            }
            i += 1;
        }
        assert(self@.take(i as int) == self@);
        self.users = next;
    }

    /// Replaces the stored principal with the identifier of `user` by
    /// `user`. Fails, and changes nothing, where there is none (`NotFound`)
    /// or another principal has the contact (`UserWithEmailExists`).
    pub fn update_item(&mut self, user: User) -> (out: Result<User, Error>)
        ensures
            final(self)@ == updated(old(self)@, user@),
            match out {
                Ok(u) => u@ == user@ && update_failure(old(self)@, user@) is None,
                Err(e) => update_failure(old(self)@, user@) == Some(e),
            },
            distinct(old(self)@) ==> distinct(final(self)@),
    {
        proof {
            if distinct(old(self)@) {
                lemma_updated(old(self)@, user@);
            }
        }
        if self.by_id(user.id).is_none() {
            return Err(Error::NotFound("user"));
        }
        let taken = match self.by_contact(&user.contact) {
            Some(other) => other.id != user.id,
            None => false,
        };
        if taken {
            return Err(Error::UserWithEmailExists);
        }
        self.replace(&user);
        Ok(user)
    }

    /// Sets the names of the principal with the identifier `id` that
    /// `fields` gives: `username`, `first_name` and `last_name`; other fields
    /// are ignored. Fails, and changes nothing, where there is no such
    /// principal (`NotFound`) or a value is no text (a conversion failure
    /// that names the field).
    pub fn patch_item(&mut self, id: Id, fields: &FieldMap) -> (out: Result<User, Error>)
        ensures
            match out {
                Ok(u) => patch_outcome(old(self)@, id, fields@) == Ok::<UserView, Error>(u@)
                    && final(self)@ == replaced(old(self)@, u@),
                Err(e) => patch_outcome(old(self)@, id, fields@) == Err::<UserView, Error>(e)
                    && final(self)@ == old(self)@,
            },
            distinct(old(self)@) ==> distinct(final(self)@),
    {
        proof {
            if distinct(old(self)@) {
                lemma_patched(old(self)@, id, fields@);
            }
        }
        let current = match self.by_id(id) {
            Some(user) => user,
            None => {
                return Err(Error::NotFound("user"));
            },
        };
        let username = match fields.get("username") {
            Some(Value::String(s)) => s.clone(),
            Some(_) => {
                return Err(
                    Error::New(DomainError::conversion_error(None).set_field("username")),
                );
            },
            None => current.username.clone(),
        };
        let first_name = match fields.get("first_name") {
            Some(Value::String(s)) => s.clone(),
            Some(_) => {
                return Err(
                    Error::New(DomainError::conversion_error(None).set_field("first_name")),
                );
            },
            None => current.first_name.clone(),
        };
        let last_name = match fields.get("last_name") {
            Some(Value::String(s)) => s.clone(),
            Some(_) => {
                return Err(
                    Error::New(DomainError::conversion_error(None).set_field("last_name")),
                );
            },
            None => current.last_name.clone(),
        };
        let next = User {
            id: current.id,
            username,
            first_name,
            last_name,
            contact: current.contact.clone(),
            password: current.password.clone(),
        };
        proof {
            lemma_find_id(self@, id);
        }
        self.replace(&next);
        Ok(next)
    }

    /// Deletes the principal with the identifier `id`. Fails with `NotFound`,
    /// and changes nothing, where there is none.
    pub fn delete_item(&mut self, id: Id) -> (out: Result<(), Error>)
        ensures
            final(self)@ == without_id(old(self)@, id),
            match out {
                Ok(_) => find_id(old(self)@, id) is Some,
                Err(e) => find_id(old(self)@, id) is None && e == Error::NotFound("user"),
            },
            distinct(old(self)@) ==> distinct(final(self)@),
    {
        proof {
            if distinct(old(self)@) {
                lemma_without_id(old(self)@, id);
            }
        }
        let present = self.by_id(id).is_some();
        let mut kept: Vec<User> = Vec::new();
        let mut i: usize = 0;
        while i < self.users.len()
            invariant
                i <= self.users.len(),
                kept@.map_values(|u: User| u@) == without_id(self@.take(i as int), id),
            decreases self.users.len() - i,
        {
            assert(self@.take(i + 1).drop_last() == self@.take(i as int));
            assert(self@.take(i + 1).last() == self.users[i as int]@);
            let ghost prior = kept@.map_values(|u: User| u@);
            if self.users[i].id != id {
                kept.push(self.users[i].clone());
                assert(kept@.map_values(|u: User| u@) =~= prior.push(self.users[i as int]@));
            }
            i += 1;
        }
        assert(self@.take(i as int) == self@);
        self.users = kept;
        if present {
            Ok(())
        } else {
            Err(Error::NotFound("user"))
        }
    }

    /// How many principals the store holds.
    pub fn len(&self) -> (out: usize)
        ensures
            out == self@.len(),
    {
        self.users.len()
    }
}

} // verus!
