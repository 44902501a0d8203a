//! What holds of the membership store whatever it holds: stated over the
//! model and proved.

use vstd::prelude::*;
use crate::id::Id;
use crate::member::MemberView;
use crate::value::ValueView;
use super::model::{
    as_owner,
    as_roles,
    as_title,
    index_add,
    index_has,
    index_list,
    index_remove,
    patched,
    without,
    MembersView,
};

verus! {

/// Taking `id` out of a list leaves every other identifier where it was
/// listed, leaves `id` nowhere, and makes no identifier occur twice.
pub proof fn lemma_without(list: Seq<Id>, id: Id)
    ensures
        !without(list, id).contains(id),
        forall|x: Id| x != id ==> (without(list, id).contains(x) <==> list.contains(x)),
        list.no_duplicates() ==> without(list, id).no_duplicates(),
    decreases list.len(),
{
    if list.len() > 0 {
        let rest = list.drop_last();
        let last = list.last();
        lemma_without(rest, id);
        let sub = without(rest, id);
        assert(list == rest.push(last));
        assert forall|x: Id| x != id implies (without(list, id).contains(x) <==> list.contains(
            x,
        )) by {
            lemma_push_contains(rest, last, x);
            lemma_push_contains(sub, last, x);
        }
        assert(!without(list, id).contains(id)) by {
            lemma_push_contains(sub, last, id);
        }
        if list.no_duplicates() {
            assert(rest.no_duplicates());
            if last != id {
                assert(!rest.contains(last)) by {
                    if rest.contains(last) {
                        let i = choose|i: int| 0 <= i < rest.len() && rest[i] == last;
                        assert(list[i] == list[list.len() - 1]);
                    }
                }
                lemma_push_no_duplicates(sub, last);
            }
        }
    }
}

/// What a list holds after a push.
pub proof fn lemma_push_contains(list: Seq<Id>, id: Id, x: Id)
    ensures
        list.push(id).contains(x) <==> (list.contains(x) || x == id),
{
    let pushed = list.push(id);
    if list.contains(x) {
        let i = choose|i: int| 0 <= i < list.len() && list[i] == x;
        assert(pushed[i] == x);
    }
    if x == id {
        assert(pushed[list.len() as int] == x);
    }
    if pushed.contains(x) {
        let i = choose|i: int| 0 <= i < pushed.len() && pushed[i] == x;
        if i < list.len() {
            assert(list[i] == x);
        }
    }
}

/// A push of an identifier that the list lacks makes none occur twice.
pub proof fn lemma_push_no_duplicates(list: Seq<Id>, id: Id)
    requires
        list.no_duplicates(),
        !list.contains(id),
    ensures
        list.push(id).no_duplicates(),
{
    let pushed = list.push(id);
    assert forall|i: int, j: int| 0 <= i < pushed.len() && 0 <= j < pushed.len() && i != j implies pushed[i]
        != pushed[j] by {
        if i < list.len() && j < list.len() {
        } else if i < list.len() {
            assert(list[i] == pushed[i]);
        } else {
            assert(list[j] == pushed[j]);
        }
    }
}

/// What an index lists after `id` was put under `key`.
pub proof fn lemma_index_add(index: Map<Id, Seq<Id>>, key: Id, id: Id)
    ensures
        index_has(index_add(index, key, id), key, id),
        forall|k: Id, x: Id|
            (k != key || x != id) ==> (#[trigger] index_has(index_add(index, key, id), k, x)
                <==> index_has(index, k, x)),
        (forall|k: Id| #[trigger] index.contains_key(k) ==> index[k].no_duplicates()) ==> (forall|
            k: Id,
        | #[trigger]
            index_add(index, key, id).contains_key(k) ==> index_add(
                index,
                key,
                id,
            )[k].no_duplicates()),
{
    let list = index_list(index, key);
    let cut = without(list, id);
    let after = index_add(index, key, id);
    lemma_without(list, id);
    lemma_push_contains(cut, id, id);
    assert forall|k: Id, x: Id| (k != key || x != id) implies (#[trigger] index_has(after, k, x)
        <==> index_has(index, k, x)) by {
        if k == key {
            lemma_push_contains(cut, id, x);
        }
    }
    if forall|k: Id| #[trigger] index.contains_key(k) ==> index[k].no_duplicates() {
        assert(list.no_duplicates());
        lemma_push_no_duplicates(cut, id);
    }
}

/// What an index lists after `id` was taken from under `key`.
pub proof fn lemma_index_remove(index: Map<Id, Seq<Id>>, key: Id, id: Id)
    ensures
        !index_has(index_remove(index, key, id), key, id),
        forall|k: Id, x: Id|
            (k != key || x != id) ==> (#[trigger] index_has(index_remove(index, key, id), k, x)
                <==> index_has(index, k, x)),
        (forall|k: Id| #[trigger] index.contains_key(k) ==> index[k].no_duplicates()) ==> (forall|
            k: Id,
        | #[trigger]
            index_remove(index, key, id).contains_key(k) ==> index_remove(
                index,
                key,
                id,
            )[k].no_duplicates()),
{
    if index.contains_key(key) {
        lemma_without(index[key], id);
    }
}

/// The empty store is consistent.
pub proof fn lemma_empty_consistent()
    ensures
        MembersView::empty().consistent(),
{
}

/// Installing a membership keeps the store consistent.
pub proof fn lemma_install_consistent(s: MembersView, m: MemberView)
    requires
        s.consistent(),
    ensures
        s.install(m).consistent(),
{
    lemma_index_add(s.org_index, m.org_id, m.user_id);
    lemma_index_add(s.user_index, m.user_id, m.org_id);
    let after = s.install(m);
    assert forall|t: Id, p: Id|
        after.members.contains_key((t, p)) <==> #[trigger] index_has(after.org_index, t, p) by {
        if (t, p) != m.key() {
            assert(index_has(after.org_index, t, p) <==> index_has(s.org_index, t, p));
        }
    }
    assert forall|t: Id, p: Id|
        after.members.contains_key((t, p)) <==> #[trigger] index_has(after.user_index, p, t) by {
        if (t, p) != m.key() {
            assert(index_has(after.user_index, p, t) <==> index_has(s.user_index, p, t));
        }
    }
}

/// Evicting a key keeps the store consistent.
pub proof fn lemma_evict_consistent(s: MembersView, key: (Id, Id))
    requires
        s.consistent(),
    ensures
        s.evict(key).consistent(),
{
    if s.members.contains_key(key) {
        let m = s.members[key];
        assert(m.key() == key);
        lemma_index_remove(s.org_index, m.org_id, m.user_id);
        lemma_index_remove(s.user_index, m.user_id, m.org_id);
        let after = s.evict(key);
        assert forall|t: Id, p: Id|
            after.members.contains_key((t, p)) <==> #[trigger] index_has(after.org_index, t, p) by {
            if (t, p) != key {
                assert(index_has(after.org_index, t, p) <==> index_has(s.org_index, t, p));
            }
        }
        assert forall|t: Id, p: Id|
            after.members.contains_key((t, p)) <==> #[trigger] index_has(
                after.user_index,
                p,
                t,
            ) by {
            if (t, p) != key {
                assert(index_has(after.user_index, p, t) <==> index_has(s.user_index, p, t));
            }
        }
    }
}

/// Index consistency: creating a membership keeps the store consistent,
/// whether or not the key was free.
pub proof fn lemma_create_consistent(s: MembersView, m: MemberView)
    requires
        s.consistent(),
    ensures
        s.create(m).consistent(),
{
    lemma_install_consistent(s, m);
}

/// Index consistency: replacing a record keeps the store consistent,
/// whether or not the key was present.
pub proof fn lemma_update_consistent(s: MembersView, key: (Id, Id), m: MemberView)
    requires
        s.consistent(),
    ensures
        s.update(key, m).consistent(),
{
    if s.members.contains_key(key) {
        lemma_evict_consistent(s, key);
        lemma_install_consistent(s.evict(key), m);
    }
}

/// Replacing under a key that the table lacks changes nothing, in the table
/// or in the indexes.
pub proof fn lemma_update_absent(s: MembersView, key: (Id, Id), m: MemberView)
    requires
        !s.members.contains_key(key),
    ensures
        s.update(key, m) == s,
{
}

/// After a record was replaced, the key of the new record finds it, and the
/// old key, where it is another, finds nothing.
pub proof fn lemma_update_get(s: MembersView, key: (Id, Id), m: MemberView)
    requires
        s.members.contains_key(key),
    ensures
        s.update(key, m).get(m.key()) == Some(m),
        key != m.key() ==> s.update(key, m).get(key) is None,
        forall|k: (Id, Id)| k != key && k != m.key() ==> s.update(key, m).get(k) == s.get(k),
{
}

/// Index consistency: patching a membership keeps the store consistent,
/// whether or not the patch is taken.
pub proof fn lemma_patch_consistent(
    s: MembersView,
    key: (Id, Id),
    fields: Map<Seq<char>, ValueView>,
)
    requires
        s.consistent(),
    ensures
        s.patch(key, fields).consistent(),
{
    if s.members.contains_key(key) {
        if let Ok(m) = patched(s.members[key], fields) {
            assert(m.key() == key);
            let mid = s.remove_from_indexes(m);
            lemma_index_remove(s.org_index, m.org_id, m.user_id);
            lemma_index_remove(s.user_index, m.user_id, m.org_id);
            lemma_index_add(mid.org_index, m.org_id, m.user_id);
            lemma_index_add(mid.user_index, m.user_id, m.org_id);
            let after = s.replace(key, m);
            assert forall|t: Id, p: Id|
                after.members.contains_key((t, p)) <==> #[trigger] index_has(
                    after.org_index,
                    t,
                    p,
                ) by {
                if (t, p) != key {
                    assert(index_has(after.org_index, t, p) <==> index_has(mid.org_index, t, p));
                    assert(index_has(mid.org_index, t, p) <==> index_has(s.org_index, t, p));
                }
            }
            assert forall|t: Id, p: Id|
                after.members.contains_key((t, p)) <==> #[trigger] index_has(
                    after.user_index,
                    p,
                    t,
                ) by {
                if (t, p) != key {
                    assert(index_has(after.user_index, p, t) <==> index_has(mid.user_index, p, t));
                    assert(index_has(mid.user_index, p, t) <==> index_has(s.user_index, p, t));
                }
            }
        }
    }
}

/// Index consistency: deleting a membership keeps the store consistent.
pub proof fn lemma_delete_consistent(s: MembersView, key: (Id, Id))
    requires
        s.consistent(),
    ensures
        s.delete(key).consistent(),
{
    lemma_evict_consistent(s, key);
}

/// Uniqueness: creating a membership whose key is taken changes nothing,
/// in the table or in the indexes.
pub proof fn lemma_create_taken(s: MembersView, m: MemberView)
    requires
        s.members.contains_key(m.key()),
    ensures
        s.create(m) == s,
{
}

/// Round trip: after a membership was created under a free key, its key
/// finds it, and every other key finds what it found before.
pub proof fn lemma_create_get(s: MembersView, m: MemberView)
    requires
        !s.members.contains_key(m.key()),
    ensures
        s.create(m).get(m.key()) == Some(m),
        forall|k: (Id, Id)| k != m.key() ==> s.create(m).get(k) == s.get(k),
{
}

/// Partial update isolation: a patch that names no owner keeps the owner, one
/// that names no roles keeps the roles, one that names no title keeps the
/// title; the tenant and the principal always stay.
pub proof fn lemma_patch_isolation(m: MemberView, fields: Map<Seq<char>, ValueView>)
    ensures
        patched(m, fields) matches Ok(p) ==> {
            &&& p.org_id == m.org_id
            &&& p.user_id == m.user_id
            &&& !fields.contains_key("title"@) ==> p.title == m.title
            &&& !fields.contains_key("owner"@) ==> p.owner == m.owner
            &&& !fields.contains_key("roles"@) ==> p.roles == m.roles
            &&& fields.contains_key("title"@) ==> Some(p.title) == as_title(fields["title"@])
            &&& fields.contains_key("owner"@) ==> Some(p.owner) == as_owner(fields["owner"@])
            &&& fields.contains_key("roles"@) ==> Some(p.roles) == as_roles(fields["roles"@])
        },
{
}

/// A patch that is taken changes the membership under its key to the patched
/// one and no other membership.
pub proof fn lemma_patch_get(s: MembersView, key: (Id, Id), fields: Map<Seq<char>, ValueView>)
    requires
        s.members.contains_key(key),
        patched(s.members[key], fields) is Ok,
    ensures
        s.patch(key, fields).get(key) == Some(patched(s.members[key], fields)->Ok_0),
        forall|k: (Id, Id)| k != key ==> s.patch(key, fields).get(k) == s.get(k),
{
}

/// Delete completeness: after a delete in a consistent store the key finds
/// nothing and neither index lists the pair; every other key finds what it
/// found before.
pub proof fn lemma_delete_complete(s: MembersView, key: (Id, Id))
    requires
        s.consistent(),
    ensures
        s.delete(key).get(key) is None,
        !index_has(s.delete(key).org_index, key.0, key.1),
        !index_has(s.delete(key).user_index, key.1, key.0),
        forall|k: (Id, Id)| k != key ==> s.delete(key).get(k) == s.get(k),
{
    lemma_evict_consistent(s, key);
    let after = s.delete(key);
    assert(!after.members.contains_key((key.0, key.1)));
    assert(index_has(after.org_index, key.0, key.1) <==> after.members.contains_key(
        (key.0, key.1),
    ));
    assert(index_has(after.user_index, key.1, key.0) <==> after.members.contains_key(
        (key.0, key.1),
    ));
}

} // verus!
