//! Dynamically typed field values and maps from field names to values, the
//! vocabulary of partial updates and of open claim sets.

use vstd::prelude::*;
use crate::text::same_text;

verus! {

/// A field value whose type is known only at run time.
#[derive(Debug, PartialEq, Eq)]
pub enum Value {
    Null,
    Bool(bool),
    Number(i64),
    String(String),
    List(Vec<String>),
}

/// What a [`Value`] holds.
pub enum ValueView {
    Null,
    Bool(bool),
    Number(i64),
    String(Seq<char>),
    List(Seq<Seq<char>>),
}

impl View for Value {
    type V = ValueView;

    open spec fn view(&self) -> ValueView {
        match self {
            Value::Null => ValueView::Null,
            Value::Bool(b) => ValueView::Bool(*b),
            Value::Number(n) => ValueView::Number(*n),
            Value::String(s) => ValueView::String(s@),
            Value::List(items) => ValueView::List(items.deep_view()),
        }
    }
}

/// A copy of a list of strings.
pub fn clone_strings(items: &Vec<String>) -> (out: Vec<String>)
    ensures
        out.deep_view() == items.deep_view(),
{
    let mut out: Vec<String> = Vec::new();
    let mut i: usize = 0;
    while i < items.len()
        invariant
            i <= items.len(),
            out.len() == i,
            forall|j: int| 0 <= j < i ==> out[j]@ == items[j]@,
        decreases items.len() - i,
    {
        out.push(items[i].clone());
        i += 1;
    }
    assert(out.deep_view() =~= items.deep_view());
    out
}

impl Clone for Value {
    fn clone(&self) -> (out: Value)
        ensures
            out@ == self@,
    {
        match self {
            Value::Null => Value::Null,
            Value::Bool(b) => Value::Bool(*b),
            Value::Number(n) => Value::Number(*n),
            Value::String(s) => Value::String(s.clone()),
            Value::List(items) => Value::List(clone_strings(items)),
        }
    }
}

/// The map that a sequence of entries stands for: of two entries with one
/// name the later one counts.
pub open spec fn entries_map(entries: Seq<(String, Value)>) -> Map<Seq<char>, ValueView>
    decreases entries.len(),
{
    if entries.len() == 0 {
        Map::empty()
    } else {
        entries_map(entries.drop_last()).insert(entries.last().0@, entries.last().1@)
    }
}

/// The names that a sequence of entries binds, each once, in the order in
/// which they are first bound.
pub open spec fn entry_names(entries: Seq<(String, Value)>) -> Seq<Seq<char>>
    decreases entries.len(),
{
    if entries.len() == 0 {
        Seq::empty()
    } else {
        let before = entry_names(entries.drop_last());
        if before.contains(entries.last().0@) {
            before
        } else {
            before.push(entries.last().0@)
        }
    }
}

/// The names after `name` was bound: it joins the end unless it is among
/// them.
pub open spec fn with_name(names: Seq<Seq<char>>, name: Seq<char>) -> Seq<Seq<char>> {
    if names.contains(name) {
        names
    } else {
        names.push(name)
    }
}

/// The names without `name`, the others in their order.
pub open spec fn without_name(names: Seq<Seq<char>>, name: Seq<char>) -> Seq<Seq<char>>
    decreases names.len(),
{
    if names.len() == 0 {
        names
    } else if names.last() == name {
        without_name(names.drop_last(), name)
    } else {
        without_name(names.drop_last(), name).push(names.last())
    }
}

/// Taking a name out keeps every other name.
pub proof fn lemma_without_name(names: Seq<Seq<char>>, name: Seq<char>, other: Seq<char>)
    requires
        other != name,
    ensures
        without_name(names, name).contains(other) <==> names.contains(other),
        !without_name(names, name).contains(name),
    decreases names.len(),
{
    if names.len() > 0 {
        let rest = names.drop_last();
        let cut = without_name(rest, name);
        lemma_without_name(rest, name, other);
        assert(names[names.len() - 1] == names.last());
        if names.contains(other) {
            let i = choose|i: int| 0 <= i < names.len() && names[i] == other;
            if i < rest.len() {
                assert(rest[i] == other);
            }
        }
        if rest.contains(other) {
            let i = choose|i: int| 0 <= i < rest.len() && rest[i] == other;
            assert(names[i] == other);
        }
        if names.last() != name {
            let after = cut.push(names.last());
            assert(after[cut.len() as int] == names.last());
            if cut.contains(other) {
                let i = choose|i: int| 0 <= i < cut.len() && cut[i] == other;
                assert(after[i] == other);
            }
            if after.contains(other) {
                let i = choose|i: int| 0 <= i < after.len() && after[i] == other;
                if i < cut.len() {
                    assert(cut[i] == other);
                }
            }
            if after.contains(name) {
                let i = choose|i: int| 0 <= i < after.len() && after[i] == name;
                if i < cut.len() {
                    assert(cut[i] == name);
                }
            }
        }
    }
}

/// A map from field names to values. It keeps the order in which the names
/// were first bound, which is the order in which the fields are written
/// down; a hash map has no such order.
#[derive(Debug, PartialEq, Eq)]
pub struct FieldMap {
    entries: Vec<(String, Value)>,
}

impl View for FieldMap {
    type V = Map<Seq<char>, ValueView>;

    closed spec fn view(&self) -> Map<Seq<char>, ValueView> {
        entries_map(self.entries@)
    }
}

impl Clone for FieldMap {
    fn clone(&self) -> (out: FieldMap)
        ensures
            out@ == self@,
            out.name_order() == self.name_order(),
    {
        let mut entries: Vec<(String, Value)> = Vec::new();
        let mut i: usize = 0;
        assert(self.entries@.take(0) =~= entries@);
        while i < self.entries.len()
            invariant
                i <= self.entries.len(),
                entries_map(entries@) == entries_map(self.entries@.take(i as int)),
                entry_names(entries@) == entry_names(self.entries@.take(i as int)),
            decreases self.entries.len() - i,
        {
            assert(self.entries@.take(i + 1).drop_last() == self.entries@.take(i as int));
            assert(self.entries@.take(i + 1).last() == self.entries[i as int]);
            let ghost prior = entries@;
            entries.push((self.entries[i].0.clone(), self.entries[i].1.clone()));
            assert(entries@.drop_last() == prior);
            i += 1;
        }
        assert(self.entries@.take(i as int) == self.entries@);
        FieldMap { entries }
    }
}

impl FieldMap {
    /// The empty map.
    pub fn new() -> (out: FieldMap)
        ensures
            out@ == Map::<Seq<char>, ValueView>::empty(),
            out.name_order() == Seq::<Seq<char>>::empty(),
    {
        FieldMap { entries: Vec::new() }
    }

    /// Binds `name` to `value`, in place of what it was bound to. A name
    /// that was bound keeps its place among the names, a new one joins their
    /// end.
    pub fn insert(&mut self, name: &str, value: Value)
        ensures
            final(self)@ == old(self)@.insert(name@, value@),
            final(self).name_order() == with_name(old(self).name_order(), name@),
    {
        let owned = name.to_owned();
        self.entries.push((owned, value));
        assert(self.entries@.drop_last() == old(self).entries@);
    }

    /// Unbinds `name`. The other names keep their order.
    pub fn remove(&mut self, name: &str)
        ensures
            final(self)@ == old(self)@.remove(name@),
            final(self).name_order() == without_name(old(self).name_order(), name@),
    {
        let mut entries: Vec<(String, Value)> = Vec::new();
        let mut i: usize = 0;
        assert(self.entries@.take(0) =~= entries@);
        while i < self.entries.len()
            invariant
                i <= self.entries.len(),
                entries_map(entries@) == entries_map(self.entries@.take(i as int)).remove(name@),
                entry_names(entries@) == without_name(
                    entry_names(self.entries@.take(i as int)),
                    name@,
                ),
            decreases self.entries.len() - i,
        {
            assert(self.entries@.take(i + 1).drop_last() == self.entries@.take(i as int));
            assert(self.entries@.take(i + 1).last() == self.entries[i as int]);
            let ghost prior = entries@;
            let ghost before = entry_names(self.entries@.take(i as int));
            let ghost n = self.entries[i as int].0@;
            if !same_text(self.entries[i].0.as_str(), name) {
                entries.push((self.entries[i].0.clone(), self.entries[i].1.clone()));
                proof {
                    assert(entries@.drop_last() == prior);
                    lemma_without_name(before, name@, n);
                    if !before.contains(n) {
                        assert(before.push(n).drop_last() == before);
                    }
                }
            } else {
                proof {
                    if !before.contains(n) {
                        assert(before.push(n).drop_last() == before);
                    }
                }
            }
            assert(entries_map(entries@) =~= entries_map(self.entries@.take(i + 1)).remove(name@));
            i += 1;
        }
        assert(self.entries@.take(i as int) == self.entries@);
        self.entries = entries;
    }

    /// The value that `name` is bound to, if any.
    pub fn get(&self, name: &str) -> (out: Option<&Value>)
        ensures
            match out {
                Some(v) => self@.contains_key(name@) && self@[name@] == v@,
                None => !self@.contains_key(name@),
            },
    {
        let mut found: Option<&Value> = None;
        let mut i: usize = 0;
        while i < self.entries.len()
            invariant
                i <= self.entries.len(),
                match found {
                    Some(v) => entries_map(self.entries@.take(i as int)).contains_key(name@)
                        && entries_map(self.entries@.take(i as int))[name@] == v@,
                    None => !entries_map(self.entries@.take(i as int)).contains_key(name@),
                },
            decreases self.entries.len() - i,
        {
            assert(self.entries@.take(i + 1).drop_last() == self.entries@.take(i as int));
            if same_text(self.entries[i].0.as_str(), name) {
                found = Some(&self.entries[i].1);
            }
            i += 1;
        }
        assert(self.entries@.take(i as int) == self.entries@);
        found
    }

    /// The names that are bound, each once, in the order in which they were
    /// first bound.
    pub closed spec fn name_order(&self) -> Seq<Seq<char>> {
        entry_names(self.entries@)
    }

    /// The names in their order are the names that the map binds, each once.
    pub proof fn lemma_name_order(&self)
        ensures
            self.name_order().no_duplicates(),
            forall|name: Seq<char>| self.name_order().contains(name) <==> self@.contains_key(name),
    {
        lemma_entry_names(self.entries@);
    }

    /// The names that are bound, each once, in the order in which they were
    /// first bound.
    pub fn names(&self) -> (out: Vec<String>)
        ensures
            out.deep_view() == self.name_order(),
            out.deep_view().no_duplicates(),
            forall|name: Seq<char>| out.deep_view().contains(name) <==> self@.contains_key(name),
    {
        let mut out: Vec<String> = Vec::new();
        let mut i: usize = 0;
        assert(out.deep_view() =~= entry_names(self.entries@.take(0)));
        while i < self.entries.len()
            invariant
                i <= self.entries.len(),
                out.deep_view() == entry_names(self.entries@.take(i as int)),
            decreases self.entries.len() - i,
        {
            assert(self.entries@.take(i + 1).drop_last() == self.entries@.take(i as int));
            assert(self.entries@.take(i + 1).last() == self.entries[i as int]);
            let ghost prior = out.deep_view();
            if !has_text(&out, self.entries[i].0.as_str()) {
                out.push(self.entries[i].0.clone());
                assert(out.deep_view() == prior.push(self.entries[i as int].0@));
            }
            i += 1;
        }
        proof {
            assert(self.entries@.take(i as int) == self.entries@);
            self.lemma_name_order();
        }
        out
    }
}

/// The names of entries are the names that their map binds, each once.
pub proof fn lemma_entry_names(entries: Seq<(String, Value)>)
    ensures
        entry_names(entries).no_duplicates(),
        forall|name: Seq<char>|
            entry_names(entries).contains(name) <==> entries_map(entries).contains_key(name),
    decreases entries.len(),
{
    if entries.len() > 0 {
        let rest = entries.drop_last();
        let name = entries.last().0@;
        let before = entry_names(rest);
        let after = entry_names(entries);
        lemma_entry_names(rest);
        assert forall|n: Seq<char>| after.contains(n) <==> entries_map(entries).contains_key(
            n,
        ) by {
            assert(before.contains(n) <==> entries_map(rest).contains_key(n));
            if !before.contains(name) {
                if before.contains(n) {
                    let j = choose|j: int| 0 <= j < before.len() && before[j] == n;
                    assert(after[j] == n);
                }
                assert(after[before.len() as int] == name);
                if after.contains(n) {
                    let j = choose|j: int| 0 <= j < after.len() && after[j] == n;
                    if j < before.len() {
                        assert(before[j] == n);
                    }
                }
            }
        }
        if !before.contains(name) {
            assert forall|i: int, j: int|
                0 <= i < after.len() && 0 <= j < after.len() && i != j implies after[i]
                != after[j] by {
                if i < before.len() {
                    assert(after[i] == before[i]);
                }
                if j < before.len() {
                    assert(after[j] == before[j]);
                }
            }
        }
    }
}

/// Whether `text` is among `items`.
pub fn has_text(items: &Vec<String>, text: &str) -> (out: bool)
    ensures
        out == items.deep_view().contains(text@),
{
    let mut i: usize = 0;
    while i < items.len()
        invariant
            i <= items.len(),
            forall|j: int| 0 <= j < i ==> items.deep_view()[j] != text@,
        decreases items.len() - i,
    {
        assert(items.deep_view()[i as int] == items[i as int]@);
        if same_text(items[i].as_str(), text) {
            return true;
        }
        i += 1;
    }
    false
}

} // verus!
