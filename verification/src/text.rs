//! Conversions between strings and sequences of characters.

use vstd::prelude::*;

verus! {

/// `String::push` appends one character to the end of the string.
pub assume_specification[ std::string::String::push ](s: &mut std::string::String, c: char)
    ensures
        final(s)@ == old(s)@.push(c),
;

/// Whether two string slices hold the same characters.
pub fn same_text(a: &str, b: &str) -> (r: bool)
    ensures
        r == (a@ == b@),
{
    let x = chars_of(a);
    let y = chars_of(b);
    if x.len() != y.len() {
        return false;
    }
    let mut i: usize = 0;
    while i < x.len()
        invariant
            i <= x.len(),
            x.len() == y.len(),
            x@ == a@,
            y@ == b@,
            forall|j: int| 0 <= j < i ==> x@[j] == y@[j],
        decreases x.len() - i,
    {
        if x[i] != y[i] {
            assert(a@[i as int] != b@[i as int]);
            return false;
        }
        i += 1;
    }
    assert(x@ =~= y@);
    true
}

/// The characters of `s`, in order.
pub fn chars_of(s: &str) -> (out: Vec<char>)
    ensures
        out@ == s@,
{
    let mut out: Vec<char> = Vec::new();
    for c in it: s.chars()
        invariant
            out@ == it.seq().take(it.index() as int),
            it.seq() == s@,
    {
        out.push(c);
    }
    out
}

/// The fields of `text` that `sep` parts: one more than `sep` occurs, the
/// empty ones included.
pub open spec fn split_text(text: Seq<char>, sep: char) -> Seq<Seq<char>>
    decreases text.len(),
{
    if text.len() == 0 {
        seq![Seq::empty()]
    } else {
        let before = split_text(text.drop_last(), sep);
        if text.last() == sep {
            before.push(Seq::empty())
        } else {
            before.drop_last().push(before.last().push(text.last()))
        }
    }
}

/// A text without `sep` is its own single field.
pub proof fn lemma_split_whole(text: Seq<char>, sep: char)
    requires
        !text.contains(sep),
    ensures
        split_text(text, sep) == seq![text],
    decreases text.len(),
{
    if text.len() == 0 {
        assert(text =~= Seq::<char>::empty());
    } else {
        let before = text.drop_last();
        assert(!before.contains(sep)) by {
            if before.contains(sep) {
                let i = choose|i: int| 0 <= i < before.len() && before[i] == sep;
                assert(text[i] == sep);
            }
        }
        assert(text.last() != sep) by {
            assert(text[text.len() - 1] == text.last());
        }
        lemma_split_whole(before, sep);
        assert(before.push(text.last()) =~= text);
        assert(split_text(text, sep) =~= seq![text]);
    }
}

/// After the fields of `head` comes `tail` as one field, where `sep` parts
/// the two and `tail` is without `sep`.
pub proof fn lemma_split_append(head: Seq<char>, tail: Seq<char>, sep: char)
    requires
        !tail.contains(sep),
    ensures
        split_text(head + seq![sep] + tail, sep) == split_text(head, sep).push(tail),
    decreases tail.len(),
{
    let text = head + seq![sep] + tail;
    if tail.len() == 0 {
        assert(tail =~= Seq::<char>::empty());
        assert(text.drop_last() =~= head);
        assert(text.last() == sep);
    } else {
        let before = tail.drop_last();
        assert(!before.contains(sep)) by {
            if before.contains(sep) {
                let i = choose|i: int| 0 <= i < before.len() && before[i] == sep;
                assert(tail[i] == sep);
            }
        }
        assert(tail.last() != sep) by {
            assert(tail[tail.len() - 1] == tail.last());
        }
        lemma_split_append(head, before, sep);
        assert(text.drop_last() =~= head + seq![sep] + before);
        assert(text.last() == tail.last());
        let prior = split_text(head, sep).push(before);
        assert(prior.drop_last() =~= split_text(head, sep));
        assert(prior.last() == before);
        assert(before.push(tail.last()) =~= tail);
    }
}

/// The fields of `chars` that `sep` parts.
pub fn split(chars: &Vec<char>, sep: char) -> (out: Vec<String>)
    ensures
        out.deep_view() == split_text(chars@, sep),
{
    let mut out: Vec<String> = Vec::new();
    let mut start: usize = 0;
    let mut i: usize = 0;
    proof {
        assert(chars@.take(0).len() == 0);
        assert(out.deep_view() =~= Seq::<Seq<char>>::empty());
        assert(chars@.subrange(0, 0) =~= Seq::<char>::empty());
        assert(split_text(chars@.take(0), sep) =~= out.deep_view().push(chars@.subrange(0, 0)));
    }
    while i < chars.len()
        invariant
            start <= i <= chars.len(),
            split_text(chars@.take(i as int), sep) == out.deep_view().push(
                chars@.subrange(start as int, i as int),
            ),
        decreases chars.len() - i,
    {
        proof {
            let now = chars@.take(i + 1);
            let before = split_text(chars@.take(i as int), sep);
            assert(now.drop_last() == chars@.take(i as int));
            assert(now.last() == chars@[i as int]);
            assert(before.last() == chars@.subrange(start as int, i as int));
            assert(before.drop_last() == out.deep_view());
            assert(chars@.subrange(start as int, i as int).push(chars@[i as int])
                == chars@.subrange(start as int, i + 1));
        }
        if chars[i] == sep {
            let field = string_of(chars, start, i);
            let ghost prior = out.deep_view();
            out.push(field);
            start = i + 1;
            proof {
                assert(out.deep_view() == prior.push(field@));
                assert(chars@.subrange(start as int, start as int) == Seq::<char>::empty());
            }
        }
        i += 1;
    }
    let field = string_of(chars, start, i);
    let ghost prior = out.deep_view();
    out.push(field);
    proof {
        assert(out.deep_view() == prior.push(field@));
        assert(chars@.take(i as int) == chars@);
    }
    out
}

/// Whether `text` begins with `prefix`.
pub open spec fn begins_with(text: Seq<char>, prefix: Seq<char>) -> bool {
    prefix.len() <= text.len() && text.subrange(0, prefix.len() as int) == prefix
}

/// Whether `text` begins with `prefix`.
pub fn starts_with(text: &str, prefix: &str) -> (out: bool)
    ensures
        out == begins_with(text@, prefix@),
{
    let t = chars_of(text);
    let p = chars_of(prefix);
    if p.len() > t.len() {
        return false;
    }
    let mut i: usize = 0;
    while i < p.len()
        invariant
            i <= p.len() <= t.len(),
            t@ == text@,
            p@ == prefix@,
            t@.subrange(0, i as int) == p@.subrange(0, i as int),
        decreases p.len() - i,
    {
        if t[i] != p[i] {
            assert(t@.subrange(0, p.len() as int)[i as int] == t@[i as int]);
            assert(t@.subrange(0, p.len() as int) != p@);
            return false;
        }
        assert(t@.subrange(0, i + 1) == t@.subrange(0, i as int).push(t@[i as int]));
        assert(p@.subrange(0, i + 1) == p@.subrange(0, i as int).push(p@[i as int]));
        i += 1;
    }
    assert(p@.subrange(0, p.len() as int) == p@);
    true
}

/// Whether `c` occurs in `chars`.
pub fn contains_char(chars: &Vec<char>, c: char) -> (out: bool)
    ensures
        out == chars@.contains(c),
{
    let mut i: usize = 0;
    while i < chars.len()
        invariant
            i <= chars.len(),
            forall|j: int| 0 <= j < i ==> chars@[j] != c,
        decreases chars.len() - i,
    {
        if chars[i] == c {
            return true;
        }
        i += 1;
    }
    false
}

/// The string made of the characters `chars[from..to]`.
fn string_of(chars: &Vec<char>, from: usize, to: usize) -> (out: String)
    requires
        from <= to <= chars@.len(),
    ensures
        out@ == chars@.subrange(from as int, to as int),
{
    let mut out = String::new();
    let mut i: usize = from;
    while i < to
        invariant
            from <= i <= to <= chars@.len(),
            out@ == chars@.subrange(from as int, i as int),
        decreases to - i,
    {
        out.push(chars[i]);
        i += 1;
    }
    out
}

} // verus!
