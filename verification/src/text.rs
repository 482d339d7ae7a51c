//! Character-level text primitives.
//!
//! Every string is modelled by its view, the sequence of its characters.
//! Positions are character positions, never byte offsets, so text outside
//! ASCII needs no special care.

use vstd::prelude::*;

verus! {

/// `needle` occurs in `hay` starting at character position `at`.
pub open spec fn occurs_at(hay: Seq<char>, needle: Seq<char>, at: int) -> bool {
    &&& 0 <= at
    &&& at + needle.len() <= hay.len()
    &&& hay.subrange(at, at + needle.len()) == needle
}

/// `needle` occurs somewhere in `hay` as a run of consecutive characters.
pub open spec fn is_substring(hay: Seq<char>, needle: Seq<char>) -> bool {
    exists|at: int| occurs_at(hay, needle, at)
}

/// Position of the first occurrence of `c` in `s`, if there is one.
pub open spec fn first_index_of(s: Seq<char>, c: char) -> Option<int> {
    if s.contains(c) {
        Some(choose|i: int| 0 <= i < s.len() && s[i] == c && !s.take(i).contains(c))
    } else {
        None
    }
}

/// `s` with `to` put in the place of every occurrence of the character
/// `from`.
pub open spec fn replace_each(s: Seq<char>, from: char, to: Seq<char>) -> Seq<char>
    decreases s.len(),
{
    if s.len() == 0 {
        Seq::empty()
    } else if s.last() == from {
        replace_each(s.drop_last(), from, to) + to
    } else {
        replace_each(s.drop_last(), from, to).push(s.last())
    }
}

/// The first occurrence of a character that occurs is well defined: it is a
/// position holding the character with no occurrence before it, and it is the
/// only such position.
pub proof fn lemma_first_index_of(s: Seq<char>, c: char)
    ensures
        match first_index_of(s, c) {
            Some(i) => 0 <= i < s.len() && s[i] == c && !s.take(i).contains(c),
            None => !s.contains(c),
        },
        forall|j: int|
            0 <= j < s.len() && s[j] == c && !s.take(j).contains(c) ==> first_index_of(s, c)
                == Some(j),
{
    if s.contains(c) {
        let k = choose|k: int| 0 <= k < s.len() && s[k] == c;
        lemma_least_occurrence(s, c, k);
        let i = choose|i: int| 0 <= i < s.len() && s[i] == c && !s.take(i).contains(c);
        assert forall|j: int| 0 <= j < s.len() && s[j] == c && !s.take(j).contains(c) implies j
            == i by {
            if j < i {
                assert(s.take(i)[j] == c);
            } else if i < j {
                assert(s.take(j)[i] == c);
            }
        }
    } else {
        assert forall|j: int| 0 <= j < s.len() implies s[j] != c by {
            if s[j] == c {
                assert(s.contains(c));
            }
        }
    }
}

proof fn lemma_least_occurrence(s: Seq<char>, c: char, k: int)
    requires
        0 <= k < s.len(),
        s[k] == c,
    ensures
        exists|i: int| 0 <= i < s.len() && s[i] == c && !s.take(i).contains(c),
    decreases k,
{
    if s.take(k).contains(c) {
        let j = choose|j: int| 0 <= j < s.take(k).len() && s.take(k)[j] == c;
        assert(s[j] == c);
        lemma_least_occurrence(s, c, j);
    }
}

/// Copies the characters of `s` into a vector, one element per character.
pub fn to_chars(s: &str) -> (out: Vec<char>)
    ensures
        out@ == s@,
{
    let mut out: Vec<char> = Vec::new();
    for c in iter: s.chars()
        invariant
            out@ == iter.seq().take(iter.index() as int),
            iter.seq() == s@,
    {
        out.push(c);
    }
    out
}

/// Whether two strings hold the same characters.
pub fn same_text(a: &str, b: &str) -> (same: bool)
    ensures
        same == (a@ == b@),
{
    let x = to_chars(a);
    let y = to_chars(b);
    if x.len() != y.len() {
        return false;
    }
    let mut i: usize = 0;
    while i < x.len()
        invariant
            x@ == a@,
            y@ == b@,
            x.len() == y.len(),
            i <= x.len(),
            x@.take(i as int) == y@.take(i as int),
        decreases x.len() - i,
    {
        if x[i] != y[i] {
            assert(x@[i as int] != y@[i as int]);
            return false;
        }
        assert(x@.take(i + 1) == x@.take(i as int).push(x@[i as int]));
        assert(y@.take(i + 1) == y@.take(i as int).push(y@[i as int]));
        i += 1;
    }
    assert(x@ == x@.take(x.len() as int));
    assert(y@ == y@.take(y.len() as int));
    true
}

/// Whether `needle` occurs in `hay` at character position `at`.
fn matches_at(hay: &Vec<char>, needle: &Vec<char>, at: usize) -> (hit: bool)
    requires
        at + needle.len() <= hay.len(),
    ensures
        hit == occurs_at(hay@, needle@, at as int),
{
    let mut j: usize = 0;
    while j < needle.len()
        invariant
            at + needle.len() <= hay.len(),
            j <= needle.len(),
            hay@.subrange(at as int, at + j) == needle@.take(j as int),
        decreases needle.len() - j,
    {
        if hay[at + j] != needle[j] {
            assert(hay@.subrange(at as int, at + needle.len())[j as int] != needle@[j as int]);
            return false;
        }
        assert(hay@.subrange(at as int, at + j + 1) == hay@.subrange(at as int, at + j).push(
            hay@[at + j],
        ));
        assert(needle@.take(j + 1) == needle@.take(j as int).push(needle@[j as int]));
        j += 1;
    }
    assert(needle@ == needle@.take(needle.len() as int));
    true
}

/// Whether `needle` occurs in `hay`; both are given as characters.
pub fn contains_chars(hay: &Vec<char>, needle: &Vec<char>) -> (found: bool)
    ensures
        found == is_substring(hay@, needle@),
{
    if needle.len() > hay.len() {
        return false;
    }
    let last: usize = hay.len() - needle.len();
    let mut at: usize = 0;
    loop
        invariant
            last == hay.len() - needle.len(),
            at <= last,
            forall|k: int| 0 <= k < at ==> !occurs_at(hay@, needle@, k),
        decreases last - at,
    {
        if matches_at(hay, needle, at) {
            return true;
        }
        if at == last {
            return false;
        }
        at += 1;
    }
}

/// Whether `needle` occurs in `hay` as a run of consecutive characters.
pub fn contains_text(hay: &str, needle: &str) -> (found: bool)
    ensures
        found == is_substring(hay@, needle@),
{
    let h = to_chars(hay);
    let n = to_chars(needle);
    contains_chars(&h, &n)
}

/// Character position of the first occurrence of `c` in `s`.
pub fn find_char(s: &Vec<char>, c: char) -> (at: Option<usize>)
    ensures
        match at {
            Some(i) => first_index_of(s@, c) == Some(i as int),
            None => first_index_of(s@, c).is_none(),
        },
{
    let mut i: usize = 0;
    while i < s.len()
        invariant
            i <= s.len(),
            !s@.take(i as int).contains(c),
        decreases s.len() - i,
    {
        if s[i] == c {
            proof {
                lemma_first_index_of(s@, c);
            }
            return Some(i);
        }
        assert(s@.take(i + 1) == s@.take(i as int).push(s@[i as int]));
        i += 1;
    }
    assert(s@ == s@.take(s.len() as int));
    None
}

/// A stretch of text without the character stays as it is.
proof fn lemma_replace_each_run(s: Seq<char>, from: char, to: Seq<char>, start: int, end: int)
    requires
        0 <= start <= end <= s.len(),
        forall|k: int| start <= k < end ==> s[k] != from,
    ensures
        replace_each(s.take(end), from, to) == replace_each(s.take(start), from, to) + s.subrange(
            start,
            end,
        ),
    decreases end - start,
{
    if start == end {
        assert(s.subrange(start, end) == Seq::<char>::empty());
        assert(replace_each(s.take(start), from, to) + Seq::<char>::empty() == replace_each(
            s.take(start),
            from,
            to,
        ));
    } else {
        lemma_replace_each_run(s, from, to, start, end - 1);
        assert(s.take(end).drop_last() == s.take(end - 1));
        assert(s.take(end).last() == s[end - 1]);
        assert((replace_each(s.take(start), from, to) + s.subrange(start, end - 1)).push(
            s[end - 1],
        ) == replace_each(s.take(start), from, to) + s.subrange(start, end));
    }
}

/// A copy of `s` with `to` put in the place of every occurrence of the
/// character `from`.
pub fn replace_char(s: &str, from: char, to: &str) -> (out: String)
    ensures
        out@ == replace_each(s@, from, to@),
{
    let chars = to_chars(s);
    let mut out = String::new();
    let mut start: usize = 0;
    let mut i: usize = 0;
    while i < chars.len()
        invariant
            chars@ == s@,
            start <= i <= chars.len(),
            forall|k: int| start <= k < i ==> chars[k] != from,
            out@ == replace_each(s@.take(start as int), from, to@),
        decreases chars.len() - i,
    {
        if chars[i] == from {
            proof {
                lemma_replace_each_run(s@, from, to@, start as int, i as int);
                assert(s@.take(i + 1).drop_last() == s@.take(i as int));
            }
            out.append(s.substring_char(start, i));
            out.append(to);
            start = i + 1;
        }
        i += 1;
    }
    proof {
        lemma_replace_each_run(s@, from, to@, start as int, i as int);
        assert(s@.take(i as int) == s@);
    }
    out.append(s.substring_char(start, i));
    out
}

} // verus!
