//! Text as sequences of characters: conversion, search and replacement.

use vstd::prelude::*;

verus! {

/// `String::push` appends one character to the string.
pub assume_specification[ String::push ](s: &mut String, c: char)
    ensures
        final(s)@ == old(s)@.push(c),
;

/// The characters of `s`, in order.
pub fn to_chars(s: &str) -> (chars: Vec<char>)
    ensures
        chars@ == s@,
{
    let mut chars: Vec<char> = Vec::new();
    for c in it: s.chars()
        invariant
            it.seq() == s@,
            chars@ == it.seq().take(it.index()),
    {
        chars.push(c);
    }
    chars
}

/// The string made of `chars`, in order.
pub fn from_chars(chars: &Vec<char>) -> (s: String)
    ensures
        s@ == chars@,
{
    let mut s = String::new();
    let mut i: usize = 0;
    while i < chars.len()
        invariant
            i <= chars.len(),
            s@ == chars@.take(i as int),
        decreases chars.len() - i,
    {
        s.push(chars[i]);
        i = i + 1;
    }
    s
}

/// Appends `more` to `out`.
pub fn append_chars(out: &mut Vec<char>, more: &Vec<char>)
    ensures
        final(out)@ == old(out)@ + more@,
{
    let mut i: usize = 0;
    while i < more.len()
        invariant
            i <= more.len(),
            out@ == old(out)@ + more@.take(i as int),
        decreases more.len() - i,
    {
        out.push(more[i]);
        i = i + 1;
    }
}

/// Whether `a` and `b` hold the same characters.
pub fn same_chars(a: &Vec<char>, b: &Vec<char>) -> (same: bool)
    ensures
        same == (a@ == b@),
{
    if a.len() != b.len() {
        return false;
    }
    let mut i: usize = 0;
    while i < a.len()
        invariant
            i <= a.len(),
            a.len() == b.len(),
            a@.take(i as int) == b@.take(i as int),
        decreases a.len() - i,
    {
        if a[i] != b[i] {
            return false;
        }
        proof {
            assert(a@.take(i + 1) == a@.take(i as int).push(a@[i as int]));
            assert(b@.take(i + 1) == b@.take(i as int).push(b@[i as int]));
        }
        i = i + 1;
    }
    proof {
        assert(a@.take(a.len() as int) == a@);
        assert(b@.take(b.len() as int) == b@);
    }
    true
}

/// Whether `chars` spells the text `word`.
pub fn spells(chars: &Vec<char>, word: &str) -> (same: bool)
    ensures
        same == (chars@ == word@),
{
    let other = to_chars(word);
    same_chars(chars, &other)
}

/// Whether `pattern` stands in `s` at position `at`.
pub open spec fn occurs_at(s: Seq<char>, pattern: Seq<char>, at: int) -> bool {
    &&& 0 <= at
    &&& at + pattern.len() <= s.len()
    &&& s.subrange(at, at + pattern.len()) == pattern
}

/// Whether `pattern` stands in `s` at position `at`.
pub fn occurs_at_index(s: &Vec<char>, pattern: &Vec<char>, at: usize) -> (found: bool)
    ensures
        found == occurs_at(s@, pattern@, at as int),
{
    if pattern.len() > s.len() || at > s.len() - pattern.len() {
        return false;
    }
    let mut k: usize = 0;
    while k < pattern.len()
        invariant
            k <= pattern.len(),
            at + pattern.len() <= s.len(),
            forall|j: int| 0 <= j < k ==> s@[at + j] == pattern@[j],
        decreases pattern.len() - k,
    {
        if s[at + k] != pattern[k] {
            proof {
                let window = s@.subrange(at as int, at + pattern.len());
                assert(window[k as int] == s@[at + k]);
            }
            return false;
        }
        k = k + 1;
    }
    proof {
        assert(s@.subrange(at as int, at + pattern.len()) =~= pattern@);
    }
    true
}

/// The first position from `from` on at which `pattern` stands in `s`.
pub open spec fn first_occurrence_from(s: Seq<char>, pattern: Seq<char>, from: int) -> Option<int>
    decreases s.len() - from,
{
    if from < 0 || from + pattern.len() > s.len() {
        None
    } else if occurs_at(s, pattern, from) {
        Some(from)
    } else if from >= s.len() {
        None
    } else {
        first_occurrence_from(s, pattern, from + 1)
    }
}

/// The first position at which `pattern` stands in `s`.
pub open spec fn first_occurrence(s: Seq<char>, pattern: Seq<char>) -> Option<int> {
    first_occurrence_from(s, pattern, 0)
}

/// The first occurrence is an occurrence, none stands before it, and where
/// there is no first occurrence there is none at all.
pub proof fn lemma_first_occurrence(s: Seq<char>, pattern: Seq<char>, from: int)
    requires
        0 <= from,
    ensures
        match first_occurrence_from(s, pattern, from) {
            Some(at) => from <= at && occurs_at(s, pattern, at) && forall|j: int|
                from <= j < at ==> !occurs_at(s, pattern, j),
            None => forall|j: int| from <= j ==> !occurs_at(s, pattern, j),
        },
    decreases s.len() - from,
{
    if from + pattern.len() <= s.len() && !occurs_at(s, pattern, from) && from < s.len() {
        lemma_first_occurrence(s, pattern, from + 1);
    }
}

/// The first position at which `pattern` stands in `s`.
pub fn find_first(s: &Vec<char>, pattern: &Vec<char>) -> (found: Option<usize>)
    ensures
        match found {
            Some(at) => first_occurrence(s@, pattern@) == Some(at as int),
            None => first_occurrence(s@, pattern@) is None,
        },
{
    if pattern.len() > s.len() {
        return None;
    }
    let last: usize = s.len() - pattern.len();
    let mut i: usize = 0;
    loop
        invariant
            i <= last,
            last == s.len() - pattern.len(),
            first_occurrence(s@, pattern@) == first_occurrence_from(s@, pattern@, i as int),
        decreases last - i,
    {
        if occurs_at_index(s, pattern, i) {
            return Some(i);
        }
        if i >= last {
            assert(first_occurrence_from(s@, pattern@, i + 1) is None);
            return None;
        }
        i = i + 1;
    }
}

/// `s` with every occurrence of `pattern` from `from` on replaced by `with`,
/// the occurrences taken from left to right and never overlapping. An empty
/// pattern stands before every character and at the end.
pub open spec fn replaced_from(s: Seq<char>, pattern: Seq<char>, with: Seq<char>, from: int) -> Seq<
    char,
>
    decreases s.len() - from,
{
    if from < 0 || from >= s.len() {
        if pattern.len() == 0 {
            with
        } else {
            Seq::empty()
        }
    } else if pattern.len() == 0 {
        with + seq![s[from]] + replaced_from(s, pattern, with, from + 1)
    } else if occurs_at(s, pattern, from) {
        with + replaced_from(s, pattern, with, from + pattern.len())
    } else {
        seq![s[from]] + replaced_from(s, pattern, with, from + 1)
    }
}

/// `s` with every occurrence of `pattern` replaced by `with`.
pub open spec fn replaced(s: Seq<char>, pattern: Seq<char>, with: Seq<char>) -> Seq<char> {
    replaced_from(s, pattern, with, 0)
}

/// From a position on from which the pattern does not occur, the text is
/// left as it is.
proof fn lemma_replaced_from_without_occurrence(
    s: Seq<char>,
    pattern: Seq<char>,
    with: Seq<char>,
    from: int,
)
    requires
        0 <= from <= s.len(),
        pattern.len() > 0,
        forall|j: int| from <= j ==> !occurs_at(s, pattern, j),
    ensures
        replaced_from(s, pattern, with, from) == s.skip(from),
    decreases s.len() - from,
{
    if from < s.len() {
        lemma_replaced_from_without_occurrence(s, pattern, with, from + 1);
        assert(s.skip(from) =~= seq![s[from]] + s.skip(from + 1));
    } else {
        assert(s.skip(from) =~= Seq::<char>::empty());
    }
}

/// A text in which the pattern does not occur is left as it is.
pub proof fn lemma_replaced_without_occurrence(s: Seq<char>, pattern: Seq<char>, with: Seq<char>)
    requires
        forall|j: int| !#[trigger] occurs_at(s, pattern, j),
    ensures
        replaced(s, pattern, with) == s,
{
    if pattern.len() == 0 {
        assert(s.subrange(0, 0) =~= pattern);
        assert(occurs_at(s, pattern, 0));
    } else {
        lemma_replaced_from_without_occurrence(s, pattern, with, 0);
        assert(s.skip(0) =~= s);
    }
}

/// `s` with every occurrence of `pattern` replaced by `with`.
pub fn replace_chars(s: &Vec<char>, pattern: &Vec<char>, with: &Vec<char>) -> (out: Vec<char>)
    ensures
        out@ == replaced(s@, pattern@, with@),
{
    let mut out: Vec<char> = Vec::new();
    let mut i: usize = 0;
    while i < s.len()
        invariant
            i <= s.len(),
            out@ + replaced_from(s@, pattern@, with@, i as int) == replaced(s@, pattern@, with@),
        decreases s.len() - i,
    {
        let ghost before = out@;
        let ghost rest = replaced_from(s@, pattern@, with@, i as int);
        if pattern.len() == 0 {
            append_chars(&mut out, with);
            out.push(s[i]);
            proof {
                let next = replaced_from(s@, pattern@, with@, i + 1);
                assert(out@ + next =~= before + (with@ + seq![s@[i as int]] + next));
            }
            i = i + 1;
        } else if occurs_at_index(s, pattern, i) {
            append_chars(&mut out, with);
            proof {
                let next = replaced_from(s@, pattern@, with@, i + pattern.len());
                assert(out@ + next =~= before + (with@ + next));
            }
            i = i + pattern.len();
        } else {
            out.push(s[i]);
            proof {
                let next = replaced_from(s@, pattern@, with@, i + 1);
                assert(out@ + next =~= before + (seq![s@[i as int]] + next));
            }
            i = i + 1;
        }
    }
    let ghost before = out@;
    if pattern.len() == 0 {
        append_chars(&mut out, with);
    }
    proof {
        assert(out@ =~= before + replaced_from(s@, pattern@, with@, i as int));
    }
    out
}

/// `text` with every occurrence of `pattern` replaced by `with`, the
/// occurrences taken from left to right and never overlapping.
pub fn replace_all(text: &str, pattern: &str, with: &str) -> (out: String)
    ensures
        out@ == replaced(text@, pattern@, with@),
{
    let s = to_chars(text);
    let p = to_chars(pattern);
    let w = to_chars(with);
    let r = replace_chars(&s, &p, &w);
    from_chars(&r)
}

} // verus!
