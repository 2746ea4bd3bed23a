//! Text as sequences of characters: conversion between `String` and
//! `Vec<char>`, trimming, splitting on a separator and ASCII case folding.
//!
//! Every position in this crate counts characters, never bytes, so an edit at
//! a cursor position is defined for every text.

use vstd::prelude::*;

verus! {

/// `String::push` appends exactly one character to the end of the string.
pub assume_specification[ String::push ](s: &mut String, ch: char)
    ensures
        final(s)@ == old(s)@.push(ch),
;

/// The characters of `s`, in order.
pub fn to_chars(s: &str) -> (v: Vec<char>)
    ensures
        v@ == s@,
{
    let mut v: Vec<char> = Vec::new();
    for c in it: s.chars()
        invariant
            v@ == it.seq().take(it.index as int),
    {
        v.push(c);
    }
    v
}

/// The string made of the characters `v[from..to]`.
pub fn from_chars(v: &Vec<char>, from: usize, to: usize) -> (s: String)
    requires
        from <= to <= v.len(),
    ensures
        s@ == v@.subrange(from as int, to as int),
{
    let mut s = String::new();
    let mut i: usize = from;
    while i < to
        invariant
            from <= i <= to <= v.len(),
            s@ == v@.subrange(from as int, i as int),
        decreases to - i,
    {
        s.push(v[i]);
        i += 1;
    }
    s
}

/// `s` with `c` put in before the character at position `at`.
pub fn insert_char(s: &str, at: usize, c: char) -> (r: String)
    requires
        at <= s@.len(),
    ensures
        r@ == s@.insert(at as int, c),
        r@.len() <= usize::MAX,
{
    let mut v = to_chars(s);
    v.insert(at, c);
    let n = v.len();
    let r = from_chars(&v, 0, n);
    assert(v@.subrange(0, n as int) =~= v@);
    r
}

/// `s` without the character at position `at`.
pub fn remove_char(s: &str, at: usize) -> (r: String)
    requires
        at < s@.len(),
    ensures
        r@ == s@.remove(at as int),
{
    let mut v = to_chars(s);
    v.remove(at);
    let n = v.len();
    let r = from_chars(&v, 0, n);
    assert(v@.subrange(0, n as int) =~= v@);
    r
}

/// The characters with the Unicode property `White_Space`.
pub open spec fn is_whitespace(c: char) -> bool {
    let n = c as u32;
    ||| 0x09 <= n <= 0x0D
    ||| n == 0x20
    ||| n == 0x85
    ||| n == 0xA0
    ||| n == 0x1680
    ||| 0x2000 <= n <= 0x200A
    ||| n == 0x2028
    ||| n == 0x2029
    ||| n == 0x202F
    ||| n == 0x205F
    ||| n == 0x3000
}

pub fn char_is_whitespace(c: char) -> (b: bool)
    ensures
        b == is_whitespace(c),
{
    let n: u32 = c as u32;
    (0x09 <= n && n <= 0x0D) || n == 0x20 || n == 0x85 || n == 0xA0 || n == 0x1680 || (0x2000 <= n
        && n <= 0x200A) || n == 0x2028 || n == 0x2029 || n == 0x202F || n == 0x205F || n == 0x3000
}

/// `s` without its leading whitespace.
pub open spec fn trim_start(s: Seq<char>) -> Seq<char>
    decreases s.len(),
{
    if s.len() > 0 && is_whitespace(s[0]) {
        trim_start(s.drop_first())
    } else {
        s
    }
}

/// `s` without its trailing whitespace.
pub open spec fn trim_end(s: Seq<char>) -> Seq<char>
    decreases s.len(),
{
    if s.len() > 0 && is_whitespace(s.last()) {
        trim_end(s.drop_last())
    } else {
        s
    }
}

/// `s` without leading and trailing whitespace.
pub open spec fn trim(s: Seq<char>) -> Seq<char> {
    trim_end(trim_start(s))
}

/// The bounds of `trim(v[from..to])` inside `v`.
pub fn trim_bounds(v: &Vec<char>, from: usize, to: usize) -> (r: (usize, usize))
    requires
        from <= to <= v.len(),
    ensures
        from <= r.0 <= r.1 <= to,
        v@.subrange(r.0 as int, r.1 as int) == trim(v@.subrange(from as int, to as int)),
{
    let mut start: usize = from;
    while start < to && char_is_whitespace(v[start])
        invariant
            from <= start <= to <= v.len(),
            trim_start(v@.subrange(from as int, to as int)) == trim_start(
                v@.subrange(start as int, to as int),
            ),
        decreases to - start,
    {
        assert(v@.subrange(start as int, to as int).drop_first() =~= v@.subrange(
            start as int + 1,
            to as int,
        ));
        start += 1;
    }
    let mut end: usize = to;
    while start < end && char_is_whitespace(v[end - 1])
        invariant
            start <= end <= to <= v.len(),
            trim_end(v@.subrange(start as int, to as int)) == trim_end(
                v@.subrange(start as int, end as int),
            ),
        decreases end - start,
    {
        assert(v@.subrange(start as int, end as int).drop_last() =~= v@.subrange(
            start as int,
            end as int - 1,
        ));
        end -= 1;
    }
    (start, end)
}

/// The pieces of `s` between the occurrences of `sep`, scanning from
/// position `i` with the current piece starting at `start`.
pub open spec fn split_from(s: Seq<char>, sep: char, start: int, i: int) -> Seq<Seq<char>>
    decreases s.len() - i,
{
    if i >= s.len() {
        seq![s.subrange(start, s.len() as int)]
    } else if s[i] == sep {
        seq![s.subrange(start, i)] + split_from(s, sep, i + 1, i + 1)
    } else {
        split_from(s, sep, start, i + 1)
    }
}

/// The pieces of `s` between the occurrences of `sep`: one more piece than
/// there are separators, empty pieces included.
pub open spec fn split(s: Seq<char>, sep: char) -> Seq<Seq<char>> {
    split_from(s, sep, 0, 0)
}

/// The pieces of `v` between the occurrences of `sep`, each without its
/// leading and trailing whitespace.
pub fn split_trimmed(v: &Vec<char>, sep: char) -> (r: Vec<String>)
    ensures
        r@.len() == split(v@, sep).len(),
        forall|k: int| 0 <= k < r@.len() ==> (#[trigger] r@[k])@ == trim(split(v@, sep)[k]),
{
    let n = v.len();
    let mut r: Vec<String> = Vec::new();
    let mut start: usize = 0;
    let mut i: usize = 0;
    let ghost mut done: Seq<Seq<char>> = Seq::empty();
    while i < n
        invariant
            n == v.len(),
            start <= i <= n,
            split(v@, sep) == done + split_from(v@, sep, start as int, i as int),
            r@.len() == done.len(),
            forall|k: int| 0 <= k < r@.len() ==> (#[trigger] r@[k])@ == trim(done[k]),
        decreases n - i,
    {
        if v[i] == sep {
            let (a, b) = trim_bounds(v, start, i);
            let piece = from_chars(v, a, b);
            r.push(piece);
            proof {
                let next = done.push(v@.subrange(start as int, i as int));
                assert(split(v@, sep) =~= next + split_from(v@, sep, i as int + 1, i as int + 1));
                done = next;
            }
            start = i + 1;
        }
        i += 1;
    }
    let (a, b) = trim_bounds(v, start, n);
    let piece = from_chars(v, a, b);
    r.push(piece);
    proof {
        let all = done.push(v@.subrange(start as int, n as int));
        assert(split(v@, sep) =~= all);
    }
    r
}

/// `pieces` put together again with `sep` between neighbours.
pub open spec fn join(pieces: Seq<Seq<char>>, sep: char) -> Seq<char>
    decreases pieces.len(),
{
    if pieces.len() == 0 {
        Seq::empty()
    } else if pieces.len() == 1 {
        pieces[0]
    } else {
        pieces[0] + seq![sep] + join(pieces.drop_first(), sep)
    }
}

/// The pieces found from a piece start on make up the rest of the text
/// when joined, and none of them holds the separator.
proof fn lemma_split_from(s: Seq<char>, sep: char, start: int, i: int)
    requires
        0 <= start <= i <= s.len(),
        forall|j: int| start <= j < i ==> s[j] != sep,
    ensures
        split_from(s, sep, start, i).len() >= 1,
        join(split_from(s, sep, start, i), sep) == s.subrange(start, s.len() as int),
        forall|k: int|
            0 <= k < split_from(s, sep, start, i).len() ==> !(#[trigger] split_from(
                s,
                sep,
                start,
                i,
            )[k]).contains(sep),
    decreases s.len() - i,
{
    let pieces = split_from(s, sep, start, i);
    if i >= s.len() {
        assert(join(pieces, sep) == pieces[0]);
    } else if s[i] == sep {
        let rest = split_from(s, sep, i + 1, i + 1);
        lemma_split_from(s, sep, i + 1, i + 1);
        assert(pieces.drop_first() =~= rest);
        assert(join(pieces, sep) == pieces[0] + seq![sep] + join(rest, sep));
        assert(s.subrange(start, i) + seq![sep] + s.subrange(i + 1, s.len() as int)
            =~= s.subrange(start, s.len() as int));
        assert forall|k: int| 0 <= k < pieces.len() implies !(#[trigger] pieces[k]).contains(
            sep,
        ) by {
            if k > 0 {
                assert(pieces[k] == rest[k - 1]);
            }
        }
    } else {
        lemma_split_from(s, sep, start, i + 1);
    }
}

/// Splitting loses nothing: the pieces joined with the separator are the
/// text again, there is at least one piece, and no piece holds the
/// separator.
pub proof fn lemma_split_then_join(s: Seq<char>, sep: char)
    ensures
        split(s, sep).len() >= 1,
        join(split(s, sep), sep) == s,
        forall|k: int| 0 <= k < split(s, sep).len() ==> !(#[trigger] split(s, sep)[k]).contains(sep),
{
    lemma_split_from(s, sep, 0, 0);
    assert(s.subrange(0, s.len() as int) =~= s);
}

/// The lower-case form of an ASCII capital letter; every other character
/// is left alone.
pub open spec fn ascii_lower(c: char) -> char {
    if 'A' <= c <= 'Z' {
        ((c as u32 + 32) as u8) as char
    } else {
        c
    }
}

pub fn char_ascii_lower(c: char) -> (r: char)
    ensures
        r == ascii_lower(c),
{
    let n: u32 = c as u32;
    if 65 <= n && n <= 90 {
        ((n + 32) as u8) as char
    } else {
        c
    }
}

/// `s` with every ASCII capital letter in lower case.
pub open spec fn ascii_lowercase(s: Seq<char>) -> Seq<char> {
    Seq::new(s.len(), |i: int| ascii_lower(s[i]))
}

/// Whether `v` and `word` are the same text when ASCII letter case is ignored
/// in `v`.
pub fn lowercase_equals(v: &Vec<char>, word: &str) -> (b: bool)
    ensures
        b == (ascii_lowercase(v@) == word@),
{
    let w = to_chars(word);
    if v.len() != w.len() {
        return false;
    }
    let mut i: usize = 0;
    while i < v.len()
        invariant
            i <= v.len(),
            v.len() == w.len(),
            w@ == word@,
            ascii_lowercase(v@).take(i as int) == w@.take(i as int),
        decreases v.len() - i,
    {
        if char_ascii_lower(v[i]) != w[i] {
            assert(ascii_lowercase(v@)[i as int] != w@[i as int]);
            return false;
        }
        assert(ascii_lowercase(v@).take(i as int + 1) =~= ascii_lowercase(v@).take(i as int).push(
            ascii_lowercase(v@)[i as int],
        ));
        assert(w@.take(i as int + 1) =~= w@.take(i as int).push(w@[i as int]));
        i += 1;
    }
    assert(ascii_lowercase(v@).take(i as int) =~= ascii_lowercase(v@));
    assert(w@.take(i as int) =~= w@);
    true
}

} // verus!
