//! Character sequences: conversion from and to strings, comparison,
//! splitting at a separator or at white space, and search.

use vstd::prelude::*;
use vstd::std_specs::iter::IteratorSpec;

verus! {

/// `String::push` appends one character at the end of the string.
pub assume_specification[ String::push ](s: &mut String, ch: char)
    ensures
        final(s)@ == old(s)@.push(ch),
;

/// The characters of `text`, in order.
pub fn to_chars(text: &str) -> (chars: Vec<char>)
    ensures
        chars@ == text@,
{
    let mut chars: Vec<char> = Vec::new();
    for ch in it: text.chars()
        invariant
            it.seq() == text@,
            chars@ == it.history(),
    {
        chars.push(ch);
    }
    assert(chars@ =~= text@);
    chars
}

/// The string made of `chars`, in order.
pub fn from_chars(chars: &Vec<char>) -> (text: String)
    ensures
        text@ == chars@,
{
    let mut text = String::new();
    let mut i: usize = 0;
    while i < chars.len()
        invariant
            i <= chars.len(),
            text@ == chars@.subrange(0, i as int),
        decreases chars.len() - i,
    {
        text.push(chars[i]);
        i += 1;
    }
    text
}

/// Two characters with the same code point are the same character.
pub proof fn lemma_code_point_injective(c: char, d: char)
    requires
        c as u32 == d as u32,
    ensures
        c == d,
{
}

/// The first index from `from` on at which `text` holds `sep`, or the
/// length of `text` if there is none.
pub open spec fn find_char(text: Seq<char>, sep: char, from: int) -> int
    decreases text.len() - from,
{
    if from >= text.len() {
        text.len() as int
    } else if text[from] == sep {
        from
    } else {
        find_char(text, sep, from + 1)
    }
}

/// `find_char` returns an index between `from` and the length; `sep` stands
/// there unless it is the length, and nowhere between `from` and it.
pub proof fn lemma_find_char(text: Seq<char>, sep: char, from: int)
    requires
        0 <= from <= text.len(),
    ensures
        from <= find_char(text, sep, from) <= text.len(),
        find_char(text, sep, from) < text.len() ==> text[find_char(text, sep, from)] == sep,
        forall|i: int| from <= i < find_char(text, sep, from) ==> text[i] != sep,
    decreases text.len() - from,
{
    if from < text.len() && text[from] != sep {
        lemma_find_char(text, sep, from + 1);
    }
}

/// The pieces into which the occurrences of `sep` from index `from` on cut
/// the rest of `text`. There is always at least one piece; a separator at
/// the very end is followed by an empty piece.
pub open spec fn split_from(text: Seq<char>, sep: char, from: int) -> Seq<Seq<char>>
    decreases text.len() - from,
{
    let end = find_char(text, sep, from);
    if 0 <= from <= end < text.len() {
        seq![text.subrange(from, end)] + split_from(text, sep, end + 1)
    } else if 0 <= from <= text.len() {
        seq![text.subrange(from, text.len() as int)]
    } else {
        seq![Seq::empty()]
    }
}

/// The pieces into which the occurrences of `sep` cut `text`.
pub open spec fn split_on(text: Seq<char>, sep: char) -> Seq<Seq<char>> {
    split_from(text, sep, 0)
}

/// The character sequences that `pieces` holds.
pub open spec fn pieces_view(pieces: Seq<Vec<char>>) -> Seq<Seq<char>> {
    pieces.map_values(|piece: Vec<char>| piece@)
}

/// The first index from `from` on at which `chars` holds `sep`, or the
/// length of `chars`.
pub(crate) fn find(chars: &Vec<char>, sep: char, from: usize) -> (at: usize)
    requires
        from <= chars.len(),
    ensures
        at == find_char(chars@, sep, from as int),
        from <= at <= chars.len(),
{
    let mut at: usize = from;
    while at < chars.len() && chars[at] != sep
        invariant
            from <= at <= chars.len(),
            find_char(chars@, sep, from as int) == find_char(chars@, sep, at as int),
        decreases chars.len() - at,
    {
        at += 1;
    }
    at
}

/// A copy of the characters of `chars` from index `from` up to `to`.
pub(crate) fn slice(chars: &Vec<char>, from: usize, to: usize) -> (piece: Vec<char>)
    requires
        from <= to <= chars.len(),
    ensures
        piece@ == chars@.subrange(from as int, to as int),
{
    let mut piece: Vec<char> = Vec::new();
    let mut i: usize = from;
    while i < to
        invariant
            from <= i <= to <= chars.len(),
            piece@ == chars@.subrange(from as int, i as int),
        decreases to - i,
    {
        piece.push(chars[i]);
        i += 1;
        assert(piece@ =~= chars@.subrange(from as int, i as int));
    }
    piece
}

/// Cuts `chars` at every occurrence of `sep`.
pub fn split(chars: &Vec<char>, sep: char) -> (pieces: Vec<Vec<char>>)
    ensures
        pieces_view(pieces@) == split_on(chars@, sep),
        pieces@.len() >= 1,
{
    let mut pieces: Vec<Vec<char>> = Vec::new();
    let mut from: usize = 0;
    loop
        invariant_except_break
            from <= chars.len(),
            split_on(chars@, sep) == pieces_view(pieces@) + split_from(chars@, sep, from as int),
        ensures
            pieces_view(pieces@) == split_on(chars@, sep),
            pieces@.len() >= 1,
        decreases chars.len() - from,
    {
        let end = find(chars, sep, from);
        let piece = slice(chars, from, end);
        let ghost before = pieces_view(pieces@);
        pieces.push(piece);
        assert(pieces_view(pieces@) =~= before + seq![chars@.subrange(from as int, end as int)]);
        if end < chars.len() {
            assert(split_on(chars@, sep) =~= pieces_view(pieces@) + split_from(
                chars@,
                sep,
                end + 1,
            ));
            from = end + 1;
        } else {
            assert(split_on(chars@, sep) =~= pieces_view(pieces@));
            break ;
        }
    }
    pieces
}

/// Whether `a` and `b` hold the same characters.
pub fn same_chars(a: &Vec<char>, b: &Vec<char>) -> (same: bool)
    ensures
        same == (a@ == b@),
{
    if a.len() != b.len() {
        return false;
    }
    let mut i: usize = 0;
    while i < a.len()
        invariant
            i <= a.len(),
            a.len() == b.len(),
            a@.take(i as int) == b@.take(i as int),
        decreases a.len() - i,
    {
        if a[i] != b[i] {
            return false;
        }
        i += 1;
        assert(a@.take(i as int) =~= a@.take(i - 1).push(a@[i - 1]));
        assert(b@.take(i as int) =~= b@.take(i - 1).push(b@[i - 1]));
    }
    assert(a@ =~= a@.take(a.len() as int));
    assert(b@ =~= b@.take(b.len() as int));
    true
}

/// Whether `ch` is white space: a character with the Unicode property
/// `White_Space`.
pub open spec fn is_whitespace(ch: char) -> bool {
    let cp = ch as u32;
    ||| 0x09 <= cp <= 0x0D
    ||| cp == 0x20
    ||| cp == 0x85
    ||| cp == 0xA0
    ||| cp == 0x1680
    ||| 0x2000 <= cp <= 0x200A
    ||| cp == 0x2028
    ||| cp == 0x2029
    ||| cp == 0x202F
    ||| cp == 0x205F
    ||| cp == 0x3000
}

/// The first index from `from` on at which `text` holds a character that
/// is white space (`blank`) or is not (`!blank`), or the length of `text`.
pub open spec fn find_kind(text: Seq<char>, blank: bool, from: int) -> int
    decreases text.len() - from,
{
    if from >= text.len() {
        text.len() as int
    } else if is_whitespace(text[from]) == blank {
        from
    } else {
        find_kind(text, blank, from + 1)
    }
}

/// `find_kind` returns an index between `from` and the length; a
/// character of the kind asked for stands there unless it is the length,
/// and none between `from` and it.
pub proof fn lemma_find_kind(text: Seq<char>, blank: bool, from: int)
    requires
        0 <= from <= text.len(),
    ensures
        from <= find_kind(text, blank, from) <= text.len(),
        find_kind(text, blank, from) < text.len() ==> is_whitespace(
            text[find_kind(text, blank, from)],
        ) == blank,
        forall|i: int|
            from <= i < find_kind(text, blank, from) ==> is_whitespace(#[trigger] text[i])
                != blank,
    decreases text.len() - from,
{
    if from < text.len() && is_whitespace(text[from]) != blank {
        lemma_find_kind(text, blank, from + 1);
    }
}

/// Whether `text` holds nothing but white space.
pub open spec fn is_blank(text: Seq<char>) -> bool {
    find_kind(text, false, 0) >= text.len()
}

/// The words of `text` from index `from` on: the longest runs of
/// characters that are not white space, in order.
pub open spec fn words_from(text: Seq<char>, from: int) -> Seq<Seq<char>>
    decreases text.len() - from,
{
    let start = find_kind(text, false, from);
    let end = find_kind(text, true, start);
    if 0 <= from <= start < end <= text.len() {
        seq![text.subrange(start, end)] + words_from(text, end)
    } else {
        Seq::empty()
    }
}

/// The words of `text`.
pub open spec fn words(text: Seq<char>) -> Seq<Seq<char>> {
    words_from(text, 0)
}

/// The index behind the last character of `text` that is not white space,
/// or 0 if there is none.
pub open spec fn trimmed_end(text: Seq<char>) -> int
    decreases text.len(),
{
    if text.len() == 0 {
        0
    } else if is_whitespace(text.last()) {
        trimmed_end(text.drop_last())
    } else {
        text.len() as int
    }
}

/// The number of characters of `text` without the white space at its two
/// ends.
pub open spec fn trimmed_len(text: Seq<char>) -> int {
    let start = find_kind(text, false, 0);
    let end = trimmed_end(text);
    if start < end {
        end - start
    } else {
        0
    }
}

/// Whether `pattern` stands in `text` at index `at`.
pub open spec fn occurs_at(text: Seq<char>, pattern: Seq<char>, at: int) -> bool {
    0 <= at && at + pattern.len() <= text.len() && text.subrange(at, at + pattern.len())
        == pattern
}

/// The first index from `from` on at which `pattern` stands in `text`, or
/// the length of `text` if it stands nowhere from there on.
pub open spec fn find_text(text: Seq<char>, pattern: Seq<char>, from: int) -> int
    decreases text.len() - from,
{
    if from < 0 || from >= text.len() || from + pattern.len() > text.len() {
        text.len() as int
    } else if occurs_at(text, pattern, from) {
        from
    } else {
        find_text(text, pattern, from + 1)
    }
}

/// Whether `ch` is white space.
pub fn is_whitespace_char(ch: char) -> (blank: bool)
    ensures
        blank == is_whitespace(ch),
{
    let cp: u32 = ch as u32;
    (0x09 <= cp && cp <= 0x0D) || cp == 0x20 || cp == 0x85 || cp == 0xA0 || cp == 0x1680 || (
    0x2000 <= cp && cp <= 0x200A) || cp == 0x2028 || cp == 0x2029 || cp == 0x202F || cp == 0x205F
        || cp == 0x3000
}

/// The first index from `from` on at which `chars` holds white space
/// (`blank`) or something else (`!blank`), or the length of `chars`.
pub(crate) fn find_of_kind(chars: &Vec<char>, blank: bool, from: usize) -> (at: usize)
    requires
        from <= chars.len(),
    ensures
        at == find_kind(chars@, blank, from as int),
        from <= at <= chars.len(),
{
    let mut at: usize = from;
    while at < chars.len() && is_whitespace_char(chars[at]) != blank
        invariant
            from <= at <= chars.len(),
            find_kind(chars@, blank, from as int) == find_kind(chars@, blank, at as int),
        decreases chars.len() - at,
    {
        at += 1;
    }
    at
}

/// The words of `chars`.
pub fn split_words(chars: &Vec<char>) -> (pieces: Vec<Vec<char>>)
    ensures
        pieces_view(pieces@) == words(chars@),
{
    let mut pieces: Vec<Vec<char>> = Vec::new();
    let mut from: usize = 0;
    assert(pieces_view(pieces@) =~= Seq::<Seq<char>>::empty());
    loop
        invariant_except_break
            from <= chars.len(),
            words(chars@) == pieces_view(pieces@) + words_from(chars@, from as int),
        ensures
            pieces_view(pieces@) == words(chars@),
        decreases chars.len() - from,
    {
        let start = find_of_kind(chars, false, from);
        if start >= chars.len() {
            proof {
                lemma_find_kind(chars@, true, start as int);
                assert(words_from(chars@, from as int) =~= Seq::<Seq<char>>::empty());
                assert(words(chars@) =~= pieces_view(pieces@));
            }
            break ;
        }
        let end = find_of_kind(chars, true, start);
        proof {
            lemma_find_kind(chars@, false, from as int);
            lemma_find_kind(chars@, true, start as int);
        }
        let piece = slice(chars, start, end);
        let ghost before = pieces_view(pieces@);
        pieces.push(piece);
        assert(pieces_view(pieces@) =~= before + seq![chars@.subrange(start as int, end as int)]);
        assert(words(chars@) =~= pieces_view(pieces@) + words_from(chars@, end as int));
        from = end;
    }
    pieces
}

/// The number of characters of `chars` without the white space at its two
/// ends.
pub fn trimmed_length(chars: &Vec<char>) -> (n: usize)
    ensures
        n == trimmed_len(chars@),
{
    let start = find_of_kind(chars, false, 0);
    let mut end: usize = chars.len();
    assert(chars@.take(end as int) =~= chars@);
    while end > 0 && is_whitespace_char(chars[end - 1])
        invariant
            end <= chars.len(),
            trimmed_end(chars@) == trimmed_end(chars@.take(end as int)),
        decreases end,
    {
        assert(chars@.take(end as int).drop_last() =~= chars@.take(end - 1));
        end -= 1;
    }
    proof {
        if end > 0 {
            assert(chars@.take(end as int).last() == chars@[end - 1]);
        }
    }
    if start < end {
        end - start
    } else {
        0
    }
}

/// Whether `pattern` stands in `chars` at index `at`.
pub fn stands_at(chars: &Vec<char>, pattern: &Vec<char>, at: usize) -> (found: bool)
    ensures
        found == occurs_at(chars@, pattern@, at as int),
{
    if pattern.len() > chars.len() || at > chars.len() - pattern.len() {
        return false;
    }
    let mut i: usize = 0;
    while i < pattern.len()
        invariant
            i <= pattern.len(),
            at + pattern.len() <= chars.len(),
            chars@.subrange(at as int, at + i) == pattern@.take(i as int),
        decreases pattern.len() - i,
    {
        if chars[at + i] != pattern[i] {
            assert(chars@.subrange(at as int, at + pattern.len())[i as int] != pattern@[i as int]);
            return false;
        }
        i += 1;
        assert(chars@.subrange(at as int, at + i) =~= chars@.subrange(at as int, at + i - 1).push(
            chars@[at + i - 1],
        ));
        assert(pattern@.take(i as int) =~= pattern@.take(i - 1).push(pattern@[i - 1]));
    }
    assert(pattern@.take(i as int) =~= pattern@);
    true
}

/// The first index from `from` on at which `pattern` stands in `chars`, or
/// the length of `chars`.
pub(crate) fn find_pattern(chars: &Vec<char>, pattern: &Vec<char>, from: usize) -> (at: usize)
    requires
        from <= chars.len(),
    ensures
        at == find_text(chars@, pattern@, from as int),
        from <= at <= chars.len(),
        at < chars.len() ==> at + pattern.len() <= chars.len(),
{
    let mut at: usize = from;
    while at < chars.len() && pattern.len() <= chars.len() - at
        invariant
            from <= at <= chars.len(),
            find_text(chars@, pattern@, from as int) == find_text(chars@, pattern@, at as int),
        decreases chars.len() - at,
    {
        if stands_at(chars, pattern, at) {
            return at;
        }
        at += 1;
    }
    chars.len()
}

} // verus!
