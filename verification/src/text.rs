//! Character sequences: conversion between strings and vectors of
//! characters, joining, and prefix tests.

use vstd::prelude::*;

verus! {

/// Appends one character to a string.
///
/// Trusted: `String::push` of the standard library, which appends the
/// given character to the end of the string and changes nothing else.
#[verifier::external_body]
pub(crate) fn push_char(s: &mut String, c: char)
    ensures
        final(s)@ == old(s)@.push(c),
{
    s.push(c);
}

/// The characters of a string, in order.
pub fn chars_of(s: &str) -> (v: Vec<char>)
    ensures
        v@ == s@,
{
    let mut v: Vec<char> = Vec::new();
    for c in it: s.chars()
        invariant
            it.seq() == s@,
            v@ == s@.take(it.index() as int),
    {
        v.push(c);
    }
    v
}

/// The string made of the given characters, in order.
pub fn string_of(v: &Vec<char>) -> (s: String)
    ensures
        s@ == v@,
{
    let mut s = String::new();
    let mut i: usize = 0;
    while i < v.len()
        invariant
            i <= v.len(),
            s@ == v@.take(i as int),
        decreases v.len() - i,
    {
        push_char(&mut s, v[i]);
        i += 1;
    }
    s
}

/// The text of an optional string.
pub open spec fn optional_text(text: Option<String>) -> Option<Seq<char>> {
    match text {
        Some(text) => Some(text@),
        None => None,
    }
}

/// The views of a list of strings, in order.
pub open spec fn views(parts: Seq<String>) -> Seq<Seq<char>> {
    parts.map_values(|part: String| part@)
}

/// The parts written one after the other with `sep` between neighbours.
pub open spec fn join(parts: Seq<Seq<char>>, sep: Seq<char>) -> Seq<char>
    decreases parts.len(),
{
    if parts.len() == 0 {
        Seq::empty()
    } else if parts.len() == 1 {
        parts[0]
    } else {
        join(parts.drop_last(), sep) + sep + parts.last()
    }
}

/// The pieces of `s` between occurrences of `sep`, read one character at a
/// time: a separator closes the current piece and opens an empty one, any
/// other character extends the current piece. There is always at least one
/// piece, and two separators in a row enclose an empty piece.
pub open spec fn split(s: Seq<char>, sep: char) -> Seq<Seq<char>>
    decreases s.len(),
{
    if s.len() == 0 {
        seq![Seq::empty()]
    } else {
        let before = split(s.drop_last(), sep);
        if s.last() == sep {
            before.push(Seq::empty())
        } else {
            before.update(before.len() - 1, before.last().push(s.last()))
        }
    }
}

/// Whether `key` stands in `text` at position `pos`.
pub open spec fn occurs_at(text: Seq<char>, pos: int, key: Seq<char>) -> bool {
    0 <= pos && pos + key.len() <= text.len() && text.subrange(pos, pos + key.len()) == key
}

/// Splitting loses nothing and finds every separator: the pieces joined by
/// the separator are the text again, no piece holds a separator, and there
/// is at least one piece.
pub proof fn lemma_split_join(s: Seq<char>, sep: char)
    ensures
        split(s, sep).len() >= 1,
        join(split(s, sep), seq![sep]) == s,
        forall|i: int|
            0 <= i < split(s, sep).len() ==> !(#[trigger] split(s, sep)[i]).contains(sep),
    decreases s.len(),
{
    if s.len() > 0 {
        let head = s.drop_last();
        let before = split(head, sep);
        lemma_split_join(head, sep);
        let after = split(s, sep);
        assert(s =~= head.push(s.last()));
        if s.last() == sep {
            assert(after.drop_last() =~= before);
            assert(join(after, seq![sep]) =~= s);
        } else {
            let grown = before.last().push(s.last());
            assert(after.last() == grown);
            if before.len() == 1 {
                assert(join(after, seq![sep]) =~= s);
            } else {
                assert(after.drop_last() =~= before.drop_last());
                assert(join(after, seq![sep]) =~= s);
            }
            assert forall|i: int| 0 <= i < after.len() implies !(#[trigger] after[i]).contains(
                sep,
            ) by {
                if i == after.len() - 1 {
                    if grown.contains(sep) {
                        let j = choose|j: int| 0 <= j < grown.len() && grown[j] == sep;
                        assert(before.last()[j] == sep);
                    }
                } else {
                    assert(after[i] == before[i]);
                }
            }
        }
    } else {
        assert(split(s, sep)[0] =~= s);
    }
}

/// Text without a separator extends the last piece: splitting `s + plain`
/// gives the pieces of `s` with `plain` added to the last of them.
pub proof fn lemma_split_extend(s: Seq<char>, plain: Seq<char>, sep: char)
    requires
        !plain.contains(sep),
    ensures
        split(s + plain, sep) == split(s, sep).update(
            split(s, sep).len() - 1,
            split(s, sep).last() + plain,
        ),
    decreases plain.len(),
{
    lemma_split_join(s, sep);
    let before = split(s, sep);
    if plain.len() == 0 {
        assert(s + plain =~= s);
        assert(before.last() + plain =~= before.last());
        assert(before.update(before.len() - 1, before.last()) =~= before);
    } else {
        let head = plain.drop_last();
        let c = plain.last();
        assert(plain[plain.len() - 1] == c);
        assert(!head.contains(sep)) by {
            if head.contains(sep) {
                let j = choose|j: int| 0 <= j < head.len() && head[j] == sep;
                assert(plain[j] == sep);
            }
        }
        lemma_split_extend(s, head, sep);
        let text = s + plain;
        assert(text.drop_last() =~= s + head);
        assert(text.last() == c);
        let mid = split(s + head, sep);
        assert(mid.last() == before.last() + head);
        assert(c != sep);
        assert(mid.len() == before.len());
        assert(mid.last().push(c) =~= before.last() + plain);
        assert(mid.update(mid.len() - 1, mid.last().push(c)) =~= before.update(
            before.len() - 1,
            before.last() + plain,
        ));
    }
}

/// The pieces are the only way to cut the text: a non-empty list of pieces
/// that hold no separator is what splitting their join gives.
pub proof fn lemma_split_of_join(pieces: Seq<Seq<char>>, sep: char)
    requires
        pieces.len() >= 1,
        forall|i: int| 0 <= i < pieces.len() ==> !(#[trigger] pieces[i]).contains(sep),
    ensures
        split(join(pieces, seq![sep]), sep) == pieces,
    decreases pieces.len(),
{
    let last = pieces.last();
    assert(pieces[pieces.len() - 1] == last);
    if pieces.len() == 1 {
        let nothing = Seq::<char>::empty();
        lemma_split_extend(nothing, last, sep);
        assert(nothing + last =~= last);
        assert(split(nothing, sep) =~= seq![nothing]);
        assert(seq![nothing].update(0, nothing + last) =~= pieces);
    } else {
        let front = pieces.drop_last();
        assert forall|i: int| 0 <= i < front.len() implies !(#[trigger] front[i]).contains(sep) by {
            assert(front[i] == pieces[i]);
        }
        lemma_split_of_join(front, sep);
        let closed = join(front, seq![sep]) + seq![sep];
        assert(closed.drop_last() =~= join(front, seq![sep]));
        assert(closed.last() == sep);
        assert(split(closed, sep) == front.push(Seq::<char>::empty()));
        lemma_split_extend(closed, last, sep);
        assert(front.push(Seq::<char>::empty()).update(
            front.len() as int,
            Seq::<char>::empty() + last,
        ) =~= pieces);
    }
}

/// Joins strings with a separator between neighbours.
pub fn join_strings(parts: &Vec<String>, sep: &str) -> (out: String)
    ensures
        out@ == join(views(parts@), sep@),
{
    let mut out = String::new();
    let mut i: usize = 0;
    while i < parts.len()
        invariant
            i <= parts.len(),
            out@ == join(views(parts@.take(i as int)), sep@),
        decreases parts.len() - i,
    {
        let ghost done = views(parts@.take(i as int));
        let ghost next = views(parts@.take(i + 1));
        assert(next.drop_last() =~= done);
        assert(next.last() == parts@[i as int]@);
        if i > 0 {
            out.append(sep);
        }
        out.append(parts[i].as_str());
        i += 1;
    }
    assert(parts@.take(parts.len() as int) =~= parts@);
    out
}

/// Tells whether `key` stands in `text` at position `pos`.
pub fn matches_at(text: &Vec<char>, pos: usize, key: &Vec<char>) -> (found: bool)
    ensures
        found == occurs_at(text@, pos as int, key@),
{
    if pos > text.len() || key.len() > text.len() - pos {
        return false;
    }
    let mut i: usize = 0;
    while i < key.len()
        invariant
            i <= key.len(),
            pos + key.len() <= text.len(),
            forall|j: int| 0 <= j < i ==> text@[pos + j] == key@[j],
        decreases key.len() - i,
    {
        if text[pos + i] != key[i] {
            assert(text@.subrange(pos as int, pos + key.len())[i as int] != key@[i as int]);
            return false;
        }
        i += 1;
    }
    assert(text@.subrange(pos as int, pos + key.len()) =~= key@);
    true
}

/// Tells whether `text` begins with `prefix`.
pub fn starts_with(text: &str, prefix: &str) -> (found: bool)
    ensures
        found == prefix@.is_prefix_of(text@),
{
    let text = chars_of(text);
    let prefix = chars_of(prefix);
    matches_at(&text, 0, &prefix)
}

/// Tells whether two strings hold the same text.
pub fn same_text(a: &str, b: &str) -> (same: bool)
    ensures
        same == (a@ == b@),
{
    let a = chars_of(a);
    let b = chars_of(b);
    let same = a.len() == b.len() && matches_at(&a, 0, &b);
    proof {
        if a.len() == b.len() {
            assert(a@.subrange(0, b.len() as int) =~= a@);
        }
    }
    same
}

/// Splits a string at every occurrence of `sep`.
///
/// The pieces come in order; joined by `sep` they give the string back, and
/// none of them holds `sep` (see `lemma_split_join`).
pub fn split_text(s: &str, sep: char) -> (pieces: Vec<String>)
    ensures
        views(pieces@) == split(s@, sep),
        pieces.len() >= 1,
        join(views(pieces@), seq![sep]) == s@,
        forall|i: int| 0 <= i < pieces.len() ==> !(#[trigger] pieces[i])@.contains(sep),
{
    let chars = chars_of(s);
    let mut pieces: Vec<String> = Vec::new();
    let mut current = String::new();
    let mut i: usize = 0;
    assert(chars@.take(0) =~= Seq::<char>::empty());
    assert(views(pieces@).push(current@) =~= split(chars@.take(0), sep));
    while i < chars.len()
        invariant
            i <= chars.len(),
            views(pieces@).push(current@) == split(chars@.take(i as int), sep),
        decreases chars.len() - i,
    {
        let c = chars[i];
        let ghost read = chars@.take(i + 1);
        assert(read.drop_last() =~= chars@.take(i as int));
        assert(read.last() == c);
        let ghost closed = views(pieces@);
        if c == sep {
            pieces.push(current);
            current = String::new();
            assert(views(pieces@) =~= split(chars@.take(i as int), sep));
        } else {
            let ghost before = current@;
            push_char(&mut current, c);
            assert(views(pieces@).push(current@) =~= closed.push(before).update(
                closed.len() as int,
                before.push(c),
            ));
        }
        i += 1;
    }
    assert(chars@.take(chars.len() as int) =~= chars@);
    let ghost closed = views(pieces@);
    pieces.push(current);
    assert(views(pieces@) =~= closed.push(current@));
    proof {
        lemma_split_join(s@, sep);
        assert forall|i: int| 0 <= i < pieces.len() implies !(#[trigger] pieces[i])@.contains(
            sep,
        ) by {
            assert(views(pieces@)[i] == pieces[i]@);
        }
    }
    pieces
}

} // verus!
