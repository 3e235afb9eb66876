//! Splitting, joining, searching and replacing.

use vstd::prelude::*;
use vstd::string::*;

use crate::text::{chars_of, is_white_space, text_of, views, white_space};

verus! {

/// Where a text is cut.
#[derive(Clone, Copy, PartialEq, Eq, Structural, Debug)]
pub enum Delimiter {
    /// At every occurrence of one character.
    Char(char),
    /// At every white-space character.
    WhiteSpace,
}

/// Whether a delimiter cuts at a character.
pub open spec fn delimits(d: Delimiter, c: char) -> bool {
    match d {
        Delimiter::Char(x) => c == x,
        Delimiter::WhiteSpace => is_white_space(c),
    }
}

fn cuts(d: Delimiter, c: char) -> (result: bool)
    ensures
        result == delimits(d, c),
{
    match d {
        Delimiter::Char(x) => c == x,
        Delimiter::WhiteSpace => white_space(c),
    }
}

/// The pieces between the delimiters of a text, empty ones too; a text without
/// delimiter is one piece.
pub open spec fn pieces(s: Seq<char>, d: Delimiter) -> Seq<Seq<char>>
    decreases s.len(),
{
    if s.len() == 0 {
        seq![Seq::<char>::empty()]
    } else {
        let before = pieces(s.drop_last(), d);
        if delimits(d, s.last()) {
            before.push(Seq::<char>::empty())
        } else {
            before.update(before.len() - 1, before.last().push(s.last()))
        }
    }
}

/// The parts that are not empty, in order.
pub open spec fn non_empty(parts: Seq<Seq<char>>) -> Seq<Seq<char>>
    decreases parts.len(),
{
    if parts.len() == 0 {
        parts
    } else {
        let before = non_empty(parts.drop_last());
        if parts.last().len() == 0 {
            before
        } else {
            before.push(parts.last())
        }
    }
}

/// The words of a text: what stands between white space.
pub open spec fn words(s: Seq<char>) -> Seq<Seq<char>> {
    non_empty(pieces(s, Delimiter::WhiteSpace))
}

/// There is always at least one piece.
pub proof fn pieces_non_empty(s: Seq<char>, d: Delimiter)
    ensures
        pieces(s, d).len() >= 1,
        pieces(s, d).len() <= s.len() + 1,
    decreases s.len(),
{
    if s.len() > 0 {
        pieces_non_empty(s.drop_last(), d);
    }
}

/// Pieces hold no delimiter.
pub proof fn pieces_have_no_delimiter(s: Seq<char>, d: Delimiter)
    ensures
        forall|i: int, j: int|
            0 <= i < pieces(s, d).len() && 0 <= j < pieces(s, d)[i].len() ==> !delimits(
                d,
                #[trigger] pieces(s, d)[i][j],
            ),
    decreases s.len(),
{
    if s.len() > 0 {
        pieces_have_no_delimiter(s.drop_last(), d);
        pieces_non_empty(s.drop_last(), d);
        let before = pieces(s.drop_last(), d);
        let all = pieces(s, d);
        assert forall|i: int, j: int|
            0 <= i < all.len() && 0 <= j < all[i].len() implies !delimits(
            d,
            #[trigger] all[i][j],
        ) by {
            if i < before.len() && j < before[i].len() {
                assert(all[i][j] == before[i][j]);
            }
        }
    }
}

/// Characters that are no delimiter extend the last piece.
pub proof fn pieces_extend(s: Seq<char>, t: Seq<char>, d: Delimiter)
    requires
        forall|i: int| 0 <= i < t.len() ==> !delimits(d, #[trigger] t[i]),
    ensures
        pieces(s + t, d) == pieces(s, d).update(pieces(s, d).len() - 1, pieces(s, d).last() + t),
    decreases t.len(),
{
    pieces_non_empty(s, d);
    let before = pieces(s, d);
    if t.len() == 0 {
        assert(s + t =~= s);
        assert(before.last() + t =~= before.last());
        assert(before.update(before.len() - 1, before.last()) =~= before);
    } else {
        pieces_extend(s, t.drop_last(), d);
        assert((s + t).drop_last() =~= s + t.drop_last());
        assert((before.last() + t.drop_last()).push(t.last()) =~= before.last() + t);
        assert(pieces(s + t, d) =~= before.update(before.len() - 1, before.last() + t));
    }
}

/// Appending to the list of parts appends to the list of non-empty parts.
pub proof fn non_empty_push(parts: Seq<Seq<char>>, part: Seq<char>)
    ensures
        non_empty(parts.push(part)) == if part.len() == 0 {
            non_empty(parts)
        } else {
            non_empty(parts).push(part)
        },
{
    assert(parts.push(part).drop_last() =~= parts);
}

/// Cuts a text at its delimiters.
pub fn split(s: &str, d: Delimiter) -> (result: Vec<String>)
    ensures
        views(result@) == pieces(s@, d),
        result.len() >= 1,
{
    let chars = chars_of(s);
    let mut done: Vec<String> = Vec::new();
    let mut current = String::new();
    let mut i: usize = 0;
    assert(views(done@).push(current@) =~= pieces(s@.take(0), d));
    while i < chars.len()
        invariant
            i <= chars.len(),
            chars@ == s@,
            views(done@).push(current@) == pieces(s@.take(i as int), d),
        decreases chars.len() - i,
    {
        let c = chars[i];
        assert(s@.take(i + 1).drop_last() =~= s@.take(i as int));
        assert(s@.take(i + 1).last() == c);
        let ghost before = views(done@).push(current@);
        let ghost old_done = done@;
        let ghost old_current = current@;
        if cuts(d, c) {
            done.push(current);
            current = String::new();
            assert(views(done@) =~= before);
            assert(views(done@).push(current@) =~= before.push(Seq::<char>::empty()));
        } else {
            current.push(c);
            assert(views(done@).push(current@) =~= before.update(
                before.len() - 1,
                before.last().push(c),
            ));
        }
        i += 1;
    }
    let ghost before = views(done@).push(current@);
    done.push(current);
    assert(views(done@) =~= before);
    assert(s@.take(i as int) =~= s@);
    done
}

/// Keeps the parts that are not empty.
pub fn keep_non_empty(parts: &Vec<String>) -> (result: Vec<String>)
    ensures
        views(result@) == non_empty(views(parts@)),
{
    let mut result: Vec<String> = Vec::new();
    let mut i: usize = 0;
    assert(views(result@) =~= non_empty(views(parts@).take(0)));
    while i < parts.len()
        invariant
            i <= parts.len(),
            views(result@) == non_empty(views(parts@).take(i as int)),
        decreases parts.len() - i,
    {
        let part = parts[i].clone();
        let ghost before = views(result@);
        assert(views(parts@).take(i + 1).drop_last() =~= views(parts@).take(i as int));
        let size = chars_of(part.as_str()).len();
        if size > 0 {
            result.push(part);
            assert(views(result@) =~= before.push(part@));
        }
        i += 1;
    }
    assert(views(parts@).take(i as int) =~= views(parts@));
    result
}

/// The words of a text, in order.
pub fn split_words(s: &str) -> (result: Vec<String>)
    ensures
        views(result@) == words(s@),
{
    let parts = split(s, Delimiter::WhiteSpace);
    keep_non_empty(&parts)
}

/// The parts one after another with a separator between them.
pub open spec fn join(parts: Seq<Seq<char>>, separator: Seq<char>) -> Seq<char>
    decreases parts.len(),
{
    if parts.len() == 0 {
        Seq::empty()
    } else if parts.len() == 1 {
        parts[0]
    } else {
        join(parts.drop_last(), separator) + separator + parts.last()
    }
}

/// Joins texts with a separator between them.
pub fn join_with(parts: &Vec<String>, separator: &str) -> (result: String)
    ensures
        result@ == join(views(parts@), separator@),
{
    let mut result = String::new();
    let mut i: usize = 0;
    assert(result@ =~= join(views(parts@).take(0), separator@));
    while i < parts.len()
        invariant
            i <= parts.len(),
            result@ == join(views(parts@).take(i as int), separator@),
        decreases parts.len() - i,
    {
        assert(views(parts@).take(i + 1).drop_last() =~= views(parts@).take(i as int));
        if i > 0 {
            result.append(separator);
        }
        result.append(parts[i].as_str());
        i += 1;
        assert(result@ =~= join(views(parts@).take(i as int), separator@));
    }
    assert(views(parts@).take(i as int) =~= views(parts@));
    result
}

/// Whether a text holds another at a position.
pub open spec fn occurs_at(s: Seq<char>, part: Seq<char>, at: int) -> bool {
    0 <= at && at + part.len() <= s.len() && s.subrange(at, at + part.len()) == part
}

/// Whether a text holds another anywhere.
pub open spec fn contains_text(s: Seq<char>, part: Seq<char>) -> bool {
    exists|at: int| #[trigger] occurs_at(s, part, at)
}

/// Whether a list of characters holds another at a position.
pub fn found_at(s: &Vec<char>, part: &Vec<char>, at: usize) -> (result: bool)
    ensures
        result == occurs_at(s@, part@, at as int),
{
    if at > s.len() || part.len() > s.len() - at {
        return false;
    }
    let mut i: usize = 0;
    while i < part.len()
        invariant
            at <= s.len(),
            part.len() <= s.len() - at,
            i <= part.len(),
            s@.subrange(at as int, at + i) == part@.take(i as int),
        decreases part.len() - i,
    {
        if s[at + i] != part[i] {
            assert(s@.subrange(at as int, at + part@.len())[i as int] != part@[i as int]);
            return false;
        }
        i += 1;
        assert(s@.subrange(at as int, at + i) =~= s@.subrange(at as int, at + i - 1).push(
            s@[at + i - 1],
        ));
        assert(part@.take(i as int) =~= part@.take(i - 1).push(part@[i - 1]));
    }
    assert(part@.take(i as int) =~= part@);
    true
}

/// Whether a text holds another.
pub fn contains(s: &str, part: &str) -> (result: bool)
    ensures
        result == contains_text(s@, part@),
{
    let chars = chars_of(s);
    let wanted = chars_of(part);
    let mut at: usize = 0;
    while at < chars.len()
        invariant
            at <= chars.len(),
            chars@ == s@,
            wanted@ == part@,
            forall|k: int| 0 <= k < at ==> !#[trigger] occurs_at(s@, part@, k),
        decreases chars.len() - at,
    {
        if found_at(&chars, &wanted, at) {
            return true;
        }
        at += 1;
    }
    found_at(&chars, &wanted, at)
}

/// Whether a text starts with another.
pub fn starts_with(s: &str, prefix: &str) -> (result: bool)
    ensures
        result == prefix@.is_prefix_of(s@),
{
    let chars = chars_of(s);
    let wanted = chars_of(prefix);
    let result = found_at(&chars, &wanted, 0);
    assert(result == prefix@.is_prefix_of(s@)) by {
        if wanted@.len() <= chars@.len() {
            assert(chars@.subrange(0, wanted@.len() as int) =~= chars@.take(wanted@.len() as int));
        }
    }
    result
}

/// What follows a prefix, if the text starts with it.
pub fn strip_prefix(s: &str, prefix: &str) -> (result: Option<String>)
    ensures
        match result {
            Some(rest) => prefix@.is_prefix_of(s@) && rest@ == s@.skip(prefix@.len() as int),
            None => !prefix@.is_prefix_of(s@),
        },
{
    if !starts_with(s, prefix) {
        return None;
    }
    let chars = chars_of(s);
    let wanted = chars_of(prefix);
    let rest = text_of(&chars, wanted.len(), chars.len());
    assert(rest@ =~= s@.skip(prefix@.len() as int));
    Some(rest)
}

/// Whether a text ends with another.
pub fn ends_with(s: &str, suffix: &str) -> (result: bool)
    ensures
        result == suffix@.is_suffix_of(s@),
{
    let chars = chars_of(s);
    let wanted = chars_of(suffix);
    if wanted.len() > chars.len() {
        return false;
    }
    let result = found_at(&chars, &wanted, chars.len() - wanted.len());
    assert(chars@.subrange(chars@.len() - wanted@.len(), chars@.len() as int) =~= chars@.skip(
        chars@.len() - wanted@.len(),
    ));
    result
}

/// Every occurrence of a character replaced by a text.
pub open spec fn replaced(s: Seq<char>, from: char, to: Seq<char>) -> Seq<char>
    decreases s.len(),
{
    if s.len() == 0 {
        s
    } else {
        replaced(s.drop_last(), from, to) + if s.last() == from {
            to
        } else {
            seq![s.last()]
        }
    }
}

/// Replaces every occurrence of a character by a text.
pub fn replace_char(s: &str, from: char, to: &str) -> (result: String)
    ensures
        result@ == replaced(s@, from, to@),
{
    let chars = chars_of(s);
    let mut result = String::new();
    let mut i: usize = 0;
    assert(result@ =~= replaced(s@.take(0), from, to@));
    while i < chars.len()
        invariant
            i <= chars.len(),
            chars@ == s@,
            result@ == replaced(s@.take(i as int), from, to@),
        decreases chars.len() - i,
    {
        let c = chars[i];
        assert(s@.take(i + 1).drop_last() =~= s@.take(i as int));
        if c == from {
            result.append(to);
        } else {
            result.push(c);
        }
        i += 1;
        assert(result@ =~= replaced(s@.take(i as int), from, to@));
    }
    assert(s@.take(i as int) =~= s@);
    result
}

/// The two sides of the first delimiter of a text, if it has one.
pub open spec fn cut_once(s: Seq<char>, d: char) -> Option<(Seq<char>, Seq<char>)>
    decreases s.len(),
{
    if s.len() == 0 {
        None
    } else if s[0] == d {
        Some((Seq::empty(), s.drop_first()))
    } else {
        match cut_once(s.drop_first(), d) {
            Some((left, right)) => Some((seq![s[0]] + left, right)),
            None => None,
        }
    }
}

/// `cut_once` found nothing before position `i`.
proof fn cut_once_skips(s: Seq<char>, d: char, i: int)
    requires
        0 <= i <= s.len(),
        forall|k: int| 0 <= k < i ==> s[k] != d,
    ensures
        cut_once(s, d) == match cut_once(s.skip(i), d) {
            Some((left, right)) => Some((s.take(i) + left, right)),
            None => None,
        },
    decreases i,
{
    if i == 0 {
        assert(s.skip(0) =~= s);
        if let Some((left, right)) = cut_once(s, d) {
            assert(s.take(0) + left =~= left);
        }
    } else {
        cut_once_skips(s.drop_first(), d, i - 1);
        assert(s.drop_first().skip(i - 1) =~= s.skip(i));
        if let Some((left, right)) = cut_once(s.skip(i), d) {
            assert(seq![s[0]] + (s.drop_first().take(i - 1) + left) =~= s.take(i) + left);
        }
    }
}

/// Cuts a text at its first delimiter.
pub fn split_once(s: &str, d: char) -> (result: Option<(String, String)>)
    ensures
        match result {
            Some((left, right)) => cut_once(s@, d) == Some((left@, right@)),
            None => cut_once(s@, d) is None,
        },
{
    let chars = chars_of(s);
    let mut i: usize = 0;
    while i < chars.len()
        invariant
            i <= chars.len(),
            chars@ == s@,
            forall|k: int| 0 <= k < i ==> chars@[k] != d,
        decreases chars.len() - i,
    {
        if chars[i] == d {
            let left = text_of(&chars, 0, i);
            let right = text_of(&chars, i + 1, chars.len());
            proof {
                cut_once_skips(s@, d, i as int);
                assert(s@.take(i as int) + Seq::<char>::empty() =~= left@);
                assert(s@.skip(i as int).drop_first() =~= right@);
            }
            return Some((left, right));
        }
        i += 1;
    }
    proof {
        cut_once_skips(s@, d, i as int);
        assert(s@.skip(i as int).len() == 0);
    }
    None
}

/// Joining the pieces between the occurrences of a character with that character gives the
/// text back: nothing is lost between them, and nothing is added.
pub proof fn joining_undoes_splitting(s: Seq<char>, d: char)
    ensures
        join(pieces(s, Delimiter::Char(d)), seq![d]) == s,
    decreases s.len(),
{
    let separator = seq![d];
    if s.len() == 0 {
        assert(join(seq![Seq::<char>::empty()], separator) =~= s);
    } else {
        let rest = s.drop_last();
        let before = pieces(rest, Delimiter::Char(d));
        let all = pieces(s, Delimiter::Char(d));
        pieces_non_empty(rest, Delimiter::Char(d));
        joining_undoes_splitting(rest, d);
        if s.last() == d {
            assert(all.drop_last() =~= before);
            assert(join(all, separator) =~= rest.push(d));
        } else {
            assert(all.drop_last() =~= before.drop_last());
            if before.len() > 1 {
                assert(join(all, separator) =~= join(before, separator).push(s.last()));
            } else {
                assert(join(all, separator) =~= join(before, separator).push(s.last()));
            }
        }
        assert(rest.push(s.last()) =~= s);
    }
}

/// The parts that are not empty are all kept, in their order, and no others.
pub proof fn only_empty_parts_are_left_out(parts: Seq<Seq<char>>)
    ensures
        non_empty(parts) == parts.filter(|part: Seq<char>| part.len() > 0),
    decreases parts.len(),
{
    reveal(Seq::filter);
    if parts.len() > 0 {
        only_empty_parts_are_left_out(parts.drop_last());
    } else {
        assert(non_empty(parts) =~= parts.filter(|part: Seq<char>| part.len() > 0));
    }
}

/// A character is replaced wherever it stands, and nothing else is touched.
pub proof fn every_occurrence_is_replaced(
    front: Seq<char>,
    back: Seq<char>,
    from: char,
    to: Seq<char>,
)
    ensures
        replaced(front + back, from, to) == replaced(front, from, to) + replaced(back, from, to),
        replaced(seq![from], from, to) == to,
        forall|c: char| c != from ==> replaced(seq![c], from, to) == #[trigger] seq![c],
    decreases back.len(),
{
    reveal_with_fuel(replaced, 2);
    if back.len() == 0 {
        assert(front + back =~= front);
        assert(replaced(front, from, to) + replaced(back, from, to) =~= replaced(front, from, to));
    } else {
        every_occurrence_is_replaced(front, back.drop_last(), from, to);
        assert((front + back).drop_last() =~= front + back.drop_last());
        assert((front + back).last() == back.last());
        assert(replaced(front + back, from, to) =~= replaced(front, from, to) + replaced(
            back,
            from,
            to,
        ));
    }
    assert(seq![from].drop_last() =~= Seq::<char>::empty());
    assert(replaced(seq![from], from, to) =~= to);
    assert forall|c: char| c != from implies replaced(seq![c], from, to) == #[trigger] seq![c] by {
        assert(seq![c].drop_last() =~= Seq::<char>::empty());
        assert(replaced(seq![c], from, to) =~= seq![c]);
    }
}

/// A text is cut at the first occurrence of a character, and only where there is one.
pub proof fn texts_are_cut_at_the_first_occurrence(front: Seq<char>, back: Seq<char>, d: char)
    requires
        !front.contains(d),
    ensures
        cut_once(front.push(d) + back, d) == Some((front, back)),
        cut_once(front, d) is None,
    decreases front.len(),
{
    let whole = front.push(d) + back;
    if front.len() == 0 {
        assert(whole[0] == d);
        assert(whole.drop_first() =~= back);
        assert(front =~= Seq::empty());
    } else {
        assert(front.contains(front[0]));
        let rest = front.drop_first();
        assert(!rest.contains(d)) by {
            if rest.contains(d) {
                let i = choose|i: int| 0 <= i < rest.len() && rest[i] == d;
                assert(front[i + 1] == d);
            }
        }
        texts_are_cut_at_the_first_occurrence(rest, back, d);
        assert(whole[0] == front[0]);
        assert(whole.drop_first() =~= rest.push(d) + back);
        assert(seq![front[0]] + rest =~= front);
    }
}

} // verus!
