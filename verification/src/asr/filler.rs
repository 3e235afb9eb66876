//! Removing filler words and stutters.

use vstd::prelude::*;
use vstd::string::*;

use crate::split::{
    join, join_with, non_empty, pieces, pieces_extend, pieces_have_no_delimiter, pieces_non_empty,
    split_words, words, Delimiter,
};
use crate::text::{
    all_white_space, blank, eq_ignore_ascii_case, is_blank, is_white_space, same_ignoring_ascii_case, trim,
    trimmed, trimming_keeps_what_stands_between, untouched_by_trimming, views,
};

verus! {

broadcast use vstd::string::group_string_axioms;

// ---------------------------------------------------------------------------
// The regex crate
// ---------------------------------------------------------------------------

/// Whether `regex::Regex::new` accepts a pattern.
pub uninterp spec fn regex_compiles(pattern: Seq<char>) -> bool;

/// What `Regex::replace_all` makes of a text for a pattern that compiles.
pub uninterp spec fn regex_replaced(
    pattern: Seq<char>,
    text: Seq<char>,
    replacement: Seq<char>,
) -> Seq<char>;

/// Two spaces stand next to each other somewhere in the text.
pub open spec fn has_double_space(text: Seq<char>) -> bool {
    exists|i: int| 0 <= i && i + 1 < text.len() && #[trigger] text[i] == ' ' && text[i + 1] == ' '
}

/// Tries a pattern with `regex::Regex::new`. Whether it compiles is a function of the
/// pattern alone.
#[verifier::external_body]
fn compiles(pattern: &str) -> (result: bool)
    ensures
        result == regex_compiles(pattern@),
{
    regex::Regex::new(pattern).is_ok()
}

/// Compiles a pattern with `regex::Regex::new` and replaces every match in a text with
/// `Regex::replace_all`; `None` where the pattern does not compile.
///
/// The outcome is a function of the three texts. The one pattern that is claimed more of
/// is two spaces or more: it compiles, and a text without two adjacent spaces has no match
/// of it and comes back unchanged.
#[verifier::external_body]
fn replace_all(pattern: &str, text: &str, replacement: &str) -> (result: Option<String>)
    ensures
        match result {
            Some(s) => regex_compiles(pattern@) && s@ == regex_replaced(
                pattern@,
                text@,
                replacement@,
            ),
            None => !regex_compiles(pattern@),
        },
        pattern@ == " {2,}"@ ==> result is Some,
        pattern@ == " {2,}"@ && !has_double_space(text@) ==> result->0@ == text@,
{
    let regex = regex::Regex::new(pattern).ok()?;
    Some(regex.replace_all(text, replacement).into_owned())
}

/// The characters that mean something in a pattern.
pub open spec fn is_meta_character(c: char) -> bool {
    ||| c == '\\'
    ||| c == '.'
    ||| c == '+'
    ||| c == '*'
    ||| c == '?'
    ||| c == '('
    ||| c == ')'
    ||| c == '|'
    ||| c == '['
    ||| c == ']'
    ||| c == '{'
    ||| c == '}'
    ||| c == '^'
    ||| c == '$'
    ||| c == '#'
    ||| c == '&'
    ||| c == '-'
    ||| c == '~'
}

/// The text with a backslash before every meta character.
pub open spec fn escaped(text: Seq<char>) -> Seq<char>
    decreases text.len(),
{
    if text.len() == 0 {
        text
    } else {
        let before = escaped(text.drop_last());
        if is_meta_character(text.last()) {
            before.push('\\').push(text.last())
        } else {
            before.push(text.last())
        }
    }
}

/// `regex::escape` puts a backslash before every meta character and keeps the rest.
#[verifier::external_body]
fn escape(text: &str) -> (result: String)
    ensures
        result@ == escaped(text@),
{
    regex::escape(text)
}

// ---------------------------------------------------------------------------
// Patterns
// ---------------------------------------------------------------------------

/// The patterns for English fillers.
pub open spec fn builtin_patterns() -> Seq<Seq<char>> {
    seq![
        "(?i)\\bum\\b,?\\s*"@,
        "(?i)\\buh\\b,?\\s*"@,
        "(?i)\\blike,\\s*"@,
        "(?i)\\byou know,?\\s*"@,
        "(?i)\\bbasically,?\\s*"@,
        "(?i)\\bactually,?\\s*"@,
        "(?i)\\bI mean,?\\s*"@,
        "(?i)\\bsort of\\b"@,
        "(?i)\\bkind of\\b"@,
    ]
}

/// The pattern for one filler word of the user's own.
pub open spec fn word_pattern(word: Seq<char>) -> Seq<char> {
    "(?i)\\b"@ + escaped(trimmed(word)) + ",?\\s*"@
}

/// The patterns for the user's own filler words, without the blank ones.
pub open spec fn custom_patterns(custom_words: Seq<Seq<char>>) -> Seq<Seq<char>>
    decreases custom_words.len(),
{
    if custom_words.len() == 0 {
        Seq::empty()
    } else {
        let before = custom_patterns(custom_words.drop_last());
        if is_blank(custom_words.last()) {
            before
        } else {
            before.push(word_pattern(custom_words.last()))
        }
    }
}

/// Every pattern of a list compiles.
pub open spec fn all_compile(patterns: Seq<Seq<char>>) -> bool {
    forall|i: int| 0 <= i < patterns.len() ==> regex_compiles(#[trigger] patterns[i])
}

/// The patterns in force: the user's own where there are any and all compile, otherwise
/// the English ones.
pub open spec fn active_patterns(custom_words: Seq<Seq<char>>) -> Seq<Seq<char>> {
    let custom = custom_patterns(custom_words);
    if custom.len() > 0 && all_compile(custom) {
        custom
    } else {
        builtin_patterns()
    }
}

/// The text after every match of every pattern, in turn, has been taken out. A pattern
/// that does not compile takes nothing out.
pub open spec fn stripped(text: Seq<char>, patterns: Seq<Seq<char>>) -> Seq<char>
    decreases patterns.len(),
{
    if patterns.len() == 0 {
        text
    } else {
        let before = stripped(text, patterns.drop_last());
        if regex_compiles(patterns.last()) {
            regex_replaced(patterns.last(), before, ""@)
        } else {
            before
        }
    }
}

fn builtin_list() -> (result: Vec<String>)
    ensures
        views(result@) == builtin_patterns(),
{
    let mut list: Vec<String> = Vec::new();
    list.push(String::from_str("(?i)\\bum\\b,?\\s*"));
    list.push(String::from_str("(?i)\\buh\\b,?\\s*"));
    list.push(String::from_str("(?i)\\blike,\\s*"));
    list.push(String::from_str("(?i)\\byou know,?\\s*"));
    list.push(String::from_str("(?i)\\bbasically,?\\s*"));
    list.push(String::from_str("(?i)\\bactually,?\\s*"));
    list.push(String::from_str("(?i)\\bI mean,?\\s*"));
    list.push(String::from_str("(?i)\\bsort of\\b"));
    list.push(String::from_str("(?i)\\bkind of\\b"));
    assert(views(list@) =~= builtin_patterns());
    list
}

fn custom_list(custom_words: &Vec<String>) -> (result: Vec<String>)
    ensures
        views(result@) == custom_patterns(views(custom_words@)),
{
    let mut list: Vec<String> = Vec::new();
    let ghost all = views(custom_words@);
    let mut i: usize = 0;
    assert(views(list@) =~= custom_patterns(all.take(0)));
    while i < custom_words.len()
        invariant
            i <= custom_words.len(),
            all == views(custom_words@),
            views(list@) == custom_patterns(all.take(i as int)),
        decreases custom_words.len() - i,
    {
        let word = custom_words[i].as_str();
        let ghost before = views(list@);
        assert(all.take(i + 1).drop_last() =~= all.take(i as int));
        assert(all.take(i + 1).last() == word@);
        if !blank(word) {
            let mut pattern = String::from_str("(?i)\\b");
            pattern.append(escape(trim(word).as_str()).as_str());
            pattern.append(",?\\s*");
            assert(pattern@ == word_pattern(word@));
            list.push(pattern);
            assert(views(list@) =~= before.push(word_pattern(word@)));
        }
        i += 1;
    }
    assert(all.take(i as int) =~= all);
    list
}

fn every_compiles(patterns: &Vec<String>) -> (result: bool)
    ensures
        result == all_compile(views(patterns@)),
{
    let ghost all = views(patterns@);
    let mut i: usize = 0;
    while i < patterns.len()
        invariant
            i <= patterns.len(),
            all == views(patterns@),
            forall|k: int| 0 <= k < i ==> regex_compiles(#[trigger] all[k]),
        decreases patterns.len() - i,
    {
        assert(all[i as int] == patterns@[i as int]@);
        if !compiles(patterns[i].as_str()) {
            return false;
        }
        i += 1;
    }
    true
}

// ---------------------------------------------------------------------------
// Stutters
// ---------------------------------------------------------------------------

/// The words without those that repeat the word before them, up to the case of ASCII
/// letters.
pub open spec fn without_stutters(all: Seq<Seq<char>>) -> Seq<Seq<char>>
    decreases all.len(),
{
    if all.len() == 0 {
        all
    } else {
        let before = without_stutters(all.drop_last());
        if before.len() > 0 && eq_ignore_ascii_case(before.last(), all.last()) {
            before
        } else {
            before.push(all.last())
        }
    }
}

/// The words of a text without stutters, with one space between them.
pub open spec fn destuttered(text: Seq<char>) -> Seq<char> {
    join(without_stutters(words(text)), " "@)
}

/// Removes words that repeat the word before them and puts one space between the rest.
pub fn remove_stutters(text: &str) -> (result: String)
    ensures
        result@ == destuttered(text@),
{
    let parts = split_words(text);
    let ghost all = words(text@);
    let mut kept: Vec<String> = Vec::new();
    let mut i: usize = 0;
    assert(views(kept@) =~= without_stutters(all.take(0)));
    while i < parts.len()
        invariant
            i <= parts.len(),
            all == views(parts@),
            views(kept@) == without_stutters(all.take(i as int)),
        decreases parts.len() - i,
    {
        let word = parts[i].clone();
        let ghost before = views(kept@);
        assert(all.take(i + 1).drop_last() =~= all.take(i as int));
        assert(all.take(i + 1).last() == word@);
        let repeats = if kept.len() == 0 {
            false
        } else {
            let previous = &kept[kept.len() - 1];
            assert(before.last() == previous@);
            same_ignoring_ascii_case(previous.as_str(), word.as_str())
        };
        if !repeats {
            kept.push(word);
            assert(views(kept@) =~= before.push(word@));
        }
        i += 1;
    }
    assert(all.take(i as int) =~= all);
    join_with(&kept, " ")
}

/// What is left of a text once fillers and stutters are removed.
pub open spec fn without_fillers(text: Seq<char>, custom_words: Seq<Seq<char>>) -> Seq<char> {
    destuttered(stripped(text, active_patterns(custom_words)))
}

/// Removes filler words, the user's own or the English ones, and then stutters.
pub fn remove_filler_words(text: &str, custom_words: &Vec<String>) -> (result: String)
    ensures
        result@ == without_fillers(text@, views(custom_words@)),
{
    let custom = custom_list(custom_words);
    assert(views(custom@).len() == custom@.len());
    let patterns = if custom.len() > 0 && every_compiles(&custom) {
        custom
    } else {
        builtin_list()
    };
    let ghost all = active_patterns(views(custom_words@));
    assert(views(patterns@) == all);
    let mut cleaned = String::from_str(text);
    let mut i: usize = 0;
    assert(cleaned@ == stripped(text@, all.take(0)));
    while i < patterns.len()
        invariant
            i <= patterns.len(),
            all == views(patterns@),
            cleaned@ == stripped(text@, all.take(i as int)),
        decreases patterns.len() - i,
    {
        assert(all.take(i + 1).drop_last() =~= all.take(i as int));
        assert(all.take(i + 1).last() == patterns@[i as int]@);
        match replace_all(patterns[i].as_str(), cleaned.as_str(), "") {
            Some(next) => {
                cleaned = next;
            },
            None => {},
        }
        i += 1;
    }
    assert(all.take(i as int) =~= all);
    finish_cleanup(cleaned.as_str())
}

/// Removes stutters, trims, and collapses runs of spaces. The words have one space between
/// them already, so nothing is left to trim or collapse.
pub fn finish_cleanup(stripped_text: &str) -> (result: String)
    ensures
        result@ == destuttered(stripped_text@),
{
    let cleaned = remove_stutters(stripped_text);
    let trimmed_text = trim(cleaned.as_str());
    proof {
        let all = words(stripped_text@);
        words_are_words(stripped_text@);
        stutter_free_words_are_words(all);
        joined_words_are_tidy(without_stutters(all));
        untouched_by_trimming(cleaned@);
    }
    match replace_all(" {2,}", trimmed_text.as_str(), " ") {
        Some(result) => result,
        None => trimmed_text,
    }
}

// ---------------------------------------------------------------------------
// What holds of the result
// ---------------------------------------------------------------------------

/// A word: not empty, and without white space.
pub open spec fn is_word(part: Seq<char>) -> bool {
    part.len() > 0 && forall|i: int| 0 <= i < part.len() ==> !is_white_space(#[trigger] part[i])
}

/// Every part is a word.
pub open spec fn all_words(parts: Seq<Seq<char>>) -> bool {
    forall|i: int| 0 <= i < parts.len() ==> is_word(#[trigger] parts[i])
}

/// The words of a text are words.
pub proof fn words_are_words(text: Seq<char>)
    ensures
        all_words(words(text)),
{
    let parts = pieces(text, Delimiter::WhiteSpace);
    pieces_have_no_delimiter(text, Delimiter::WhiteSpace);
    assert forall|i: int, j: int|
        0 <= i < parts.len() && 0 <= j < parts[i].len() implies !is_white_space(
        #[trigger] parts[i][j],
    ) by {
        assert(!crate::split::delimits(Delimiter::WhiteSpace, parts[i][j]));
    }
    non_empty_words(parts);
}

proof fn non_empty_words(parts: Seq<Seq<char>>)
    requires
        forall|i: int, j: int|
            0 <= i < parts.len() && 0 <= j < parts[i].len() ==> !is_white_space(
                #[trigger] parts[i][j],
            ),
    ensures
        all_words(non_empty(parts)),
    decreases parts.len(),
{
    if parts.len() > 0 {
        let rest = parts.drop_last();
        assert forall|i: int, j: int|
            0 <= i < rest.len() && 0 <= j < rest[i].len() implies !is_white_space(
            #[trigger] rest[i][j],
        ) by {
            assert(!is_white_space(parts[i][j]));
        }
        non_empty_words(rest);
        let last = parts.last();
        if last.len() > 0 {
            assert forall|j: int| 0 <= j < last.len() implies !is_white_space(
                #[trigger] last[j],
            ) by {
                assert(!is_white_space(parts[parts.len() - 1][j]));
            }
            assert(is_word(last));
        }
    }
}

proof fn stutter_free_words_are_words(all: Seq<Seq<char>>)
    requires
        all_words(all),
    ensures
        all_words(without_stutters(all)),
    decreases all.len(),
{
    if all.len() > 0 {
        stutter_free_words_are_words(all.drop_last());
        assert(is_word(all[all.len() - 1]));
    }
}

/// Words joined by single spaces have no white space at the ends and no two spaces in a
/// row.
proof fn joined_words_are_tidy(parts: Seq<Seq<char>>)
    requires
        all_words(parts),
    ensures
        join(parts, " "@).len() > 0 <==> parts.len() > 0,
        join(parts, " "@).len() > 0 ==> !is_white_space(join(parts, " "@)[0]) && !is_white_space(
            join(parts, " "@).last(),
        ),
        !has_double_space(join(parts, " "@)),
    decreases parts.len(),
{
    reveal_strlit(" ");
    let text = join(parts, " "@);
    if parts.len() == 1 {
        assert(is_word(parts[0]));
        assert(text == parts[0]);
        assert forall|i: int|
            0 <= i && i + 1 < text.len() && #[trigger] text[i] == ' ' implies false by {
            assert(!is_white_space(parts[0][i]));
        }
    } else if parts.len() > 1 {
        let front = join(parts.drop_last(), " "@);
        let last = parts.last();
        joined_words_are_tidy(parts.drop_last());
        assert(is_word(parts[parts.len() - 1]));
        assert(text =~= front + " "@ + last);
        assert(text.last() == last.last());
        assert(!is_white_space(last[last.len() - 1]));
        assert(text[0] == front[0]);
        assert forall|i: int|
            0 <= i && i + 1 < text.len() && #[trigger] text[i] == ' ' && text[i + 1]
                == ' ' implies false by {
            if i + 1 < front.len() {
                assert(front[i] == ' ' && front[i + 1] == ' ');
            } else if i + 1 == front.len() {
                assert(front.last() == ' ');
            } else {
                assert(text[i + 1] == last[i - front.len()]);
                assert(!is_white_space(last[i - front.len()]));
            }
        }
    }
}

/// Splitting joined words gives the words back.
pub proof fn splitting_undoes_joining(parts: Seq<Seq<char>>)
    requires
        all_words(parts),
    ensures
        words(join(parts, " "@)) == parts,
    decreases parts.len(),
{
    reveal_strlit(" ");
    let d = Delimiter::WhiteSpace;
    let text = join(parts, " "@);
    let empty = Seq::<char>::empty();
    reveal_with_fuel(non_empty, 3);
    if parts.len() == 0 {
        assert(pieces(text, d) =~= seq![empty]);
        assert(seq![empty].drop_last() =~= Seq::<Seq<char>>::empty());
        assert(words(text) =~= parts);
    } else {
        let last = parts.last();
        assert(is_word(parts[parts.len() - 1]));
        assert forall|i: int| 0 <= i < last.len() implies !crate::split::delimits(
            d,
            #[trigger] last[i],
        ) by {
            assert(!is_white_space(last[i]));
        }
        if parts.len() == 1 {
            assert(text == last);
            pieces_extend(empty, last, d);
            assert(empty + last =~= last);
            assert(pieces(empty, d) =~= seq![empty]);
            assert(pieces(last, d) =~= seq![last]);
            assert(seq![last].drop_last() =~= Seq::<Seq<char>>::empty());
            assert(words(text) =~= parts);
        } else {
            splitting_undoes_joining(parts.drop_last());
            let front = join(parts.drop_last(), " "@);
            let spaced = front.push(' ');
            assert(text =~= spaced + last);
            assert(spaced.drop_last() =~= front);
            pieces_extend(spaced, last, d);
            pieces_non_empty(front, d);
            let before = pieces(front, d);
            assert(pieces(spaced, d) == before.push(empty));
            assert(pieces(text, d) =~= before.push(last)) by {
                assert(empty + last =~= last);
            }
            crate::split::non_empty_push(before, last);
            assert(words(text) =~= parts.drop_last().push(last));
            assert(parts.drop_last().push(last) =~= parts);
        }
    }
}

/// No word repeats the word before it.
pub open spec fn stutter_free(all: Seq<Seq<char>>) -> bool {
    forall|i: int| 0 <= i && i + 1 < all.len() ==> !eq_ignore_ascii_case(#[trigger] all[i], all[i + 1])
}

proof fn without_stutters_is_stutter_free(all: Seq<Seq<char>>)
    ensures
        stutter_free(without_stutters(all)),
    decreases all.len(),
{
    if all.len() > 0 {
        without_stutters_is_stutter_free(all.drop_last());
        let before = without_stutters(all.drop_last());
        let after = without_stutters(all);
        assert forall|i: int| 0 <= i && i + 1 < after.len() implies !eq_ignore_ascii_case(
            #[trigger] after[i],
            after[i + 1],
        ) by {
            if i + 1 < before.len() {
                assert(after[i] == before[i] && after[i + 1] == before[i + 1]);
            } else {
                assert(after[i] == before.last());
            }
        }
    }
}

proof fn stutter_free_is_untouched(all: Seq<Seq<char>>)
    requires
        stutter_free(all),
    ensures
        without_stutters(all) == all,
    decreases all.len(),
{
    if all.len() > 0 {
        let rest = all.drop_last();
        assert forall|i: int| 0 <= i && i + 1 < rest.len() implies !eq_ignore_ascii_case(
            #[trigger] rest[i],
            rest[i + 1],
        ) by {
            assert(rest[i] == all[i] && rest[i + 1] == all[i + 1]);
        }
        stutter_free_is_untouched(rest);
        if rest.len() > 0 {
            assert(rest.last() == all[all.len() - 2]);
            assert(all[all.len() - 2 + 1] == all.last());
        }
        assert(rest.push(all.last()) =~= all);
    }
}

/// What remains after filler and stutter removal has no stutter, and its words stand with
/// exactly one space between them.
pub proof fn cleaned_text_has_no_stutter(text: Seq<char>, custom_words: Seq<Seq<char>>)
    ensures
        stutter_free(words(without_fillers(text, custom_words))),
        without_fillers(text, custom_words) == join(
            words(without_fillers(text, custom_words)),
            " "@,
        ),
{
    let all = words(stripped(text, active_patterns(custom_words)));
    words_are_words(stripped(text, active_patterns(custom_words)));
    stutter_free_words_are_words(all);
    splitting_undoes_joining(without_stutters(all));
    without_stutters_is_stutter_free(all);
}

/// Removing stutters twice is removing them once.
pub proof fn removing_stutters_is_idempotent(text: Seq<char>)
    ensures
        destuttered(destuttered(text)) == destuttered(text),
{
    let all = words(text);
    words_are_words(text);
    stutter_free_words_are_words(all);
    splitting_undoes_joining(without_stutters(all));
    without_stutters_is_stutter_free(all);
    stutter_free_is_untouched(without_stutters(all));
}

// ---------------------------------------------------------------------------
// Which fillers are removed
// ---------------------------------------------------------------------------

/// The user's list is taken whole: the patterns are those of its words that are not blank,
/// one for each and in their order.
pub proof fn every_custom_word_has_its_pattern(custom_words: Seq<Seq<char>>)
    ensures
        custom_patterns(custom_words) == custom_words.filter(
            |word: Seq<char>| !is_blank(word),
        ).map_values(|word: Seq<char>| word_pattern(word)),
        forall|i: int|
            0 <= i < custom_words.len() && !is_blank(#[trigger] custom_words[i])
                ==> custom_patterns(custom_words).contains(word_pattern(custom_words[i])),
    decreases custom_words.len(),
{
    reveal(Seq::filter);
    let held = |word: Seq<char>| !is_blank(word);
    let pattern = |word: Seq<char>| word_pattern(word);
    if custom_words.len() > 0 {
        let rest = custom_words.drop_last();
        every_custom_word_has_its_pattern(rest);
        let before = custom_patterns(rest);
        let all = custom_patterns(custom_words);
        let last = custom_words.last();
        if is_blank(last) {
            assert(custom_words.filter(held) == rest.filter(held));
        } else {
            assert(custom_words.filter(held) == rest.filter(held).push(last));
            assert(rest.filter(held).push(last).map_values(pattern) =~= rest.filter(
                held,
            ).map_values(pattern).push(pattern(last)));
        }
        assert forall|i: int|
            0 <= i < custom_words.len() && !is_blank(
                #[trigger] custom_words[i],
            ) implies all.contains(word_pattern(custom_words[i])) by {
            if i < rest.len() {
                assert(rest[i] == custom_words[i]);
                assert(before.contains(word_pattern(rest[i])));
                let k = choose|k: int|
                    0 <= k < before.len() && before[k] == word_pattern(rest[i]);
                assert(all[k] == before[k]);
            } else {
                assert(all.last() == word_pattern(last));
                assert(all[all.len() - 1] == word_pattern(last));
            }
        }
    } else {
        assert(custom_patterns(custom_words) =~= custom_words.filter(held).map_values(pattern));
    }
}

/// The user's words replace the English ones where there are any and all can be used, and
/// otherwise the English ones stand.
pub proof fn custom_words_replace_the_builtin_ones(custom_words: Seq<Seq<char>>)
    ensures
        (forall|i: int| 0 <= i < custom_words.len() ==> is_blank(#[trigger] custom_words[i]))
            ==> active_patterns(custom_words) == builtin_patterns(),
        (exists|i: int| 0 <= i < custom_words.len() && !is_blank(#[trigger] custom_words[i])) && (
        forall|i: int|
            0 <= i < custom_words.len() && !is_blank(#[trigger] custom_words[i])
                ==> regex_compiles(word_pattern(custom_words[i]))) ==> active_patterns(
            custom_words,
        ) == custom_patterns(custom_words),
        (exists|i: int|
            0 <= i < custom_words.len() && !is_blank(#[trigger] custom_words[i])
                && !regex_compiles(word_pattern(custom_words[i]))) ==> active_patterns(
            custom_words,
        ) == builtin_patterns(),
{
    every_custom_word_has_its_pattern(custom_words);
    patterns_come_from_words(custom_words);
    let custom = custom_patterns(custom_words);
    if forall|i: int| 0 <= i < custom_words.len() ==> is_blank(#[trigger] custom_words[i]) {
        if custom.len() > 0 {
            assert(custom.contains(custom[0]));
        }
    }
    if exists|i: int|
        0 <= i < custom_words.len() && !is_blank(#[trigger] custom_words[i]) && !regex_compiles(
            word_pattern(custom_words[i]),
        ) {
        let i = choose|i: int|
            0 <= i < custom_words.len() && !is_blank(#[trigger] custom_words[i])
                && !regex_compiles(word_pattern(custom_words[i]));
        let k = choose|k: int|
            0 <= k < custom.len() && custom[k] == word_pattern(custom_words[i]);
        assert(!regex_compiles(custom[k]));
    }
    if exists|i: int| 0 <= i < custom_words.len() && !is_blank(#[trigger] custom_words[i]) {
        let i = choose|i: int| 0 <= i < custom_words.len() && !is_blank(#[trigger] custom_words[i]);
        assert(custom.contains(word_pattern(custom_words[i])));
        assert(custom.len() > 0);
    }
}

proof fn patterns_come_from_words(custom_words: Seq<Seq<char>>)
    ensures
        forall|k: int|
            0 <= k < custom_patterns(custom_words).len() ==> exists|i: int|
                0 <= i < custom_words.len() && !is_blank(#[trigger] custom_words[i])
                    && #[trigger] custom_patterns(custom_words)[k] == word_pattern(custom_words[i]),
    decreases custom_words.len(),
{
    if custom_words.len() > 0 {
        let rest = custom_words.drop_last();
        patterns_come_from_words(rest);
        let all = custom_patterns(custom_words);
        let before = custom_patterns(rest);
        assert forall|k: int| 0 <= k < all.len() implies exists|i: int|
            0 <= i < custom_words.len() && !is_blank(#[trigger] custom_words[i])
                && #[trigger] all[k] == word_pattern(custom_words[i]) by {
            if k < before.len() {
                assert(all[k] == before[k]);
                let i = choose|i: int|
                    0 <= i < rest.len() && !is_blank(#[trigger] rest[i]) && before[k]
                        == word_pattern(rest[i]);
                assert(custom_words[i] == rest[i]);
            } else {
                assert(custom_words[custom_words.len() - 1] == custom_words.last());
            }
        }
    }
}

/// A text of plain characters is its own pattern, and a meta character is escaped wherever
/// it stands.
pub proof fn only_meta_characters_are_escaped(front: Seq<char>, c: char, back: Seq<char>)
    ensures
        escaped(front + back) == escaped(front) + escaped(back),
        escaped(seq![c]) == if is_meta_character(c) {
            seq!['\\', c]
        } else {
            seq![c]
        },
    decreases back.len(),
{
    reveal_with_fuel(escaped, 2);
    if back.len() == 0 {
        assert(front + back =~= front);
        assert(escaped(front) + escaped(back) =~= escaped(front));
    } else {
        only_meta_characters_are_escaped(front, c, back.drop_last());
        assert((front + back).drop_last() =~= front + back.drop_last());
        assert((front + back).last() == back.last());
        assert(escaped(front + back) =~= escaped(front) + escaped(back));
    }
    assert(seq![c].drop_last() =~= Seq::<char>::empty());
    assert(escaped(seq![c]) =~= if is_meta_character(c) {
        seq!['\\', c]
    } else {
        seq![c]
    });
}

/// White space around a word of the list makes no difference to its pattern.
pub proof fn white_space_around_a_word_makes_no_difference(
    front: Seq<char>,
    word: Seq<char>,
    back: Seq<char>,
)
    requires
        all_white_space(front),
        all_white_space(back),
        word.len() > 0,
        !is_white_space(word[0]) && !is_white_space(word.last()),
    ensures
        word_pattern(front + word + back) == "(?i)\\b"@ + escaped(word) + ",?\\s*"@,
{
    trimming_keeps_what_stands_between(front, word, back);
}

/// The patterns take effect one after the other, each on what the ones before it left, and
/// every one that compiles does.
pub proof fn patterns_take_effect_in_turn(text: Seq<char>, a: Seq<Seq<char>>, b: Seq<Seq<char>>)
    ensures
        stripped(text, a + b) == stripped(stripped(text, a), b),
        a.len() == 1 && regex_compiles(a[0]) ==> stripped(text, a) == regex_replaced(
            a[0],
            text,
            ""@,
        ),
        a.len() == 1 && !regex_compiles(a[0]) ==> stripped(text, a) == text,
        stripped(text, Seq::empty()) == text,
    decreases b.len(),
{
    reveal_with_fuel(stripped, 2);
    if b.len() == 0 {
        assert(a + b =~= a);
    } else {
        patterns_take_effect_in_turn(text, a, b.drop_last());
        assert((a + b).drop_last() =~= a + b.drop_last());
        assert((a + b).last() == b.last());
    }
}

/// A word said again right behind itself, in whatever case, makes no difference wherever it
/// stands; and words that are not so repeated are all kept as they are.
pub proof fn a_repeated_word_makes_no_difference(
    front: Seq<Seq<char>>,
    word: Seq<char>,
    again: Seq<char>,
    back: Seq<Seq<char>>,
)
    requires
        eq_ignore_ascii_case(word, again),
    ensures
        without_stutters(front.push(word).push(again) + back) == without_stutters(
            front.push(word) + back,
        ),
        stutter_free(front) ==> without_stutters(front) == front,
{
    let once = front.push(word);
    let twice = once.push(again);
    assert(twice.drop_last() =~= once);
    assert(once.drop_last() =~= front);
    assert(eq_ignore_ascii_case(without_stutters(once).last(), word));
    assert(without_stutters(twice) == without_stutters(once));
    same_so_far_same_later(twice, once, back);
    if stutter_free(front) {
        stutter_free_is_untouched(front);
    }
}

proof fn same_so_far_same_later(a: Seq<Seq<char>>, b: Seq<Seq<char>>, rest: Seq<Seq<char>>)
    requires
        without_stutters(a) == without_stutters(b),
    ensures
        without_stutters(a + rest) == without_stutters(b + rest),
    decreases rest.len(),
{
    if rest.len() == 0 {
        assert(a + rest =~= a);
        assert(b + rest =~= b);
    } else {
        same_so_far_same_later(a, b, rest.drop_last());
        assert((a + rest).drop_last() =~= a + rest.drop_last());
        assert((b + rest).drop_last() =~= b + rest.drop_last());
        assert((a + rest).last() == rest.last());
        assert((b + rest).last() == rest.last());
    }
}

/// A text of words that neither a pattern touches nor repeat each other comes back as it is.
pub proof fn tidy_text_comes_back(parts: Seq<Seq<char>>, custom_words: Seq<Seq<char>>)
    requires
        all_words(parts),
        stutter_free(parts),
        stripped(join(parts, " "@), active_patterns(custom_words)) == join(parts, " "@),
    ensures
        without_fillers(join(parts, " "@), custom_words) == join(parts, " "@),
{
    splitting_undoes_joining(parts);
    stutter_free_is_untouched(parts);
}

} // verus!
