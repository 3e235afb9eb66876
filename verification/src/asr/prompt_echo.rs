//! Recognising a transcript that only repeats the prompt.

use vstd::prelude::*;
use vstd::string::*;

use crate::arith::{capped, saturating_product};
use crate::split::{contains, contains_text, split_words, words};
use crate::text::{
    alphanumeric, ascii_lowered, chars_of, is_letter_or_digit, lowercase, lowercase_chars, same_text, string_of,
    views,
};

verus! {

broadcast use vstd::string::group_string_axioms;

/// The normal form of a text's beginning: letters and digits in lower case, and one space
/// for whatever stands between or after them.
pub open spec fn normalized_prefix(s: Seq<char>) -> Seq<char>
    decreases s.len(),
{
    if s.len() == 0 {
        s
    } else {
        let before = normalized_prefix(s.drop_last());
        if is_letter_or_digit(s.last()) {
            before + lowercase(s.last())
        } else if ends_in_word(s.drop_last()) {
            before.push(' ')
        } else {
            before
        }
    }
}

/// The text ends in a letter or digit.
pub open spec fn ends_in_word(s: Seq<char>) -> bool {
    s.len() > 0 && is_letter_or_digit(s.last())
}

/// The normal form of a text: words of lower-case letters and digits with one space
/// between them.
pub open spec fn normalized(s: Seq<char>) -> Seq<char> {
    let all = normalized_prefix(s);
    if all.len() > 0 && all.last() == ' ' {
        all.drop_last()
    } else {
        all
    }
}

/// Brings a text to its normal form.
pub fn normalize(input: &str) -> (result: String)
    ensures
        result@ == normalized(input@),
{
    let chars = chars_of(input);
    let mut output: Vec<char> = Vec::new();
    let mut previous_space = true;
    let mut i: usize = 0;
    assert(output@ =~= normalized_prefix(input@.take(0)));
    while i < chars.len()
        invariant
            i <= chars.len(),
            chars@ == input@,
            previous_space == !ends_in_word(input@.take(i as int)),
            output@ == normalized_prefix(input@.take(i as int)),
        decreases chars.len() - i,
    {
        let c = chars[i];
        assert(input@.take(i + 1).drop_last() =~= input@.take(i as int));
        assert(input@.take(i + 1).last() == c);
        if alphanumeric(c) {
            let mut lowered = lowercase_chars(c);
            output.append(&mut lowered);
            previous_space = false;
        } else if !previous_space {
            output.push(' ');
            previous_space = true;
        }
        i += 1;
    }
    assert(input@.take(i as int) =~= input@);
    if output.len() > 0 && output[output.len() - 1] == ' ' {
        let _ = output.pop();
        assert(output@ =~= normalized_prefix(input@).drop_last());
    }
    string_of(&output)
}

// ---------------------------------------------------------------------------
// The longest run of words in common
// ---------------------------------------------------------------------------

/// The same `length` words stand at `i` in the first list and at `j` in the second.
pub open spec fn common_run(
    first: Seq<Seq<char>>,
    second: Seq<Seq<char>>,
    i: int,
    j: int,
    length: int,
) -> bool {
    &&& 0 <= i && 0 <= j && 0 <= length
    &&& i + length <= first.len() && j + length <= second.len()
    &&& first.subrange(i, i + length) == second.subrange(j, j + length)
}

/// `length` is the length of the longest run of words that two lists have in common.
pub open spec fn is_longest_run(
    first: Seq<Seq<char>>,
    second: Seq<Seq<char>>,
    length: int,
) -> bool {
    &&& exists|i: int, j: int| common_run(first, second, i, j, length)
    &&& forall|i: int, j: int, n: int| common_run(first, second, i, j, n) ==> n <= length
}

/// The length of the longest run of words that two lists have in common.
pub open spec fn longest_run(first: Seq<Seq<char>>, second: Seq<Seq<char>>) -> int {
    choose|length: int| is_longest_run(first, second, length)
}

/// There is one longest length.
pub proof fn longest_run_is_unique(first: Seq<Seq<char>>, second: Seq<Seq<char>>, length: int)
    requires
        is_longest_run(first, second, length),
    ensures
        longest_run(first, second) == length,
{
    let other = longest_run(first, second);
    assert(is_longest_run(first, second, other));
    let (i, j) = choose|i: int, j: int| common_run(first, second, i, j, length);
    assert(common_run(first, second, i, j, length));
    let (p, q) = choose|p: int, q: int| common_run(first, second, p, q, other);
    assert(common_run(first, second, p, q, other));
}

/// The length of the longest common run that ends with the words at `i` and `j`.
spec fn run_ending(first: Seq<Seq<char>>, second: Seq<Seq<char>>, i: int, j: int) -> int
    decreases i + 1,
{
    if !(0 <= i < first.len() && 0 <= j < second.len()) || first[i] != second[j] {
        0
    } else {
        1 + run_ending(first, second, i - 1, j - 1)
    }
}

proof fn run_ending_is_common(first: Seq<Seq<char>>, second: Seq<Seq<char>>, i: int, j: int)
    requires
        0 <= i < first.len(),
        0 <= j < second.len(),
    ensures
        0 <= run_ending(first, second, i, j) <= i + 1,
        run_ending(first, second, i, j) <= j + 1,
        common_run(
            first,
            second,
            i + 1 - run_ending(first, second, i, j),
            j + 1 - run_ending(first, second, i, j),
            run_ending(first, second, i, j),
        ),
    decreases i,
{
    reveal_with_fuel(run_ending, 2);
    let n = run_ending(first, second, i, j);
    if first[i] == second[j] {
        if i > 0 && j > 0 {
            run_ending_is_common(first, second, i - 1, j - 1);
        }
        let p = i + 1 - n;
        let q = j + 1 - n;
        if i > 0 && j > 0 {
            assert(first.subrange(p, i) == second.subrange(q, j));
        } else {
            assert(n == 1);
            assert(first.subrange(p, i) =~= second.subrange(q, j));
        }
        assert(first.subrange(p, i + 1) =~= first.subrange(p, i).push(first[i]));
        assert(second.subrange(q, j + 1) =~= second.subrange(q, j).push(second[j]));
    } else {
        assert(first.subrange(i + 1, i + 1) =~= second.subrange(j + 1, j + 1));
    }
}

proof fn common_runs_are_counted(
    first: Seq<Seq<char>>,
    second: Seq<Seq<char>>,
    i: int,
    j: int,
    n: int,
)
    requires
        common_run(first, second, i, j, n),
        n > 0,
    ensures
        run_ending(first, second, i + n - 1, j + n - 1) >= n,
    decreases n,
{
    let p = i + n - 1;
    let q = j + n - 1;
    assert(first.subrange(i, i + n)[n - 1] == second.subrange(j, j + n)[n - 1]);
    assert(first[p] == second[q]);
    assert(run_ending(first, second, p, q) == 1 + run_ending(first, second, p - 1, q - 1));
    if n > 1 {
        assert(first.subrange(i, i + (n - 1)) =~= first.subrange(i, i + n).take(n - 1));
        assert(second.subrange(j, j + (n - 1)) =~= second.subrange(j, j + n).take(n - 1));
        common_runs_are_counted(first, second, i, j, n - 1);
        assert(i + (n - 1) - 1 == p - 1 && j + (n - 1) - 1 == q - 1);
    } else {
        runs_are_not_below_nought(first, second, p - 1, q - 1);
    }
}

proof fn runs_are_not_below_nought(
    first: Seq<Seq<char>>,
    second: Seq<Seq<char>>,
    i: int,
    j: int,
)
    ensures
        run_ending(first, second, i, j) >= 0,
    decreases i + 1,
{
    if 0 <= i < first.len() && 0 <= j < second.len() && first[i] == second[j] {
        runs_are_not_below_nought(first, second, i - 1, j - 1);
    }
}

/// The contents of a list of texts.
pub open spec fn text_views(parts: Seq<&str>) -> Seq<Seq<char>> {
    Seq::new(parts.len(), |i: int| parts[i]@)
}

/// `best` bounds every run that ends before row `i`, or in row `i` before column `j`.
spec fn best_so_far(
    first: Seq<Seq<char>>,
    second: Seq<Seq<char>>,
    i: int,
    j: int,
    best: int,
) -> bool {
    &&& best == 0 || exists|p: int, q: int|
        0 <= p < first.len() && 0 <= q < second.len() && best == #[trigger] run_ending(
            first,
            second,
            p,
            q,
        )
    &&& forall|p: int, q: int|
        0 <= p < first.len() && 0 <= q < second.len() && (p < i || (p == i && q < j))
            ==> #[trigger] run_ending(first, second, p, q) <= best
}

proof fn best_is_longest(first: Seq<Seq<char>>, second: Seq<Seq<char>>, best: int)
    requires
        best_so_far(first, second, first.len() as int, 0, best),
        best >= 0,
    ensures
        is_longest_run(first, second, best),
        longest_run(first, second) == best,
        best <= first.len(),
        best <= second.len(),
{
    if best == 0 {
        assert(first.subrange(0, 0) =~= second.subrange(0, 0));
        assert(common_run(first, second, 0, 0, 0));
    } else {
        let (p, q) = choose|p: int, q: int|
            0 <= p < first.len() && 0 <= q < second.len() && best == #[trigger] run_ending(
                first,
                second,
                p,
                q,
            );
        run_ending_is_common(first, second, p, q);
    }
    assert forall|i: int, j: int, n: int| common_run(first, second, i, j, n) implies n <= best by {
        if n > 0 {
            common_runs_are_counted(first, second, i, j, n);
        }
    }
    longest_run_is_unique(first, second, best);
}

/// The length of the longest run of words that two lists have in common.
pub fn longest_common_word_run(first: &[&str], second: &[&str]) -> (best: usize)
    ensures
        best == longest_run(text_views(first@), text_views(second@)),
        is_longest_run(text_views(first@), text_views(second@), best as int),
        best <= first@.len(),
{
    let ghost a = text_views(first@);
    let ghost b = text_views(second@);
    let mut best: usize = 0;
    let mut previous: Vec<usize> = Vec::new();
    let mut i: usize = 0;
    while i < first.len()
        invariant
            i <= first@.len(),
            a == text_views(first@),
            b == text_views(second@),
            i > 0 ==> previous@.len() == second@.len() && forall|q: int|
                0 <= q < second@.len() ==> #[trigger] previous@[q] == run_ending(
                    a,
                    b,
                    i - 1,
                    q,
                ),
            best_so_far(a, b, i as int, 0, best as int),
        decreases first@.len() - i,
    {
        let mut current: Vec<usize> = Vec::new();
        let mut j: usize = 0;
        while j < second.len()
            invariant
                i < first@.len(),
                j <= second@.len(),
                a == text_views(first@),
                b == text_views(second@),
                i > 0 ==> previous@.len() == second@.len() && forall|q: int|
                    0 <= q < second@.len() ==> #[trigger] previous@[q] == run_ending(
                        a,
                        b,
                        i - 1,
                        q,
                    ),
                current@.len() == j,
                forall|q: int|
                    0 <= q < j ==> #[trigger] current@[q] == run_ending(a, b, i as int, q),
                best_so_far(a, b, i as int, j as int, best as int),
            decreases second@.len() - j,
        {
            proof {
                reveal_with_fuel(run_ending, 2);
                run_ending_is_common(a, b, i as int, j as int);
                if i > 0 && j > 0 {
                    run_ending_is_common(a, b, i - 1, j - 1);
                    assert(previous@[j - 1] == run_ending(a, b, i - 1, j - 1));
                }
                assert(a[i as int] == first@[i as int]@);
                assert(b[j as int] == second@[j as int]@);
            }
            let run: usize = if same_text(first[i], second[j]) {
                if i == 0 || j == 0 {
                    1
                } else {
                    previous[j - 1] + 1
                }
            } else {
                0
            };
            assert(run == run_ending(a, b, i as int, j as int));
            current.push(run);
            if run > best {
                best = run;
            }
            j += 1;
        }
        previous = current;
        i += 1;
    }
    proof {
        assert(a.len() == first@.len());
        best_is_longest(a, b, best as int);
    }
    best
}

// ---------------------------------------------------------------------------
// Echoes
// ---------------------------------------------------------------------------

/// A response echoes a prompt when, in normal form, it has eight characters or more and
/// either stands in the prompt as it is, or shares with it a run of six words or more that
/// makes up seven tenths of its words.
pub open spec fn echoes(response: Seq<char>, prompt: Seq<char>) -> bool {
    let r = normalized(response);
    let p = normalized(prompt);
    let run = longest_run(words(r), words(p));
    &&& r.len() >= 8
    &&& p.len() > 0
    &&& contains_text(p, r) || (words(r).len() >= 6 && run >= 6 && capped(run * 10) >= capped(
        words(r).len() as int * 7,
    ))
}

fn as_texts(parts: &Vec<String>) -> (result: Vec<&str>)
    ensures
        text_views(result@) == views(parts@),
{
    let mut result: Vec<&str> = Vec::new();
    let mut i: usize = 0;
    while i < parts.len()
        invariant
            i <= parts.len(),
            result@.len() == i,
            forall|k: int| 0 <= k < i ==> (#[trigger] result@[k])@ == parts@[k]@,
        decreases parts.len() - i,
    {
        result.push(parts[i].as_str());
        i += 1;
    }
    assert(text_views(result@) =~= views(parts@));
    result
}

/// Whether a response only repeats the prompt.
#[must_use]
pub fn is_prompt_echo(response: &str, prompt: &str) -> (result: bool)
    ensures
        result == echoes(response@, prompt@),
{
    let response = normalize(response);
    let prompt = normalize(prompt);
    let response_size: usize = chars_of(response.as_str()).len();
    let prompt_size: usize = chars_of(prompt.as_str()).len();
    if response_size < 8 || prompt_size == 0 {
        return false;
    }
    if contains(prompt.as_str(), response.as_str()) {
        return true;
    }
    let response_words = split_words(response.as_str());
    let prompt_words = split_words(prompt.as_str());
    assert(views(response_words@).len() == response_words@.len());
    if response_words.len() < 6 {
        return false;
    }
    let first = as_texts(&response_words);
    let second = as_texts(&prompt_words);
    let run = longest_common_word_run(first.as_slice(), second.as_slice());
    run >= 6 && saturating_product(run, 10) >= saturating_product(response_words.len(), 7)
}

/// Keeps a transcript unless it only repeats the prompt.
pub fn filter_prompt_echo(text: String, prompt: Option<&str>) -> (result: String)
    ensures
        prompt is Some && echoes(text@, prompt->0@) ==> result@.len() == 0,
        !(prompt is Some && echoes(text@, prompt->0@)) ==> result == text,
{
    match prompt {
        Some(prompt) => {
            if is_prompt_echo(text.as_str(), prompt) {
                String::new()
            } else {
                text
            }
        },
        None => text,
    }
}

/// A prompt of eight characters or more in normal form echoes itself.
pub proof fn a_prompt_echoes_itself(prompt: Seq<char>)
    requires
        normalized(prompt).len() >= 8,
    ensures
        echoes(prompt, prompt),
{
    let p = normalized(prompt);
    assert(p.subrange(0, p.len() as int) =~= p);
    assert(crate::split::occurs_at(p, p, 0));
}

/// A response shorter than eight characters in normal form echoes nothing, and nothing
/// echoes a prompt without letters and digits.
pub proof fn short_responses_never_echo(response: Seq<char>, prompt: Seq<char>)
    requires
        normalized(response).len() < 8 || normalized(prompt).len() == 0,
    ensures
        !echoes(response, prompt),
{
}

// ---------------------------------------------------------------------------
// What is an echo, told of the two texts
// ---------------------------------------------------------------------------

/// A fragment of the prompt is an echo: a response whose normal form has eight characters or
/// more and is a stretch of the prompt's.
pub proof fn a_fragment_of_the_prompt_is_an_echo(response: Seq<char>, prompt: Seq<char>, at: int)
    requires
        normalized(response).len() >= 8,
        0 <= at,
        at + normalized(response).len() <= normalized(prompt).len(),
        normalized(prompt).subrange(at, at + normalized(response).len()) == normalized(response),
    ensures
        echoes(response, prompt),
{
    assert(crate::split::occurs_at(normalized(prompt), normalized(response), at));
}

/// A response that shares with the prompt a run of six words or more, which makes up seven
/// tenths of its words, is an echo.
pub proof fn a_long_run_of_the_prompt_is_an_echo(
    response: Seq<char>,
    prompt: Seq<char>,
    i: int,
    j: int,
    n: int,
)
    requires
        normalized(response).len() >= 8,
        normalized(prompt).len() > 0,
        common_run(words(normalized(response)), words(normalized(prompt)), i, j, n),
        n >= 6,
        10 * n >= 7 * words(normalized(response)).len(),
    ensures
        echoes(response, prompt),
{
    let a = words(normalized(response));
    let b = words(normalized(prompt));
    longest_run_exists(a, b);
    assert(n <= longest_run(a, b));
}

/// Real speech is kept: a response is no echo where it is no stretch of the prompt and has
/// fewer than six words, or shares with the prompt no run of six words that makes up seven
/// tenths of its own.
pub proof fn real_speech_is_no_echo(response: Seq<char>, prompt: Seq<char>)
    requires
        words(normalized(response)).len() * 10 <= usize::MAX,
        forall|at: int|
            0 <= at && at + normalized(response).len() <= normalized(prompt).len()
                ==> #[trigger] normalized(prompt).subrange(at, at + normalized(response).len())
                != normalized(response),
        words(normalized(response)).len() < 6 || forall|i: int, j: int, n: int|
            #[trigger] common_run(
                words(normalized(response)),
                words(normalized(prompt)),
                i,
                j,
                n,
            ) ==> n < 6 || 10 * n < 7 * words(normalized(response)).len(),
    ensures
        !echoes(response, prompt),
{
    let r = normalized(response);
    let p = normalized(prompt);
    let a = words(r);
    let b = words(p);
    if contains_text(p, r) {
        let at = choose|at: int| #[trigger] crate::split::occurs_at(p, r, at);
        assert(p.subrange(at, at + r.len()) == r);
    }
    longest_run_exists(a, b);
    let run = longest_run(a, b);
    let (i, j) = choose|i: int, j: int| common_run(a, b, i, j, run);
    assert(common_run(a, b, i, j, run));
}

/// A response longer than the prompt, in normal form, and of fewer than six words is never
/// an echo: it says more than the prompt does.
pub proof fn saying_more_than_the_prompt_is_no_echo(response: Seq<char>, prompt: Seq<char>)
    requires
        normalized(response).len() > normalized(prompt).len(),
        words(normalized(response)).len() < 6,
    ensures
        !echoes(response, prompt),
{
    real_speech_is_no_echo(response, prompt);
}

proof fn longest_run_exists(first: Seq<Seq<char>>, second: Seq<Seq<char>>)
    ensures
        is_longest_run(first, second, longest_run(first, second)),
{
    assert(first.subrange(0, 0) =~= second.subrange(0, 0));
    assert(common_run(first, second, 0, 0, 0));
    longest_run_below(first, second, first.len() as int);
}

proof fn longest_run_below(first: Seq<Seq<char>>, second: Seq<Seq<char>>, bound: int)
    requires
        0 <= bound,
        common_run(first, second, 0, 0, 0),
        forall|i: int, j: int, n: int| common_run(first, second, i, j, n) ==> n <= bound,
    ensures
        exists|length: int| is_longest_run(first, second, length),
    decreases bound,
{
    if exists|i: int, j: int| common_run(first, second, i, j, bound) {
        assert(is_longest_run(first, second, bound));
    } else {
        if bound == 0 {
            assert(common_run(first, second, 0, 0, bound));
        }
        assert forall|i: int, j: int, n: int| common_run(first, second, i, j, n) implies n <= bound
            - 1 by {
            if n == bound {
                assert(common_run(first, second, i, j, bound));
            }
        }
        longest_run_below(first, second, bound - 1);
    }
}

/// The characters are all ASCII letters and digits.
pub open spec fn plain_word(s: Seq<char>) -> bool {
    s.len() > 0 && forall|i: int|
        0 <= i < s.len() ==> ('a' <= #[trigger] s[i] <= 'z' || 'A' <= s[i] <= 'Z' || '0' <= s[i]
            <= '9')
}

/// None of the characters is a letter or a digit.
pub open spec fn only_separators(s: Seq<char>) -> bool {
    s.len() > 0 && forall|i: int| 0 <= i < s.len() ==> !is_letter_or_digit(#[trigger] s[i])
}

/// What stands between words makes no difference: any punctuation and white space may be put
/// in the place of any other.
pub proof fn separators_make_no_difference(
    front: Seq<char>,
    a: Seq<char>,
    b: Seq<char>,
    back: Seq<char>,
)
    requires
        only_separators(a),
        only_separators(b),
    ensures
        normalized(front + a + back) == normalized(front + b + back),
{
    separators_fold(front, a);
    separators_fold(front, b);
    same_prefix_same_form(front + a, front + b, back);
}

proof fn separators_fold(front: Seq<char>, a: Seq<char>)
    requires
        only_separators(a),
    ensures
        normalized_prefix(front + a) == if ends_in_word(front) {
            normalized_prefix(front).push(' ')
        } else {
            normalized_prefix(front)
        },
        !ends_in_word(front + a),
    decreases a.len(),
{
    let rest = a.drop_last();
    assert((front + a).drop_last() =~= front + rest);
    assert((front + a).last() == a[a.len() - 1]);
    if rest.len() == 0 {
        assert(front + rest =~= front);
    } else {
        assert forall|i: int| 0 <= i < rest.len() implies !is_letter_or_digit(
            #[trigger] rest[i],
        ) by {
            assert(rest[i] == a[i]);
        }
        separators_fold(front, rest);
    }
}

proof fn same_prefix_same_form(a: Seq<char>, b: Seq<char>, rest: Seq<char>)
    requires
        normalized_prefix(a) == normalized_prefix(b),
        ends_in_word(a) == ends_in_word(b),
    ensures
        normalized_prefix(a + rest) == normalized_prefix(b + rest),
        ends_in_word(a + rest) == ends_in_word(b + rest),
    decreases rest.len(),
{
    if rest.len() == 0 {
        assert(a + rest =~= a);
        assert(b + rest =~= b);
    } else {
        same_prefix_same_form(a, b, rest.drop_last());
        assert((a + rest).drop_last() =~= a + rest.drop_last());
        assert((b + rest).drop_last() =~= b + rest.drop_last());
        assert((a + rest).last() == rest.last());
        assert((b + rest).last() == rest.last());
    }
}

/// A plain word is kept in lower case, and two words with separators between them are kept
/// with one space between them, whatever stands around them.
pub proof fn words_are_kept_in_lower_case(
    before: Seq<char>,
    a: Seq<char>,
    between: Seq<char>,
    b: Seq<char>,
    behind: Seq<char>,
)
    requires
        plain_word(a),
        plain_word(b),
        only_separators(between),
        only_separators(before),
        only_separators(behind),
    ensures
        normalized(a) == ascii_lowered(a),
        normalized(before + a + between + b + behind) == ascii_lowered(a) + " "@ + ascii_lowered(
            b,
        ),
{
    reveal_strlit(" ");
    let empty = Seq::<char>::empty();
    word_folds(empty, a);
    assert(empty + a =~= a);
    assert(empty + ascii_lowered(a) =~= ascii_lowered(a));
    plain_words_end_plainly(a);
    plain_words_end_plainly(b);
    separators_fold(empty, before);
    assert(empty + before =~= before);
    word_folds(before, a);
    separators_fold(before + a, between);
    word_folds(before + a + between, b);
    separators_fold(before + a + between + b, behind);
    let whole = ascii_lowered(a).push(' ') + ascii_lowered(b);
    assert(whole =~= ascii_lowered(a) + " "@ + ascii_lowered(b));
    assert(whole.push(' ').drop_last() =~= whole);
}

proof fn plain_words_end_plainly(a: Seq<char>)
    requires
        plain_word(a),
    ensures
        ascii_lowered(a).last() != ' ',
        ascii_lowered(a).len() > 0,
{
    let c = a[a.len() - 1];
    assert('a' <= c <= 'z' || 'A' <= c <= 'Z' || '0' <= c <= '9');
    assert(ascii_lowered(a).last() == crate::text::ascii_lower(c));
}

proof fn word_folds(front: Seq<char>, a: Seq<char>)
    requires
        plain_word(a),
    ensures
        normalized_prefix(front + a) == normalized_prefix(front) + ascii_lowered(a),
        ends_in_word(front + a),
    decreases a.len(),
{
    let rest = a.drop_last();
    let c = a[a.len() - 1];
    assert((front + a).drop_last() =~= front + rest);
    assert((front + a).last() == c);
    assert('a' <= c <= 'z' || 'A' <= c <= 'Z' || '0' <= c <= '9');
    if rest.len() == 0 {
        assert(front + rest =~= front);
        assert(normalized_prefix(front) + crate::text::lowercase(c) =~= normalized_prefix(front)
            + ascii_lowered(a));
    } else {
        assert forall|i: int| 0 <= i < rest.len() implies ('a' <= #[trigger] rest[i] <= 'z' || 'A'
            <= rest[i] <= 'Z' || '0' <= rest[i] <= '9') by {
            assert(rest[i] == a[i]);
        }
        word_folds(front, rest);
        assert(normalized_prefix(front) + ascii_lowered(rest) + crate::text::lowercase(c)
            =~= normalized_prefix(front) + ascii_lowered(a));
    }
}

} // verus!
