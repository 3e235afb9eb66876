//! Text as sequences of characters: trimming, splitting, joining, searching and
//! decimal numbers, each with its meaning stated over `Seq<char>`.

use vstd::prelude::*;
use vstd::string::*;

verus! {

broadcast use vstd::string::group_string_axioms;

/// `String::push` appends one character to the text.
pub assume_specification[ String::push ](s: &mut String, c: char)
    ensures
        final(s)@ == old(s)@.push(c),
;

/// What `char::is_alphanumeric` answers.
pub uninterp spec fn unicode_alphanumeric(c: char) -> bool;

/// `char::is_alphanumeric` depends on the character alone. Nothing more is claimed of it.
pub assume_specification[ char::is_alphanumeric ](c: char) -> (result: bool)
    ensures
        result == unicode_alphanumeric(c),
;

/// The characters that `char::to_lowercase` yields.
pub uninterp spec fn unicode_lowercase(c: char) -> Seq<char>;

/// Collects what `char::to_lowercase` yields; it depends on the character alone.
/// Nothing more is claimed of it.
#[verifier::external_body]
fn unicode_lowercase_chars(c: char) -> (result: Vec<char>)
    ensures
        result@ == unicode_lowercase(c),
{
    c.to_lowercase().collect()
}

// ---------------------------------------------------------------------------
// Characters
// ---------------------------------------------------------------------------

/// The characters with the Unicode property `White_Space`.
pub open spec fn is_white_space(c: char) -> bool {
    let n = c as u32;
    ||| 0x09 <= n <= 0x0d
    ||| n == 0x20
    ||| n == 0x85
    ||| n == 0xa0
    ||| n == 0x1680
    ||| 0x2000 <= n <= 0x200a
    ||| n == 0x2028
    ||| n == 0x2029
    ||| n == 0x202f
    ||| n == 0x205f
    ||| n == 0x3000
}

/// Whether a character is white space.
pub fn white_space(c: char) -> (result: bool)
    ensures
        result == is_white_space(c),
{
    let n: u32 = c as u32;
    (0x09 <= n && n <= 0x0d) || n == 0x20 || n == 0x85 || n == 0xa0 || n == 0x1680 || (0x2000 <= n
        && n <= 0x200a) || n == 0x2028 || n == 0x2029 || n == 0x202f || n == 0x205f || n == 0x3000
}

/// An ASCII letter or digit.
pub open spec fn is_ascii_alphanumeric(c: char) -> bool {
    ('a' <= c && c <= 'z') || ('A' <= c && c <= 'Z') || ('0' <= c && c <= '9')
}

/// A letter or digit: decided here for ASCII, and by Unicode's tables beyond it.
pub open spec fn is_letter_or_digit(c: char) -> bool {
    if (c as u32) < 128 {
        is_ascii_alphanumeric(c)
    } else {
        unicode_alphanumeric(c)
    }
}

/// Whether a character is a letter or a digit.
pub fn alphanumeric(c: char) -> (result: bool)
    ensures
        result == is_letter_or_digit(c),
{
    if (c as u32) < 128 {
        ('a' <= c && c <= 'z') || ('A' <= c && c <= 'Z') || ('0' <= c && c <= '9')
    } else {
        c.is_alphanumeric()
    }
}

/// The lower-case form of an ASCII capital; any other character as it is.
pub open spec fn ascii_lower(c: char) -> char {
    if 'A' <= c && c <= 'Z' {
        (c as u8 + 32) as char
    } else {
        c
    }
}

/// Lowers an ASCII capital and keeps any other character.
pub fn to_ascii_lower(c: char) -> (result: char)
    ensures
        result == ascii_lower(c),
{
    if 'A' <= c && c <= 'Z' {
        (c as u8 + 32) as char
    } else {
        c
    }
}

/// The lower-case form of a character: decided here for ASCII, and by Unicode's
/// tables beyond it.
pub open spec fn lowercase(c: char) -> Seq<char> {
    if (c as u32) < 128 {
        seq![ascii_lower(c)]
    } else {
        unicode_lowercase(c)
    }
}

/// The characters of the lower-case form of a character.
pub fn lowercase_chars(c: char) -> (result: Vec<char>)
    ensures
        result@ == lowercase(c),
{
    if (c as u32) < 128 {
        let mut one: Vec<char> = Vec::new();
        one.push(to_ascii_lower(c));
        assert(one@ =~= lowercase(c));
        one
    } else {
        unicode_lowercase_chars(c)
    }
}

// ---------------------------------------------------------------------------
// Whole texts
// ---------------------------------------------------------------------------

/// The contents of a list of strings.
pub open spec fn views(parts: Seq<String>) -> Seq<Seq<char>> {
    Seq::new(parts.len(), |i: int| parts[i]@)
}

/// The contents of an optional string.
pub open spec fn opt_view(value: Option<String>) -> Option<Seq<char>> {
    match value {
        Some(s) => Some(s@),
        None => None,
    }
}

/// Copies a list of strings.
pub fn copy_texts(parts: &Vec<String>) -> (result: Vec<String>)
    ensures
        result@ == parts@,
{
    let mut result: Vec<String> = Vec::new();
    let mut i: usize = 0;
    while i < parts.len()
        invariant
            i <= parts@.len(),
            result@ == parts@.take(i as int),
        decreases parts@.len() - i,
    {
        result.push(parts[i].clone());
        i += 1;
        assert(result@ =~= parts@.take(i as int));
    }
    assert(result@ =~= parts@);
    result
}

/// Copies an optional string.
pub fn copy_opt(value: &Option<String>) -> (result: Option<String>)
    ensures
        result == *value,
{
    match value {
        Some(s) => Some(s.clone()),
        None => None,
    }
}

/// A list holds a text.
pub open spec fn lists(parts: Seq<String>, s: Seq<char>) -> bool {
    exists|i: int| 0 <= i < parts.len() && (#[trigger] parts[i])@ == s
}

/// Whether a list holds a text.
pub fn listed(parts: &Vec<String>, s: &str) -> (result: bool)
    ensures
        result == lists(parts@, s@),
{
    let mut i: usize = 0;
    while i < parts.len()
        invariant
            i <= parts@.len(),
            forall|k: int| 0 <= k < i ==> (#[trigger] parts@[k])@ != s@,
        decreases parts@.len() - i,
    {
        if same_text(parts[i].as_str(), s) {
            assert(parts@[i as int]@ == s@);
            return true;
        }
        i += 1;
    }
    false
}

/// Reads a text into its characters.
pub fn chars_of(s: &str) -> (result: Vec<char>)
    ensures
        result@ == s@,
{
    let mut result: Vec<char> = Vec::new();
    for c in iter: s.chars()
        invariant
            iter.seq() == s@,
            result@ == s@.take(iter.index() as int),
    {
        result.push(c);
        assert(result@ =~= s@.take(iter.index() + 1));
    }
    assert(result@ =~= s@);
    result
}

/// Builds the text of a range of characters.
pub fn text_of(chars: &Vec<char>, from: usize, to: usize) -> (result: String)
    requires
        from <= to <= chars.len(),
    ensures
        result@ == chars@.subrange(from as int, to as int),
{
    let mut result = String::new();
    let mut i: usize = from;
    assert(result@ =~= chars@.subrange(from as int, from as int));
    while i < to
        invariant
            from <= i <= to <= chars.len(),
            result@ == chars@.subrange(from as int, i as int),
        decreases to - i,
    {
        result.push(chars[i]);
        i += 1;
        assert(result@ =~= chars@.subrange(from as int, i as int));
    }
    result
}

/// Builds the text of a list of characters.
pub fn string_of(chars: &Vec<char>) -> (result: String)
    ensures
        result@ == chars@,
{
    let result = text_of(chars, 0, chars.len());
    assert(chars@.subrange(0, chars@.len() as int) =~= chars@);
    result
}

/// Whether two texts hold the same characters.
pub fn same_text(a: &str, b: &str) -> (result: bool)
    ensures
        result == (a@ == b@),
{
    let left = chars_of(a);
    let right = chars_of(b);
    same_chars(&left, &right)
}

/// Whether two lists of characters are the same.
pub fn same_chars(a: &Vec<char>, b: &Vec<char>) -> (result: bool)
    ensures
        result == (a@ == b@),
{
    if a.len() != b.len() {
        return false;
    }
    let mut i: usize = 0;
    while i < a.len()
        invariant
            a.len() == b.len(),
            i <= a.len(),
            a@.take(i as int) == b@.take(i as int),
        decreases a.len() - i,
    {
        if a[i] != b[i] {
            assert(a@[i as int] != b@[i as int]);
            return false;
        }
        i += 1;
        assert(a@.take(i as int) =~= a@.take(i - 1).push(a@[i - 1]));
        assert(b@.take(i as int) =~= b@.take(i - 1).push(b@[i - 1]));
    }
    assert(a@.take(i as int) =~= a@);
    assert(b@.take(i as int) =~= b@);
    true
}

/// Whether a text is one of a list of texts.
pub open spec fn is_one_of(s: Seq<char>, list: Seq<Seq<char>>) -> bool {
    exists|i: int| 0 <= i < list.len() && s == #[trigger] list[i]
}

/// The text with every ASCII capital lowered.
pub open spec fn ascii_lowered(s: Seq<char>) -> Seq<char> {
    Seq::new(s.len(), |i: int| ascii_lower(s[i]))
}

/// Lowers every ASCII capital of a text.
pub fn to_ascii_lowercase(s: &str) -> (result: String)
    ensures
        result@ == ascii_lowered(s@),
{
    let chars = chars_of(s);
    let mut result = String::new();
    let mut i: usize = 0;
    while i < chars.len()
        invariant
            i <= chars.len(),
            chars@ == s@,
            result@ == ascii_lowered(s@).take(i as int),
        decreases chars.len() - i,
    {
        result.push(to_ascii_lower(chars[i]));
        i += 1;
        assert(result@ =~= ascii_lowered(s@).take(i as int));
    }
    assert(result@ =~= ascii_lowered(s@));
    result
}

/// Equality up to the case of ASCII letters.
pub open spec fn eq_ignore_ascii_case(a: Seq<char>, b: Seq<char>) -> bool {
    ascii_lowered(a) == ascii_lowered(b)
}

/// Whether two texts are equal up to the case of ASCII letters.
pub fn same_ignoring_ascii_case(a: &str, b: &str) -> (result: bool)
    ensures
        result == eq_ignore_ascii_case(a@, b@),
{
    let left = to_ascii_lowercase(a);
    let right = to_ascii_lowercase(b);
    same_text(left.as_str(), right.as_str())
}

// ---------------------------------------------------------------------------
// Trimming
// ---------------------------------------------------------------------------

/// The text without its leading white space.
pub open spec fn trim_start(s: Seq<char>) -> Seq<char>
    decreases s.len(),
{
    if s.len() > 0 && is_white_space(s[0]) {
        trim_start(s.drop_first())
    } else {
        s
    }
}

/// The text without its trailing white space.
pub open spec fn trim_end(s: Seq<char>) -> Seq<char>
    decreases s.len(),
{
    if s.len() > 0 && is_white_space(s.last()) {
        trim_end(s.drop_last())
    } else {
        s
    }
}

/// The text without white space at either end.
pub open spec fn trimmed(s: Seq<char>) -> Seq<char> {
    trim_end(trim_start(s))
}

/// The text holds nothing but white space.
pub open spec fn is_blank(s: Seq<char>) -> bool {
    trimmed(s).len() == 0
}

/// How many leading characters of a list are white space.
fn leading_white_space(chars: &Vec<char>) -> (n: usize)
    ensures
        n <= chars.len(),
        trim_start(chars@) == chars@.subrange(n as int, chars@.len() as int),
{
    let mut n: usize = 0;
    assert(chars@.subrange(0, chars@.len() as int) =~= chars@);
    while n < chars.len() && white_space(chars[n])
        invariant
            n <= chars.len(),
            trim_start(chars@) == trim_start(chars@.subrange(n as int, chars@.len() as int)),
        decreases chars.len() - n,
    {
        assert(chars@.subrange(n as int, chars@.len() as int).drop_first() =~= chars@.subrange(
            n + 1,
            chars@.len() as int,
        ));
        n += 1;
    }
    n
}

/// Removes white space from both ends of a text.
pub fn trim(s: &str) -> (result: String)
    ensures
        result@ == trimmed(s@),
{
    let chars = chars_of(s);
    let from = leading_white_space(&chars);
    let mut to: usize = chars.len();
    while to > from && white_space(chars[to - 1])
        invariant
            from <= to <= chars.len(),
            chars@ == s@,
            trim_start(s@) == chars@.subrange(from as int, chars@.len() as int),
            trimmed(s@) == trim_end(chars@.subrange(from as int, to as int)),
        decreases to,
    {
        assert(chars@.subrange(from as int, to as int).drop_last() =~= chars@.subrange(
            from as int,
            to - 1,
        ));
        to -= 1;
    }
    text_of(&chars, from, to)
}

/// Whether a text holds nothing but white space.
pub fn blank(s: &str) -> (result: bool)
    ensures
        result == is_blank(s@),
{
    let rest = trim(s);
    let chars = chars_of(rest.as_str());
    chars.len() == 0
}

/// A trimmed text has no white space at its ends.
pub proof fn trimmed_ends(s: Seq<char>)
    ensures
        trimmed(s).len() > 0 ==> !is_white_space(trimmed(s)[0]) && !is_white_space(
            trimmed(s).last(),
        ),
{
    trim_start_head(s);
    trim_end_ends(trim_start(s));
}

proof fn trim_start_head(s: Seq<char>)
    ensures
        trim_start(s).len() > 0 ==> !is_white_space(trim_start(s)[0]),
    decreases s.len(),
{
    if s.len() > 0 && is_white_space(s[0]) {
        trim_start_head(s.drop_first());
    }
}

proof fn trim_end_ends(s: Seq<char>)
    ensures
        trim_end(s).len() > 0 ==> trim_end(s)[0] == s[0] && !is_white_space(trim_end(s).last()),
        trim_end(s).len() <= s.len(),
    decreases s.len(),
{
    if s.len() > 0 && is_white_space(s.last()) {
        trim_end_ends(s.drop_last());
    }
}

/// A text with a character that is not white space is not blank.
pub proof fn not_blank(s: Seq<char>, i: int)
    requires
        0 <= i < s.len(),
        !is_white_space(s[i]),
    ensures
        !is_blank(s),
{
    not_blank_after_trim_start(s, i);
    let rest = trim_start(s);
    let k = choose|k: int| 0 <= k < rest.len() && !is_white_space(#[trigger] rest[k]);
    not_blank_after_trim_end(rest, k);
}

proof fn not_blank_after_trim_start(s: Seq<char>, i: int)
    requires
        0 <= i < s.len(),
        !is_white_space(s[i]),
    ensures
        exists|k: int|
            0 <= k < trim_start(s).len() && !is_white_space(#[trigger] trim_start(s)[k]),
    decreases s.len(),
{
    if is_white_space(s[0]) {
        assert(s.drop_first()[i - 1] == s[i]);
        not_blank_after_trim_start(s.drop_first(), i - 1);
        let rest = trim_start(s.drop_first());
        let k = choose|k: int| 0 <= k < rest.len() && !is_white_space(#[trigger] rest[k]);
        assert(!is_white_space(trim_start(s)[k]));
    } else {
        assert(trim_start(s)[i] == s[i]);
    }
}

proof fn not_blank_after_trim_end(s: Seq<char>, i: int)
    requires
        0 <= i < s.len(),
        !is_white_space(s[i]),
    ensures
        trim_end(s).len() > 0,
    decreases s.len(),
{
    if is_white_space(s.last()) {
        not_blank_after_trim_end(s.drop_last(), i);
    }
}

/// A text whose ends are not white space is untouched by trimming.
pub proof fn untouched_by_trimming(s: Seq<char>)
    requires
        s.len() > 0 ==> !is_white_space(s[0]) && !is_white_space(s.last()),
    ensures
        trimmed(s) == s,
{
}

/// Trimming twice is trimming once.
pub proof fn trimming_is_idempotent(s: Seq<char>)
    ensures
        trimmed(trimmed(s)) == trimmed(s),
{
    trimmed_ends(s);
}

/// A text is nothing but white space.
pub open spec fn all_white_space(s: Seq<char>) -> bool {
    forall|i: int| 0 <= i < s.len() ==> is_white_space(#[trigger] s[i])
}

/// Trimming takes the white space off both ends and nothing else: whatever stands between
/// them is what is left.
pub proof fn trimming_keeps_what_stands_between(
    front: Seq<char>,
    middle: Seq<char>,
    back: Seq<char>,
)
    requires
        all_white_space(front),
        all_white_space(back),
        middle.len() > 0 ==> !is_white_space(middle[0]) && !is_white_space(middle.last()),
    ensures
        trimmed(front + middle + back) == middle,
{
    let s = front + middle + back;
    if middle.len() == 0 {
        assert(middle =~= Seq::<char>::empty());
        assert forall|i: int| 0 <= i < s.len() implies is_white_space(#[trigger] s[i]) by {
            if i < front.len() {
                assert(s[i] == front[i]);
            } else {
                assert(s[i] == back[i - front.len()]);
            }
        }
        white_space_trims_away(s);
        assert(trimmed(s) =~= middle);
    } else {
        trim_start_skips(front, middle + back);
        assert(s =~= front + (middle + back));
        assert((middle + back)[0] == middle[0]);
        trim_end_skips(middle, back);
    }
}

/// A text is blank exactly when all of it is white space.
pub proof fn blank_means_white_space(s: Seq<char>)
    ensures
        is_blank(s) <==> all_white_space(s),
{
    if all_white_space(s) {
        white_space_trims_away(s);
    } else {
        let i = choose|i: int| 0 <= i < s.len() && !is_white_space(#[trigger] s[i]);
        not_blank(s, i);
    }
}

proof fn white_space_trims_away(s: Seq<char>)
    requires
        all_white_space(s),
    ensures
        trimmed(s).len() == 0,
    decreases s.len(),
{
    if s.len() > 0 {
        let rest = s.drop_first();
        assert forall|i: int| 0 <= i < rest.len() implies is_white_space(#[trigger] rest[i]) by {
            assert(rest[i] == s[i + 1]);
        }
        assert(is_white_space(s[0]));
        white_space_trims_away(rest);
    }
}

proof fn trim_start_skips(front: Seq<char>, rest: Seq<char>)
    requires
        all_white_space(front),
        rest.len() > 0 ==> !is_white_space(rest[0]),
    ensures
        trim_start(front + rest) == rest,
    decreases front.len(),
{
    if front.len() == 0 {
        assert(front + rest =~= rest);
    } else {
        let shorter = front.drop_first();
        assert forall|i: int| 0 <= i < shorter.len() implies is_white_space(
            #[trigger] shorter[i],
        ) by {
            assert(shorter[i] == front[i + 1]);
        }
        assert((front + rest)[0] == front[0]);
        assert((front + rest).drop_first() =~= shorter + rest);
        trim_start_skips(shorter, rest);
    }
}

proof fn trim_end_skips(rest: Seq<char>, back: Seq<char>)
    requires
        all_white_space(back),
        rest.len() > 0 ==> !is_white_space(rest.last()),
    ensures
        trim_end(rest + back) == rest,
    decreases back.len(),
{
    if back.len() == 0 {
        assert(rest + back =~= rest);
    } else {
        let shorter = back.drop_last();
        assert forall|i: int| 0 <= i < shorter.len() implies is_white_space(
            #[trigger] shorter[i],
        ) by {
            assert(shorter[i] == back[i]);
        }
        assert((rest + back).last() == back[back.len() - 1]);
        assert((rest + back).drop_last() =~= rest + shorter);
        trim_end_skips(rest, shorter);
    }
}

/// Only capitals change in lower case, each to its own small letter.
pub proof fn only_capitals_are_lowered(c: char)
    ensures
        'A' <= c <= 'Z' ==> 'a' <= ascii_lower(c) <= 'z' && ascii_lower(c) as int == c as int + 32,
        !('A' <= c <= 'Z') ==> ascii_lower(c) == c,
        ascii_lower(ascii_lower(c)) == ascii_lower(c),
        (c as u32) < 128 ==> lowercase(c) == seq![ascii_lower(c)],
{
}

/// Among the first characters, letters and digits are those of the Latin alphabet and the
/// Arabic digits, and white space is the blank and what moves to another place.
pub proof fn plain_characters_are_told_apart(c: char)
    requires
        (c as u32) < 128,
    ensures
        is_letter_or_digit(c) <==> 'a' <= c <= 'z' || 'A' <= c <= 'Z' || '0' <= c <= '9',
        is_white_space(c) <==> c == ' ' || 9 <= c as u32 <= 13,
        is_letter_or_digit(c) ==> !is_white_space(c),
{
}

/// Trimming takes white space off both ends and nothing else.
pub proof fn trimming_leaves_a_stretch(s: Seq<char>)
    ensures
        exists|from: int|
            0 <= from && from + trimmed(s).len() <= s.len() && trimmed(s) == #[trigger] s.subrange(
                from,
                from + trimmed(s).len(),
            ) && (forall|i: int| 0 <= i < from ==> is_white_space(s[i])) && (forall|i: int|
                from + trimmed(s).len() <= i < s.len() ==> is_white_space(s[i])),
{
    let n = trim_start_takes_off(s);
    let t = trim_start(s);
    let m = trim_end_takes_off(t);
    assert(trimmed(s) == t.take(m));
    assert(t.take(m) =~= s.subrange(n, n + m));
    assert forall|i: int| n + m <= i < s.len() implies is_white_space(s[i]) by {
        assert(t[i - n] == s[i]);
    }
    assert(trimmed(s) == s.subrange(n, n + trimmed(s).len()));
}

proof fn trim_start_takes_off(s: Seq<char>) -> (n: int)
    ensures
        0 <= n <= s.len(),
        trim_start(s) == s.skip(n),
        forall|i: int| 0 <= i < n ==> is_white_space(#[trigger] s[i]),
    decreases s.len(),
{
    if s.len() > 0 && is_white_space(s[0]) {
        let rest = s.drop_first();
        let n = trim_start_takes_off(rest);
        assert(rest.skip(n) =~= s.skip(n + 1));
        assert forall|i: int| 0 <= i < n + 1 implies is_white_space(#[trigger] s[i]) by {
            if i > 0 {
                assert(rest[i - 1] == s[i]);
            }
        }
        n + 1
    } else {
        assert(s.skip(0) =~= s);
        0
    }
}

proof fn trim_end_takes_off(s: Seq<char>) -> (m: int)
    ensures
        0 <= m <= s.len(),
        trim_end(s) == s.take(m),
        forall|i: int| m <= i < s.len() ==> is_white_space(#[trigger] s[i]),
    decreases s.len(),
{
    if s.len() > 0 && is_white_space(s.last()) {
        let front = s.drop_last();
        let m = trim_end_takes_off(front);
        assert(front.take(m) =~= s.take(m));
        assert forall|i: int| m <= i < s.len() implies is_white_space(#[trigger] s[i]) by {
            if i < front.len() {
                assert(front[i] == s[i]);
            }
        }
        m
    } else {
        assert(s.take(s.len() as int) =~= s);
        s.len() as int
    }
}

} // verus!
