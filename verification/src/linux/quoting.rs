//! Quoting for the shell and for GVariant, and reading GVariant lists.

use vstd::prelude::*;
use vstd::string::*;

use crate::split::{
    join, join_with, pieces, pieces_extend, pieces_non_empty, replace_char, replaced, split,
    Delimiter,
};
use crate::text::views;

verus! {

broadcast use vstd::string::group_string_axioms;

// ---------------------------------------------------------------------------
// The shell
// ---------------------------------------------------------------------------

/// A text in single quotes for the shell.
pub open spec fn shell_quoted(value: Seq<char>) -> Seq<char> {
    "'"@ + replaced(value, '\'', "'\\''"@) + "'"@
}

/// Puts a text into single quotes for the shell.
pub fn shell_quote(value: &str) -> (result: String)
    ensures
        result@ == shell_quoted(value@),
{
    let mut result = String::from_str("'");
    result.append(replace_char(value, '\'', "'\\''").as_str());
    result.append("'");
    result
}

/// Where the shell stands in a word.
pub enum ShellMode {
    /// Between quotes.
    Plain,
    /// Behind a backslash.
    Escaped,
    /// Inside single quotes.
    Quoted,
}

/// What the shell has read of a word: the characters so far, and where it stands.
pub open spec fn shell_read(word: Seq<char>) -> (Seq<char>, ShellMode)
    decreases word.len(),
{
    if word.len() == 0 {
        (word, ShellMode::Plain)
    } else {
        let (before, mode) = shell_read(word.drop_last());
        let c = word.last();
        match mode {
            ShellMode::Plain => if c == '\'' {
                (before, ShellMode::Quoted)
            } else if c == '\\' {
                (before, ShellMode::Escaped)
            } else {
                (before.push(c), ShellMode::Plain)
            },
            ShellMode::Escaped => (before.push(c), ShellMode::Plain),
            ShellMode::Quoted => if c == '\'' {
                (before, ShellMode::Plain)
            } else {
                (before.push(c), ShellMode::Quoted)
            },
        }
    }
}

/// The shell reads a quoted text as the text itself.
pub proof fn the_shell_reads_back_what_was_quoted(value: Seq<char>)
    ensures
        shell_read(shell_quoted(value)) == (value, ShellMode::Plain),
{
    reveal_strlit("'");
    shell_reads_inside(value);
    let inside = "'"@ + replaced(value, '\'', "'\\''"@);
    let whole = shell_quoted(value);
    assert(whole.drop_last() =~= inside);
    assert(whole.last() == '\'');
}

proof fn shell_reads_inside(value: Seq<char>)
    ensures
        shell_read("'"@ + replaced(value, '\'', "'\\''"@)) == (value, ShellMode::Quoted),
    decreases value.len(),
{
    reveal_strlit("'");
    reveal_strlit("'\\''");
    let open = "'"@;
    if value.len() == 0 {
        assert(open + value =~= open);
        assert(open.drop_last() =~= Seq::<char>::empty());
        reveal_with_fuel(shell_read, 2);
        assert(shell_read(open) == (Seq::<char>::empty(), ShellMode::Quoted));
        assert(value =~= Seq::<char>::empty());
    } else {
        let rest = value.drop_last();
        let c = value.last();
        shell_reads_inside(rest);
        let before = open + replaced(rest, '\'', "'\\''"@);
        let whole = open + replaced(value, '\'', "'\\''"@);
        assert(rest.push(c) =~= value);
        if c == '\'' {
            let one = before.push('\'');
            let two = one.push('\\');
            let three = two.push('\'');
            let four = three.push('\'');
            assert(whole =~= four);
            assert(four.drop_last() =~= three);
            assert(three.drop_last() =~= two);
            assert(two.drop_last() =~= one);
            assert(one.drop_last() =~= before);
            assert(shell_read(one) == (rest, ShellMode::Plain));
            assert(shell_read(two) == (rest, ShellMode::Escaped));
            assert(shell_read(three) == (rest.push('\''), ShellMode::Plain));
            assert(shell_read(four) == (rest.push('\''), ShellMode::Quoted));
        } else {
            assert(whole =~= before.push(c));
            assert(before.push(c).drop_last() =~= before);
        }
    }
}

// ---------------------------------------------------------------------------
// GVariant
// ---------------------------------------------------------------------------

/// A text in single quotes for GVariant, with backslashes before backslashes and quotes.
pub open spec fn gvariant_quoted(value: Seq<char>) -> Seq<char> {
    "'"@ + replaced(replaced(value, '\\', "\\\\"@), '\'', "\\'"@) + "'"@
}

/// Puts a text into single quotes for GVariant.
pub fn gvariant_string(value: &str) -> (result: String)
    ensures
        result@ == gvariant_quoted(value@),
{
    let escaped = replace_char(value, '\\', "\\\\");
    let mut result = String::from_str("'");
    result.append(replace_char(escaped.as_str(), '\'', "\\'").as_str());
    result.append("'");
    result
}

/// Every second part, from the second on.
pub open spec fn odd_parts(parts: Seq<Seq<char>>) -> Seq<Seq<char>> {
    Seq::new(parts.len() / 2, |i: int| parts[2 * i + 1])
}

/// The strings of a GVariant list: what stands between its quotes.
pub open spec fn gvariant_strings(value: Seq<char>) -> Seq<Seq<char>> {
    odd_parts(pieces(value, Delimiter::Char('\'')))
}

/// Reads the strings of a GVariant list.
pub fn parse_gvariant_string_array(value: &str) -> (result: Vec<String>)
    ensures
        views(result@) == gvariant_strings(value@),
{
    let parts = split(value, Delimiter::Char('\''));
    let ghost all = pieces(value@, Delimiter::Char('\''));
    assert(views(parts@).len() == parts@.len());
    let mut result: Vec<String> = Vec::new();
    let mut i: usize = 1;
    while i < parts.len()
        invariant
            all == pieces(value@, Delimiter::Char('\'')),
            views(parts@) == all,
            all.len() == parts@.len(),
            i <= parts@.len() + 1,
            i == 2 * result@.len() + 1,
            forall|k: int|
                0 <= k < result@.len() ==> (#[trigger] result@[k])@ == all[2 * k + 1],
        decreases parts@.len() + 1 - i,
    {
        let part = parts[i].clone();
        assert(all[i as int] == part@);
        result.push(part);
        if i == parts.len() - 1 {
            assert(views(result@) =~= odd_parts(all));
            return result;
        }
        i += 2;
    }
    assert(views(result@) =~= odd_parts(all));
    result
}

/// The texts in quotes.
pub open spec fn quoted_all(values: Seq<Seq<char>>) -> Seq<Seq<char>> {
    Seq::new(values.len(), |i: int| gvariant_quoted(values[i]))
}

/// A GVariant list of strings.
pub open spec fn gvariant_list(values: Seq<Seq<char>>) -> Seq<char> {
    "["@ + join(quoted_all(values), ", "@) + "]"@
}

/// Writes a GVariant list of strings.
pub fn gvariant_array(values: &Vec<String>) -> (result: String)
    ensures
        result@ == gvariant_list(views(values@)),
{
    let mut quoted: Vec<String> = Vec::new();
    let mut i: usize = 0;
    while i < values.len()
        invariant
            i <= values@.len(),
            quoted@.len() == i,
            forall|k: int|
                0 <= k < i ==> (#[trigger] quoted@[k])@ == gvariant_quoted(values@[k]@),
        decreases values@.len() - i,
    {
        quoted.push(gvariant_string(values[i].as_str()));
        i += 1;
    }
    assert(views(quoted@) =~= quoted_all(views(values@)));
    let mut result = String::from_str("[");
    result.append(join_with(&quoted, ", ").as_str());
    result.append("]");
    result
}

/// A text without quotes and backslashes.
pub open spec fn is_plain(value: Seq<char>) -> bool {
    forall|i: int| 0 <= i < value.len() ==> #[trigger] value[i] != '\'' && value[i] != '\\'
}

proof fn nothing_to_replace(value: Seq<char>, from: char, to: Seq<char>)
    requires
        forall|i: int| 0 <= i < value.len() ==> #[trigger] value[i] != from,
    ensures
        replaced(value, from, to) == value,
    decreases value.len(),
{
    if value.len() > 0 {
        let rest = value.drop_last();
        assert forall|i: int| 0 <= i < rest.len() implies #[trigger] rest[i] != from by {
            assert(value[i] != from);
        }
        nothing_to_replace(rest, from, to);
        assert(value[value.len() - 1] != from);
        assert(rest + seq![value.last()] =~= value);
    }
}

proof fn plain_text_is_only_put_in_quotes(value: Seq<char>)
    requires
        is_plain(value),
    ensures
        gvariant_quoted(value) == seq!['\''] + value + seq!['\''],
{
    reveal_strlit("'");
    nothing_to_replace(value, '\\', "\\\\"@);
    nothing_to_replace(value, '\'', "\\'"@);
    assert("'"@ =~= seq!['\'']);
}

/// The pieces between the quotes of a list, before its closing bracket: the values, with
/// other pieces around them.
proof fn list_pieces(values: Seq<Seq<char>>)
    requires
        forall|i: int| 0 <= i < values.len() ==> is_plain(#[trigger] values[i]),
    ensures
        ({
            let parts = pieces("["@ + join(quoted_all(values), ", "@), Delimiter::Char('\''));
            &&& parts.len() == 2 * values.len() + 1
            &&& forall|i: int| 0 <= i < values.len() ==> parts[2 * i + 1] == #[trigger] values[i]
        }),
    decreases values.len(),
{
    reveal_strlit("[");
    reveal_strlit(", ");
    let d = Delimiter::Char('\'');
    let none = Seq::<char>::empty();
    if values.len() == 0 {
        assert("["@ + join(quoted_all(values), ", "@) =~= "["@);
        pieces_extend(none, "["@, d);
        assert(none + "["@ =~= "["@);
        assert(pieces(none, d) =~= seq![none]);
        assert(pieces("["@, d).len() == 1);
    } else {
        let rest = values.drop_last();
        let value = values.last();
        assert forall|i: int| 0 <= i < rest.len() implies is_plain(#[trigger] rest[i]) by {
            assert(is_plain(values[i]));
        }
        list_pieces(rest);
        assert(is_plain(values[values.len() - 1]));
        plain_text_is_only_put_in_quotes(value);
        let front = "["@ + join(quoted_all(rest), ", "@);
        let before = pieces(front, d);
        assert(quoted_all(values).drop_last() =~= quoted_all(rest));
        let gap = if rest.len() == 0 {
            none
        } else {
            ", "@
        };
        let one = front + gap;
        assert forall|i: int| 0 <= i < gap.len() implies !crate::split::delimits(
            d,
            #[trigger] gap[i],
        ) by {}
        pieces_extend(front, gap, d);
        let two = one.push('\'');
        assert(two.drop_last() =~= one);
        let three = two + value;
        assert forall|i: int| 0 <= i < value.len() implies !crate::split::delimits(
            d,
            #[trigger] value[i],
        ) by {
            assert(value[i] != '\'');
        }
        pieces_extend(two, value, d);
        let four = three.push('\'');
        assert(four.drop_last() =~= three);
        let whole = "["@ + join(quoted_all(values), ", "@);
        assert(whole =~= four) by {
            if rest.len() == 0 {
                assert(quoted_all(values) =~= seq![gvariant_quoted(value)]);
                assert(join(quoted_all(rest), ", "@) =~= none);
            } else {
                assert(join(quoted_all(values), ", "@) == join(quoted_all(rest), ", "@) + ", "@
                    + gvariant_quoted(value));
            }
        }
        pieces_non_empty(front, d);
        let grown = pieces(one, d);
        assert(grown.len() == before.len());
        assert(pieces(two, d) == grown.push(none));
        assert(none + value =~= value);
        assert(pieces(three, d) =~= grown.push(value));
        assert(pieces(four, d) =~= grown.push(value).push(none));
        let parts = pieces(four, d);
        assert forall|i: int| 0 <= i < values.len() implies parts[2 * i + 1]
            == #[trigger] values[i] by {
            if i < rest.len() {
                assert(rest[i] == values[i]);
                assert(before[2 * i + 1] == rest[i]);
                assert(grown[2 * i + 1] == before[2 * i + 1]);
            }
        }
    }
}

/// Reading a list gives back the strings that were written, as long as they hold no quotes
/// and backslashes.
pub proof fn lists_read_back(values: Seq<Seq<char>>)
    requires
        forall|i: int| 0 <= i < values.len() ==> is_plain(#[trigger] values[i]),
    ensures
        gvariant_strings(gvariant_list(values)) == values,
{
    reveal_strlit("]");
    let d = Delimiter::Char('\'');
    let front = "["@ + join(quoted_all(values), ", "@);
    list_pieces(values);
    pieces_extend(front, "]"@, d);
    let parts = pieces(gvariant_list(values), d);
    assert(gvariant_list(values) =~= front + "]"@);
    assert(parts.len() == 2 * values.len() + 1);
    assert forall|i: int| 0 <= i < values.len() implies parts[2 * i + 1] == #[trigger] values[i] by {
        assert(pieces(front, d)[2 * i + 1] == values[i]);
    }
    assert(odd_parts(parts) =~= values);
}

} // verus!
