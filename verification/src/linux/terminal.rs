//! Telling terminals from other applications.

use vstd::prelude::*;
use vstd::string::*;

use crate::paths::last_dot;
use crate::text::{
    ascii_lowered, chars_of, same_text, text_of, to_ascii_lowercase, trim, trimmed,
};

verus! {

broadcast use vstd::string::group_string_axioms;

/// The identifiers of terminals.
pub open spec fn is_known_terminal(id: Seq<char>) -> bool {
    ||| id == "alacritty"@
    ||| id == "blackbox-terminal"@
    ||| id == "foot"@
    ||| id == "footclient"@
    ||| id == "ghostty"@
    ||| id == "gnome-terminal"@
    ||| id == "kgx"@
    ||| id == "kitty"@
    ||| id == "konsole"@
    ||| id == "org.gnome.console"@
    ||| id == "org.gnome.ptyxis"@
    ||| id == "org.gnome.terminal"@
    ||| id == "org.kde.konsole"@
    ||| id == "org.wezfurlong.wezterm"@
    ||| id == "ptyxis"@
    ||| id == "rio"@
    ||| id == "st"@
    ||| id == "st-256color"@
    ||| id == "tilix"@
    ||| id == "urxvt"@
    ||| id == "wezterm"@
    ||| id == "xterm"@
}

/// The names that tell a terminal at the end of any dotted identifier.
pub open spec fn is_terminal_leaf(leaf: Seq<char>) -> bool {
    ||| leaf == "alacritty"@
    ||| leaf == "ghostty"@
    ||| leaf == "kitty"@
    ||| leaf == "konsole"@
    ||| leaf == "ptyxis"@
    ||| leaf == "tilix"@
    ||| leaf == "wezterm"@
}

/// An application is a terminal if its identifier is a known one as a whole, or ends in a
/// distinctive name behind a dot. A part of a name does not count.
pub open spec fn names_terminal(application_id: Seq<char>) -> bool {
    let id = ascii_lowered(trimmed(application_id));
    is_known_terminal(id) || (last_dot(id) matches Some(at) && is_terminal_leaf(id.skip(at + 1)))
}

fn known(id: &str) -> (result: bool)
    ensures
        result == is_known_terminal(id@),
{
    same_text(id, "alacritty") || same_text(id, "blackbox-terminal") || same_text(id, "foot")
        || same_text(id, "footclient") || same_text(id, "ghostty") || same_text(
        id,
        "gnome-terminal",
    ) || same_text(id, "kgx") || same_text(id, "kitty") || same_text(id, "konsole") || same_text(
        id,
        "org.gnome.console",
    ) || same_text(id, "org.gnome.ptyxis") || same_text(id, "org.gnome.terminal") || same_text(
        id,
        "org.kde.konsole",
    ) || same_text(id, "org.wezfurlong.wezterm") || same_text(id, "ptyxis") || same_text(id, "rio")
        || same_text(id, "st") || same_text(id, "st-256color") || same_text(id, "tilix")
        || same_text(id, "urxvt") || same_text(id, "wezterm") || same_text(id, "xterm")
}

fn distinctive(leaf: &str) -> (result: bool)
    ensures
        result == is_terminal_leaf(leaf@),
{
    same_text(leaf, "alacritty") || same_text(leaf, "ghostty") || same_text(leaf, "kitty")
        || same_text(leaf, "konsole") || same_text(leaf, "ptyxis") || same_text(leaf, "tilix")
        || same_text(leaf, "wezterm")
}

/// Whether an application is a terminal.
#[must_use]
pub fn is_terminal_application(application_id: &str) -> (result: bool)
    ensures
        result == names_terminal(application_id@),
{
    let normalized = to_ascii_lowercase(trim(application_id).as_str());
    if known(normalized.as_str()) {
        return true;
    }
    let chars = chars_of(normalized.as_str());
    let mut i: usize = chars.len();
    assert(chars@.take(i as int) =~= chars@);
    while i > 0 && chars[i - 1] != '.'
        invariant
            i <= chars@.len(),
            last_dot(chars@) == last_dot(chars@.take(i as int)),
        decreases i,
    {
        assert(chars@.take(i as int).drop_last() =~= chars@.take(i - 1));
        i -= 1;
    }
    if i == 0 {
        return false;
    }
    let leaf = text_of(&chars, i, chars.len());
    assert(leaf@ =~= chars@.skip(i as int));
    distinctive(leaf.as_str())
}

/// White space around a name makes no difference, nor does the case of its letters.
pub proof fn terminals_are_known_in_any_case(front: Seq<char>, name: Seq<char>, back: Seq<char>)
    requires
        crate::text::all_white_space(front),
        crate::text::all_white_space(back),
        name.len() > 0,
        !crate::text::is_white_space(name[0]),
        !crate::text::is_white_space(name.last()),
    ensures
        names_terminal(front + name + back) == names_terminal(name),
        forall|other: Seq<char>|
            other.len() > 0 && !crate::text::is_white_space(other[0])
                && !crate::text::is_white_space(other.last()) && ascii_lowered(other)
                == ascii_lowered(name) ==> #[trigger] names_terminal(other) == names_terminal(name),
{
    crate::text::trimming_keeps_what_stands_between(front, name, back);
    crate::text::untouched_by_trimming(name);
    assert forall|other: Seq<char>|
        other.len() > 0 && !crate::text::is_white_space(other[0]) && !crate::text::is_white_space(
            other.last(),
        ) && ascii_lowered(other) == ascii_lowered(name) implies #[trigger] names_terminal(other)
        == names_terminal(name) by {
        crate::text::untouched_by_trimming(other);
    }
}

/// A name whose last part, behind its last dot, is that of a terminal with a distinctive
/// name, is a terminal's; a name without a dot is one only if it is known as a whole.
pub proof fn terminals_are_known_by_their_last_part(name: Seq<char>)
    requires
        name.len() > 0,
        !crate::text::is_white_space(name[0]),
        !crate::text::is_white_space(name.last()),
        ascii_lowered(name) == name,
    ensures
        is_known_terminal(name) ==> names_terminal(name),
        forall|at: int|
            0 <= at < name.len() && name[at] == '.' && is_terminal_leaf(#[trigger] name.skip(at + 1))
                && (forall|i: int| at < i < name.len() ==> name[i] != '.') ==> names_terminal(name),
        names_terminal(name) && !is_known_terminal(name) ==> exists|at: int|
            0 <= at < name.len() && name[at] == '.' && is_terminal_leaf(#[trigger] name.skip(at + 1)),
{
    crate::text::untouched_by_trimming(name);
    crate::paths::the_last_dot_is_last(name);
    assert forall|at: int|
        0 <= at < name.len() && name[at] == '.' && is_terminal_leaf(#[trigger] name.skip(at + 1))
            && (forall|i: int| at < i < name.len() ==> name[i] != '.') implies names_terminal(
        name,
    ) by {
        assert(last_dot(name) == Some(at));
    }
}

/// A terminal with a distinctive name is known by that name alone, too.
pub proof fn distinctive_terminals_are_known(name: Seq<char>)
    ensures
        is_terminal_leaf(name) ==> is_known_terminal(name),
{
}

} // verus!
