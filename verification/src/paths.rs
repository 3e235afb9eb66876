//! Paths as text, with `/` between their parts.

use vstd::prelude::*;
use vstd::string::*;

use crate::split::{pieces, split, Delimiter};
use crate::text::{chars_of, same_text, text_of, views};

verus! {

broadcast use vstd::string::group_string_axioms;

/// One path below another; an absolute path replaces the first.
pub open spec fn path_join(base: Seq<char>, rest: Seq<char>) -> Seq<char> {
    if base.len() == 0 || (rest.len() > 0 && rest[0] == '/') {
        rest
    } else if base.last() == '/' {
        base + rest
    } else {
        base.push('/') + rest
    }
}

/// Puts one path below another.
pub fn join_path(base: &str, rest: &str) -> (result: String)
    ensures
        result@ == path_join(base@, rest@),
{
    let base_chars = chars_of(base);
    let rest_chars = chars_of(rest);
    if base_chars.len() == 0 || (rest_chars.len() > 0 && rest_chars[0] == '/') {
        return String::from_str(rest);
    }
    let mut result = String::from_str(base);
    if base_chars[base_chars.len() - 1] != '/' {
        result.push('/');
    }
    result.append(rest);
    result
}

/// The parts of a path that are neither empty nor the directory itself.
pub open spec fn path_parts(path: Seq<char>) -> Seq<Seq<char>> {
    real_parts(pieces(path, Delimiter::Char('/')))
}

/// The parts that are neither empty nor a single dot.
pub open spec fn real_parts(parts: Seq<Seq<char>>) -> Seq<Seq<char>>
    decreases parts.len(),
{
    if parts.len() == 0 {
        parts
    } else {
        let before = real_parts(parts.drop_last());
        if parts.last().len() == 0 || parts.last() == "."@ {
            before
        } else {
            before.push(parts.last())
        }
    }
}

/// The last part of a path, if it names a file or a directory.
pub open spec fn path_file_name(path: Seq<char>) -> Option<Seq<char>> {
    let parts = path_parts(path);
    if parts.len() == 0 || parts.last() == ".."@ {
        None
    } else {
        Some(parts.last())
    }
}

/// The place of the last dot of a text.
pub open spec fn last_dot(s: Seq<char>) -> Option<int>
    decreases s.len(),
{
    if s.len() == 0 {
        None
    } else if s.last() == '.' {
        Some(s.len() - 1)
    } else {
        last_dot(s.drop_last())
    }
}

/// A file's name without its extension; a dot at the front starts no extension.
pub open spec fn path_file_stem(path: Seq<char>) -> Option<Seq<char>> {
    match path_file_name(path) {
        None => None,
        Some(name) => match last_dot(name) {
            Some(at) => if at > 0 {
                Some(name.take(at))
            } else {
                Some(name)
            },
            None => Some(name),
        },
    }
}

/// The last part of a path, if it names a file or a directory.
pub fn file_name(path: &str) -> (result: Option<String>)
    ensures
        match result {
            Some(name) => path_file_name(path@) == Some(name@),
            None => path_file_name(path@) is None,
        },
{
    let parts = split(path, Delimiter::Char('/'));
    let ghost all = pieces(path@, Delimiter::Char('/'));
    let mut last: Option<String> = None;
    let mut i: usize = 0;
    assert(real_parts(all.take(0)).len() == 0);
    while i < parts.len()
        invariant
            i <= parts@.len(),
            all == views(parts@),
            match last {
                Some(name) => real_parts(all.take(i as int)).len() > 0 && real_parts(
                    all.take(i as int),
                ).last() == name@,
                None => real_parts(all.take(i as int)).len() == 0,
            },
        decreases parts@.len() - i,
    {
        let part = parts[i].clone();
        assert(all.take(i + 1).drop_last() =~= all.take(i as int));
        assert(all.take(i + 1).last() == part@);
        let size: usize = chars_of(part.as_str()).len();
        if size > 0 && !same_text(part.as_str(), ".") {
            last = Some(part);
        }
        i += 1;
    }
    assert(all.take(i as int) =~= all);
    match last {
        Some(name) => {
            if same_text(name.as_str(), "..") {
                None
            } else {
                Some(name)
            }
        },
        None => None,
    }
}

/// A file's name without its extension.
pub fn file_stem(path: &str) -> (result: Option<String>)
    ensures
        match result {
            Some(stem) => path_file_stem(path@) == Some(stem@),
            None => path_file_stem(path@) is None,
        },
{
    let name = match file_name(path) {
        Some(name) => name,
        None => {
            return None;
        },
    };
    let chars = chars_of(name.as_str());
    let mut i: usize = chars.len();
    assert(chars@.take(i as int) =~= chars@);
    while i > 0 && chars[i - 1] != '.'
        invariant
            i <= chars@.len(),
            last_dot(chars@) == last_dot(chars@.take(i as int)),
        decreases i,
    {
        assert(chars@.take(i as int).drop_last() =~= chars@.take(i - 1));
        i -= 1;
    }
    if i > 1 {
        let stem = text_of(&chars, 0, i - 1);
        assert(stem@ =~= name@.take(i - 1));
        Some(stem)
    } else {
        Some(name)
    }
}

/// A relative path is put behind the other with one slash between them; an absolute one
/// stands for itself.
pub proof fn paths_are_joined_by_one_slash(base: Seq<char>, rest: Seq<char>)
    requires
        base.len() > 0,
        base.last() != '/',
    ensures
        rest.len() > 0 && rest[0] == '/' ==> path_join(base, rest) == rest,
        rest.len() == 0 || rest[0] != '/' ==> path_join(base, rest) == base + seq!['/'] + rest,
        rest.len() == 0 || rest[0] != '/' ==> path_join(base + seq!['/'], rest) == path_join(
            base,
            rest,
        ),
        path_join(Seq::empty(), rest) == rest,
{
    assert(base.push('/') + rest =~= base + seq!['/'] + rest);
    assert((base + seq!['/']).last() == '/');
}

/// The last dot is a dot with no dot behind it.
pub proof fn the_last_dot_is_last(s: Seq<char>)
    ensures
        match last_dot(s) {
            Some(at) => 0 <= at < s.len() && s[at] == '.' && forall|i: int|
                at < i < s.len() ==> #[trigger] s[i] != '.',
            None => forall|i: int| 0 <= i < s.len() ==> #[trigger] s[i] != '.',
        },
    decreases s.len(),
{
    if s.len() > 0 && s.last() != '.' {
        let front = s.drop_last();
        the_last_dot_is_last(front);
        assert forall|i: int|
            0 <= i < s.len() && (last_dot(front) is None || last_dot(front)->0 < i) implies
            #[trigger] s[i] != '.' by {
            if i < front.len() {
                assert(front[i] == s[i]);
            }
        }
    }
}

/// The parts of a path are what stands between its slashes, without what is empty or a
/// single dot.
pub proof fn parts_stand_between_slashes(path: Seq<char>)
    ensures
        path_parts(path) == pieces(path, Delimiter::Char('/')).filter(
            |part: Seq<char>| part.len() > 0 && part != "."@,
        ),
{
    real_parts_are_kept(pieces(path, Delimiter::Char('/')));
}

proof fn real_parts_are_kept(parts: Seq<Seq<char>>)
    ensures
        real_parts(parts) == parts.filter(|part: Seq<char>| part.len() > 0 && part != "."@),
    decreases parts.len(),
{
    reveal(Seq::filter);
    if parts.len() > 0 {
        real_parts_are_kept(parts.drop_last());
    }
}

/// A name below a directory is the name of the path, whatever the directory; a slash behind
/// it makes no difference.
pub proof fn names_are_found_below_any_directory(dir: Seq<char>, name: Seq<char>)
    requires
        name.len() > 0,
        name != "."@,
        name != ".."@,
        forall|i: int| 0 <= i < name.len() ==> #[trigger] name[i] != '/',
    ensures
        path_file_name(name) == Some(name),
        path_file_name(dir + seq!['/'] + name) == Some(name),
        path_file_name(dir + seq!['/'] + name + seq!['/']) == Some(name),
{
    let d = Delimiter::Char('/');
    assert forall|i: int| 0 <= i < name.len() implies !crate::split::delimits(
        d,
        #[trigger] name[i],
    ) by {}
    let none = Seq::<char>::empty();
    assert(none + name =~= name);
    crate::split::pieces_extend(none, name, d);
    assert(pieces(name, d) =~= seq![name]);
    assert(seq![name].drop_last() =~= Seq::empty());
    assert(real_parts(Seq::<Seq<char>>::empty()) =~= Seq::<Seq<char>>::empty());
    assert(seq![name].last() == name);
    assert(real_parts(seq![name]) =~= seq![name]);
    let below = dir + seq!['/'];
    assert(below.drop_last() =~= dir);
    crate::split::pieces_non_empty(dir, d);
    crate::split::pieces_extend(below, name, d);
    let parts = pieces(below + name, d);
    assert(pieces(below, d) =~= pieces(dir, d).push(none));
    assert(none + name =~= name);
    assert(parts =~= pieces(dir, d).push(name));
    assert(parts.drop_last() =~= pieces(dir, d));
    assert(real_parts(parts) == real_parts(pieces(dir, d)).push(name));
    let trailing = below + name + seq!['/'];
    assert(trailing.drop_last() =~= below + name);
    assert(pieces(trailing, d) =~= parts.push(none));
    assert(parts.push(none).drop_last() =~= parts);
}

/// A name is its stem, a dot and an extension without a dot; a name with no dot behind its
/// first character is its own stem.
pub proof fn stems_stand_before_the_last_dot(path: Seq<char>)
    ensures
        path_file_stem(path) is Some <==> path_file_name(path) is Some,
        match (path_file_name(path), path_file_stem(path)) {
            (Some(name), Some(stem)) => {
                ||| stem == name && forall|i: int| 0 < i < name.len() ==> #[trigger] name[i] != '.'
                ||| {
                    &&& 0 < stem.len() < name.len()
                    &&& name.take(stem.len() as int) == stem
                    &&& name[stem.len() as int] == '.'
                    &&& forall|i: int|
                        stem.len() < i < name.len() ==> #[trigger] name[i] != '.'
                }
            },
            _ => true,
        },
{
    if let Some(name) = path_file_name(path) {
        the_last_dot_is_last(name);
    }
}

/// A path that leads upwards at its end has no name, nor has one that names nothing at all.
pub proof fn paths_that_name_nothing(dir: Seq<char>)
    ensures
        path_file_name(Seq::empty()) is None,
        path_file_name(dir + "/.."@) is None,
        path_file_name(dir + "/"@) == path_file_name(dir),
        path_file_name(dir + "/."@) == path_file_name(dir),
{
    reveal_strlit("/..");
    reveal_strlit("/.");
    reveal_strlit("/");
    reveal_strlit("..");
    reveal_strlit(".");
    let d = Delimiter::Char('/');
    let none = Seq::<char>::empty();
    assert(pieces(none, d) =~= seq![none]);
    assert(seq![none].drop_last() =~= Seq::<Seq<char>>::empty());
    assert(real_parts(Seq::<Seq<char>>::empty()).len() == 0);
    assert(seq![none].last().len() == 0);
    assert(real_parts(seq![none]).len() == 0);
    let below = dir.push('/');
    assert(below.drop_last() =~= dir);
    assert(pieces(below, d) == pieces(dir, d).push(none));
    assert(pieces(dir, d).push(none).drop_last() =~= pieces(dir, d));
    assert(dir + "/"@ =~= below);
    crate::split::pieces_extend(below, ".."@, d);
    assert(dir + "/.."@ =~= below + ".."@);
    assert(none + ".."@ =~= ".."@);
    let up = pieces(below + ".."@, d);
    assert(up =~= pieces(dir, d).push(".."@));
    assert(up.drop_last() =~= pieces(dir, d));
    assert(".."@.len() == 2 && "."@.len() == 1);
    assert(real_parts(up).last() == ".."@);
    crate::split::pieces_extend(below, "."@, d);
    assert(dir + "/."@ =~= below + "."@);
    assert(none + "."@ =~= "."@);
    let here = pieces(below + "."@, d);
    assert(here =~= pieces(dir, d).push("."@));
    assert(here.drop_last() =~= pieces(dir, d));
}

} // verus!
