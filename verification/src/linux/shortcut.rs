//! The global shortcut, through GNOME's settings or the desktop portal.

use vstd::prelude::*;
use vstd::string::*;

use crate::contract::settings::{
    is_modifier, is_valid_shortcut, key_parts, modifier, shortcut_parts, split_trimmed,
};
use crate::linux::output::{command, runs, CommandLine};
use crate::linux::quoting::{
    gvariant_array, gvariant_list, gvariant_quoted, gvariant_string, gvariant_strings, is_plain,
    lists_read_back, parse_gvariant_string_array, shell_quote, shell_quoted,
};
use crate::platform::PlatformError;
use crate::text::{
    ascii_lowered, is_one_of, listed, lists, same_text, to_ascii_lowercase, views,
};

verus! {

broadcast use vstd::string::group_string_axioms;

pub const GNOME_MEDIA_KEYS_SCHEMA: &'static str = "org.gnome.settings-daemon.plugins.media-keys";

pub const GNOME_CUSTOM_KEYS_SCHEMA: &'static str =
    "org.gnome.settings-daemon.plugins.media-keys.custom-keybinding";

pub const GNOME_CUSTOM_KEYS_PATH: &'static str =
    "/org/gnome/settings-daemon/plugins/media-keys/custom-keybindings/speakiput/";

// ---------------------------------------------------------------------------
// The trigger
// ---------------------------------------------------------------------------

/// How a modifier is written in a trigger.
pub open spec fn modifier_tag(part: Seq<char>) -> Seq<char> {
    let name = ascii_lowered(part);
    if name == "super"@ || name == "meta"@ || name == "win"@ {
        "<Super>"@
    } else if name == "shift"@ {
        "<Shift>"@
    } else if name == "ctrl"@ || name == "control"@ {
        "<Control>"@
    } else {
        "<Alt>"@
    }
}

/// The modifiers of a shortcut as they are written in a trigger, in order.
pub open spec fn modifier_tags(parts: Seq<Seq<char>>) -> Seq<char>
    decreases parts.len(),
{
    if parts.len() == 0 {
        Seq::empty()
    } else {
        let before = modifier_tags(parts.drop_last());
        if is_modifier(parts.last()) {
            before + modifier_tag(parts.last())
        } else {
            before
        }
    }
}

/// What a shortcut amounts to as a trigger: its modifiers and its one key in lower case.
pub open spec fn trigger_of(shortcut: Seq<char>) -> Result<Seq<char>, Seq<char>> {
    let parts = shortcut_parts(shortcut);
    let keys = key_parts(parts);
    if keys.len() == 0 {
        Err("shortcut has no key"@)
    } else if keys.len() > 1 {
        Err("shortcut must contain exactly one non-modifier key"@)
    } else {
        Ok(modifier_tags(parts) + ascii_lowered(keys[0]))
    }
}

proof fn keys_only_grow(parts: Seq<Seq<char>>, n: int)
    requires
        0 <= n <= parts.len(),
    ensures
        key_parts(parts.take(n)).len() <= key_parts(parts).len(),
    decreases parts.len(),
{
    if n < parts.len() {
        keys_only_grow(parts.drop_last(), n);
        assert(parts.drop_last().take(n) =~= parts.take(n));
    } else {
        assert(parts.take(n) =~= parts);
    }
}

/// Writes a shortcut as a trigger for the desktop.
pub fn portal_trigger(shortcut: &str) -> (result: Result<String, PlatformError>)
    ensures
        match result {
            Ok(trigger) => trigger_of(shortcut@) == Ok::<Seq<char>, Seq<char>>(trigger@),
            Err(PlatformError::Operation(reason)) => trigger_of(shortcut@) == Err::<
                Seq<char>,
                Seq<char>,
            >(reason@),
            Err(_) => false,
        },
{
    let parts = split_trimmed(shortcut, '+');
    let ghost all = shortcut_parts(shortcut@);
    let mut tags = String::new();
    let mut key: Option<String> = None;
    let mut i: usize = 0;
    assert(tags@ =~= modifier_tags(all.take(0)));
    assert(key_parts(all.take(0)).len() == 0);
    while i < parts.len()
        invariant
            i <= parts@.len(),
            all == shortcut_parts(shortcut@),
            views(parts@) == all,
            tags@ == modifier_tags(all.take(i as int)),
            match key {
                Some(name) => key_parts(all.take(i as int)).len() == 1 && name@ == ascii_lowered(
                    key_parts(all.take(i as int))[0],
                ),
                None => key_parts(all.take(i as int)).len() == 0,
            },
        decreases parts@.len() - i,
    {
        let part = parts[i].as_str();
        assert(all.take(i + 1).drop_last() =~= all.take(i as int));
        assert(all.take(i + 1).last() == part@);
        if modifier(part) {
            let name = to_ascii_lowercase(part);
            let name = name.as_str();
            if same_text(name, "super") || same_text(name, "meta") || same_text(name, "win") {
                tags.append("<Super>");
            } else if same_text(name, "shift") {
                tags.append("<Shift>");
            } else if same_text(name, "ctrl") || same_text(name, "control") {
                tags.append("<Control>");
            } else {
                tags.append("<Alt>");
            }
        } else if key.is_none() {
            key = Some(to_ascii_lowercase(part));
        } else {
            proof {
                keys_only_grow(all, i + 1);
            }
            return Err(
                PlatformError::Operation(
                    String::from_str("shortcut must contain exactly one non-modifier key"),
                ),
            );
        }
        i += 1;
    }
    assert(all.take(i as int) =~= all);
    match key {
        Some(key) => {
            tags.append(key.as_str());
            Ok(tags)
        },
        None => Err(PlatformError::Operation(String::from_str("shortcut has no key"))),
    }
}

/// Every shortcut that the settings accept can be registered with the desktop.
pub proof fn valid_shortcuts_have_a_trigger(shortcut: Seq<char>)
    requires
        is_valid_shortcut(shortcut),
    ensures
        trigger_of(shortcut) is Ok,
{
}

// ---------------------------------------------------------------------------
// GNOME
// ---------------------------------------------------------------------------

/// The list of custom shortcuts with the own one in it.
pub open spec fn with_own_path(paths: Seq<Seq<char>>) -> Seq<Seq<char>> {
    if is_one_of(GNOME_CUSTOM_KEYS_PATH@, paths) {
        paths
    } else {
        paths.push(GNOME_CUSTOM_KEYS_PATH@)
    }
}

/// The command that the shortcut runs.
pub open spec fn toggle_line(executable: Seq<char>) -> Seq<char> {
    shell_quoted(executable) + " --toggle-recording"@
}

/// A command that sets a key of a schema.
pub open spec fn sets(line: CommandLine, schema: Seq<char>, key: Seq<char>, value: Seq<char>) -> bool {
    runs(line, "gsettings"@, seq!["set"@, schema, key, value])
}

fn set_command(schema: &str, key: &str, value: &str) -> (result: CommandLine)
    ensures
        sets(result, schema@, key@, value@),
{
    let line = command("gsettings").arg("set").arg(schema).arg(key).arg(value);
    assert(views(line.args@) =~= seq!["set"@, schema@, key@, value@]);
    line
}

/// The schema of the own shortcut.
pub open spec fn own_schema() -> Seq<char> {
    GNOME_CUSTOM_KEYS_SCHEMA@ + ":"@ + GNOME_CUSTOM_KEYS_PATH@
}

/// The commands that register the shortcut: the own entry is added to the list where it is
/// missing, and then its name, command and binding are set.
pub open spec fn registers(
    lines: Seq<CommandLine>,
    binding: Seq<char>,
    executable: Seq<char>,
    paths: Seq<Seq<char>>,
) -> bool {
    let known = is_one_of(GNOME_CUSTOM_KEYS_PATH@, paths);
    let from = if known {
        0int
    } else {
        1int
    };
    &&& lines.len() == from + 3
    &&& !known ==> sets(
        lines[0],
        GNOME_MEDIA_KEYS_SCHEMA@,
        "custom-keybindings"@,
        gvariant_list(with_own_path(paths)),
    )
    &&& sets(lines[from], own_schema(), "name"@, gvariant_quoted("speakiput dictation"@))
    &&& sets(
        lines[from + 1],
        own_schema(),
        "command"@,
        gvariant_quoted(toggle_line(executable)),
    )
    &&& sets(lines[from + 2], own_schema(), "binding"@, gvariant_quoted(binding))
}

/// The command that asks GNOME for the list of custom shortcuts.
pub fn gnome_query_command() -> (result: CommandLine)
    ensures
        runs(
            result,
            "gsettings"@,
            seq!["get"@, GNOME_MEDIA_KEYS_SCHEMA@, "custom-keybindings"@],
        ),
{
    let line = command("gsettings").arg("get").arg(GNOME_MEDIA_KEYS_SCHEMA).arg(
        "custom-keybindings",
    );
    assert(views(line.args@) =~= seq!["get"@, GNOME_MEDIA_KEYS_SCHEMA@, "custom-keybindings"@]);
    line
}

/// The commands that register the shortcut with GNOME, given the list of custom shortcuts
/// that there is.
pub fn configure_gnome_shortcut(shortcut: &str, executable: &str, current: &str) -> (result: Result<
    Vec<CommandLine>,
    PlatformError,
>)
    ensures
        match result {
            Ok(lines) => trigger_of(shortcut@) is Ok && registers(
                lines@,
                trigger_of(shortcut@)->Ok_0,
                executable@,
                gvariant_strings(current@),
            ),
            Err(PlatformError::Operation(reason)) => trigger_of(shortcut@) == Err::<
                Seq<char>,
                Seq<char>,
            >(reason@),
            Err(_) => false,
        },
{
    let binding = match portal_trigger(shortcut) {
        Ok(binding) => binding,
        Err(error) => {
            return Err(error);
        },
    };
    let mut toggle = shell_quote(executable);
    toggle.append(" --toggle-recording");
    let mut paths = parse_gvariant_string_array(current);
    let ghost before = views(paths@);
    let mut lines: Vec<CommandLine> = Vec::new();
    let known = listed(&paths, GNOME_CUSTOM_KEYS_PATH);
    assert(known == is_one_of(GNOME_CUSTOM_KEYS_PATH@, before)) by {
        if known {
            let i = choose|i: int|
                0 <= i < paths@.len() && (#[trigger] paths@[i])@ == GNOME_CUSTOM_KEYS_PATH@;
            assert(before[i] == GNOME_CUSTOM_KEYS_PATH@);
        }
        if is_one_of(GNOME_CUSTOM_KEYS_PATH@, before) {
            let i = choose|i: int|
                0 <= i < before.len() && GNOME_CUSTOM_KEYS_PATH@ == #[trigger] before[i];
            assert(paths@[i]@ == GNOME_CUSTOM_KEYS_PATH@);
        }
    }
    if !known {
        paths.push(String::from_str(GNOME_CUSTOM_KEYS_PATH));
        assert(views(paths@) =~= before.push(GNOME_CUSTOM_KEYS_PATH@));
        let value = gvariant_array(&paths);
        lines.push(set_command(GNOME_MEDIA_KEYS_SCHEMA, "custom-keybindings", value.as_str()));
    }
    let mut schema = String::from_str(GNOME_CUSTOM_KEYS_SCHEMA);
    schema.append(":");
    schema.append(GNOME_CUSTOM_KEYS_PATH);
    let schema = schema.as_str();
    lines.push(set_command(schema, "name", gvariant_string("speakiput dictation").as_str()));
    lines.push(set_command(schema, "command", gvariant_string(toggle.as_str()).as_str()));
    lines.push(set_command(schema, "binding", gvariant_string(binding.as_str()).as_str()));
    Ok(lines)
}

/// Registering twice adds the own entry once: the list that was written holds it.
pub proof fn registering_again_adds_nothing(paths: Seq<Seq<char>>)
    requires
        forall|i: int| 0 <= i < paths.len() ==> is_plain(#[trigger] paths[i]),
    ensures
        ({
            let written = with_own_path(paths);
            let read = gvariant_strings(gvariant_list(written));
            &&& read == written
            &&& with_own_path(read) == read
        }),
{
    let written = with_own_path(paths);
    the_own_path_is_plain();
    assert forall|i: int| 0 <= i < written.len() implies is_plain(
        #[trigger] written[i],
    ) by {
        if i < paths.len() {
            assert(is_plain(paths[i]));
        }
    }
    lists_read_back(written);
    if !is_one_of(GNOME_CUSTOM_KEYS_PATH@, paths) {
        assert(written[paths.len() as int] == GNOME_CUSTOM_KEYS_PATH@);
    }
}

/// The own path holds nothing that would need quoting.
proof fn the_own_path_is_plain()
    ensures
        is_plain(GNOME_CUSTOM_KEYS_PATH@),
{
    reveal_strlit(
        "/org/gnome/settings-daemon/plugins/media-keys/custom-keybindings/speakiput/",
    );
}

// ---------------------------------------------------------------------------
// Registration
// ---------------------------------------------------------------------------

/// Through what the shortcut is registered.
#[derive(Clone, Copy, PartialEq, Eq, Structural, Debug)]
pub enum ShortcutBackend {
    /// GNOME's settings run the daemon's command line.
    GnomeSettings,
    /// The desktop portal reports activations.
    Portal,
}

/// Decides through what the shortcut is registered.
pub fn shortcut_backend(gnome: bool, has_gsettings: bool) -> (result: ShortcutBackend)
    ensures
        result == if gnome && has_gsettings {
            ShortcutBackend::GnomeSettings
        } else {
            ShortcutBackend::Portal
        },
{
    if gnome && has_gsettings {
        ShortcutBackend::GnomeSettings
    } else {
        ShortcutBackend::Portal
    }
}

/// Whether a shortcut of the portal is the one for recording.
pub fn is_record_shortcut(id: &str) -> (result: bool)
    ensures
        result == (id@ == "record"@),
{
    same_text(id, "record")
}

/// The place of the recording shortcut among those that the desktop bound; where it is not
/// among them, the desktop has refused it.
pub fn find_bound_shortcut(ids: &Vec<String>) -> (result: Result<usize, PlatformError>)
    ensures
        match result {
            Ok(at) => {
                &&& at < ids@.len()
                &&& ids@[at as int]@ == "record"@
                &&& forall|k: int| 0 <= k < at ==> (#[trigger] ids@[k])@ != "record"@
            },
            Err(PlatformError::PermissionDenied(reason)) => !lists(ids@, "record"@) && reason@
                == "the desktop did not bind the dictation shortcut"@,
            Err(_) => false,
        },
{
    let mut i: usize = 0;
    while i < ids.len()
        invariant
            i <= ids@.len(),
            forall|k: int| 0 <= k < i ==> (#[trigger] ids@[k])@ != "record"@,
        decreases ids@.len() - i,
    {
        if is_record_shortcut(ids[i].as_str()) {
            return Ok(i);
        }
        i += 1;
    }
    Err(
        PlatformError::PermissionDenied(
            String::from_str("the desktop did not bind the dictation shortcut"),
        ),
    )
}

/// The tags of the modifiers stand in the order in which the shortcut names them, and what
/// names no modifier has none.
pub proof fn each_modifier_has_its_tag(front: Seq<Seq<char>>, back: Seq<Seq<char>>, part: Seq<char>)
    ensures
        modifier_tags(front + back) == modifier_tags(front) + modifier_tags(back),
        is_modifier(part) ==> modifier_tags(seq![part]) == modifier_tag(part),
        !is_modifier(part) ==> modifier_tags(seq![part]).len() == 0,
    decreases back.len(),
{
    assert(seq![part].drop_last() =~= Seq::<Seq<char>>::empty());
    assert(seq![part].last() == part);
    assert(modifier_tags(Seq::<Seq<char>>::empty()) =~= Seq::<char>::empty());
    assert(modifier_tags(seq![part]) =~= if is_modifier(part) {
        modifier_tag(part)
    } else {
        Seq::empty()
    });
    if back.len() == 0 {
        assert(front + back =~= front);
        assert(modifier_tags(front) + modifier_tags(back) =~= modifier_tags(front));
    } else {
        each_modifier_has_its_tag(front, back.drop_last(), part);
        assert((front + back).drop_last() =~= front + back.drop_last());
        assert((front + back).last() == back.last());
        assert(modifier_tags(front + back) =~= modifier_tags(front) + modifier_tags(back));
    }
}

/// A modifier has the tag of the key that it names.
pub proof fn tags_name_their_keys(part: Seq<char>)
    requires
        is_modifier(part),
    ensures
        modifier_tag(part) == "<Super>"@ <==> {
            let name = ascii_lowered(part);
            name == "super"@ || name == "meta"@ || name == "win"@
        },
        modifier_tag(part) == "<Shift>"@ <==> ascii_lowered(part) == "shift"@,
        modifier_tag(part) == "<Control>"@ <==> {
            let name = ascii_lowered(part);
            name == "ctrl"@ || name == "control"@
        },
        modifier_tag(part) == "<Alt>"@ <==> ascii_lowered(part) == "alt"@,
{
    reveal_strlit("<Super>");
    reveal_strlit("<Shift>");
    reveal_strlit("<Control>");
    reveal_strlit("<Alt>");
    reveal_strlit("super");
    reveal_strlit("meta");
    reveal_strlit("win");
    reveal_strlit("shift");
    reveal_strlit("ctrl");
    reveal_strlit("control");
    reveal_strlit("alt");
    assert("<Super>"@.len() == 7);
    assert("<Shift>"@.len() == 7);
    assert("<Control>"@.len() == 9);
    assert("<Alt>"@.len() == 5);
    assert("super"@.len() == 5);
    assert("meta"@.len() == 4);
    assert("win"@.len() == 3);
    assert("shift"@.len() == 5);
    assert("ctrl"@.len() == 4);
    assert("control"@.len() == 7);
    assert("alt"@.len() == 3);
    assert("<Super>"@[2] == 'u' && "<Shift>"@[2] == 'h');
    assert("super"@[1] == 'u' && "shift"@[1] == 'h');
    assert("meta"@[0] == 'm' && "ctrl"@[0] == 'c');
    assert("win"@[0] == 'w' && "alt"@[0] == 'a');
}

/// A trigger is the tags of the shortcut's modifiers and, behind them, its one key in lower
/// case; a shortcut with no key or with several has none.
pub proof fn triggers_end_in_their_key(shortcut: Seq<char>)
    ensures
        trigger_of(shortcut) is Ok <==> shortcut_parts(shortcut).filter(
            |part: Seq<char>| !is_modifier(part),
        ).len() == 1,
        trigger_of(shortcut) matches Ok(trigger) ==> trigger == modifier_tags(
            shortcut_parts(shortcut),
        ) + ascii_lowered(
            shortcut_parts(shortcut).filter(|part: Seq<char>| !is_modifier(part))[0],
        ),
{
    keys_are_the_rest(shortcut_parts(shortcut));
}

proof fn keys_are_the_rest(parts: Seq<Seq<char>>)
    ensures
        key_parts(parts) == parts.filter(|part: Seq<char>| !is_modifier(part)),
    decreases parts.len(),
{
    reveal(Seq::filter);
    if parts.len() > 0 {
        keys_are_the_rest(parts.drop_last());
    }
}

/// Registering keeps every shortcut that was there, in its place, and adds the dictation's
/// own at most once.
pub proof fn registering_keeps_the_other_shortcuts(paths: Seq<Seq<char>>)
    ensures
        paths.is_prefix_of(with_own_path(paths)),
        with_own_path(paths).contains(GNOME_CUSTOM_KEYS_PATH@),
        paths.contains(GNOME_CUSTOM_KEYS_PATH@) ==> with_own_path(paths) == paths,
        !paths.contains(GNOME_CUSTOM_KEYS_PATH@) ==> with_own_path(paths).len() == paths.len() + 1,
{
    if is_one_of(GNOME_CUSTOM_KEYS_PATH@, paths) {
        assert(paths.is_prefix_of(paths));
    } else {
        let more = paths.push(GNOME_CUSTOM_KEYS_PATH@);
        assert(more.take(paths.len() as int) =~= paths);
        assert(paths =~= more.subrange(0, paths.len() as int));
        assert(more[paths.len() as int] == GNOME_CUSTOM_KEYS_PATH@);
    }
}

} // verus!
