//! The macOS desktop: shortcuts, terminals, and what System Events is asked.

use vstd::prelude::*;
use vstd::string::*;

use crate::contract::settings::{shortcut_parts, split_trimmed};
use crate::decimal::{
    decimal, digits, fault_words, number_body, number_fault, parse_u32, value,
};
use crate::linux::overlay::OverlayMarkers;
use crate::platform::{FocusedTarget, InsertionMethod, PlatformCapabilities, PlatformError};
use crate::split::{contains, contains_text, pieces, split, strip_prefix, Delimiter};
use crate::text::{
    ascii_lowered, blank, chars_of, is_blank, opt_view, same_text, text_of, to_ascii_lowercase, trim,
    trimmed, views,
};

verus! {

broadcast use vstd::string::group_string_axioms;

// ---------------------------------------------------------------------------
// Keys
// ---------------------------------------------------------------------------

/// A key of the keyboard. Keys that no shortcut can name are told apart by a number.
#[derive(Clone, Copy, PartialEq, Eq, Structural, Debug)]
pub enum Key {
    Space,
    Tab,
    Return,
    Escape,
    F1,
    F2,
    F3,
    F4,
    F5,
    F6,
    F7,
    F8,
    F9,
    F10,
    F11,
    F12,
    KeyA,
    KeyB,
    KeyC,
    KeyD,
    KeyE,
    KeyF,
    KeyG,
    KeyH,
    KeyI,
    KeyJ,
    KeyK,
    KeyL,
    KeyM,
    KeyN,
    KeyO,
    KeyP,
    KeyQ,
    KeyR,
    KeyS,
    KeyT,
    KeyU,
    KeyV,
    KeyW,
    KeyX,
    KeyY,
    KeyZ,
    MetaLeft,
    MetaRight,
    ControlLeft,
    ControlRight,
    Alt,
    ShiftLeft,
    ShiftRight,
    Other(u32),
}

/// The key of a name in lower case.
pub open spec fn key_named(name: Seq<char>) -> Option<Key> {
    if name == "space"@ {
        Some(Key::Space)
    } else if name == "tab"@ {
        Some(Key::Tab)
    } else if name == "return"@ || name == "enter"@ {
        Some(Key::Return)
    } else if name == "escape"@ || name == "esc"@ {
        Some(Key::Escape)
    } else if name == "f1"@ {
        Some(Key::F1)
    } else if name == "f2"@ {
        Some(Key::F2)
    } else if name == "f3"@ {
        Some(Key::F3)
    } else if name == "f4"@ {
        Some(Key::F4)
    } else if name == "f5"@ {
        Some(Key::F5)
    } else if name == "f6"@ {
        Some(Key::F6)
    } else if name == "f7"@ {
        Some(Key::F7)
    } else if name == "f8"@ {
        Some(Key::F8)
    } else if name == "f9"@ {
        Some(Key::F9)
    } else if name == "f10"@ {
        Some(Key::F10)
    } else if name == "f11"@ {
        Some(Key::F11)
    } else if name == "f12"@ {
        Some(Key::F12)
    } else if name.len() == 1 {
        letter_key(name[0])
    } else {
        None
    }
}

/// The key of a lower-case letter.
pub open spec fn letter_key(c: char) -> Option<Key> {
    match c {
        'a' => Some(Key::KeyA),
        'b' => Some(Key::KeyB),
        'c' => Some(Key::KeyC),
        'd' => Some(Key::KeyD),
        'e' => Some(Key::KeyE),
        'f' => Some(Key::KeyF),
        'g' => Some(Key::KeyG),
        'h' => Some(Key::KeyH),
        'i' => Some(Key::KeyI),
        'j' => Some(Key::KeyJ),
        'k' => Some(Key::KeyK),
        'l' => Some(Key::KeyL),
        'm' => Some(Key::KeyM),
        'n' => Some(Key::KeyN),
        'o' => Some(Key::KeyO),
        'p' => Some(Key::KeyP),
        'q' => Some(Key::KeyQ),
        'r' => Some(Key::KeyR),
        's' => Some(Key::KeyS),
        't' => Some(Key::KeyT),
        'u' => Some(Key::KeyU),
        'v' => Some(Key::KeyV),
        'w' => Some(Key::KeyW),
        'x' => Some(Key::KeyX),
        'y' => Some(Key::KeyY),
        'z' => Some(Key::KeyZ),
        _ => None,
    }
}

fn find_letter_key(c: char) -> (result: Option<Key>)
    ensures
        result == letter_key(c),
{
    match c {
        'a' => Some(Key::KeyA),
        'b' => Some(Key::KeyB),
        'c' => Some(Key::KeyC),
        'd' => Some(Key::KeyD),
        'e' => Some(Key::KeyE),
        'f' => Some(Key::KeyF),
        'g' => Some(Key::KeyG),
        'h' => Some(Key::KeyH),
        'i' => Some(Key::KeyI),
        'j' => Some(Key::KeyJ),
        'k' => Some(Key::KeyK),
        'l' => Some(Key::KeyL),
        'm' => Some(Key::KeyM),
        'n' => Some(Key::KeyN),
        'o' => Some(Key::KeyO),
        'p' => Some(Key::KeyP),
        'q' => Some(Key::KeyQ),
        'r' => Some(Key::KeyR),
        's' => Some(Key::KeyS),
        't' => Some(Key::KeyT),
        'u' => Some(Key::KeyU),
        'v' => Some(Key::KeyV),
        'w' => Some(Key::KeyW),
        'x' => Some(Key::KeyX),
        'y' => Some(Key::KeyY),
        'z' => Some(Key::KeyZ),
        _ => None,
    }
}

fn find_key(name: &str) -> (result: Option<Key>)
    ensures
        result == key_named(name@),
{
    if same_text(name, "space") {
        Some(Key::Space)
    } else if same_text(name, "tab") {
        Some(Key::Tab)
    } else if same_text(name, "return") || same_text(name, "enter") {
        Some(Key::Return)
    } else if same_text(name, "escape") || same_text(name, "esc") {
        Some(Key::Escape)
    } else if same_text(name, "f1") {
        Some(Key::F1)
    } else if same_text(name, "f2") {
        Some(Key::F2)
    } else if same_text(name, "f3") {
        Some(Key::F3)
    } else if same_text(name, "f4") {
        Some(Key::F4)
    } else if same_text(name, "f5") {
        Some(Key::F5)
    } else if same_text(name, "f6") {
        Some(Key::F6)
    } else if same_text(name, "f7") {
        Some(Key::F7)
    } else if same_text(name, "f8") {
        Some(Key::F8)
    } else if same_text(name, "f9") {
        Some(Key::F9)
    } else if same_text(name, "f10") {
        Some(Key::F10)
    } else if same_text(name, "f11") {
        Some(Key::F11)
    } else if same_text(name, "f12") {
        Some(Key::F12)
    } else {
        let chars = chars_of(name);
        if chars.len() == 1 {
            find_letter_key(chars[0])
        } else {
            None
        }
    }
}

/// The key that a part of a shortcut names, in whatever case.
pub fn parse_key(part: &str) -> (result: Result<Key, PlatformError>)
    ensures
        match result {
            Ok(key) => key_named(ascii_lowered(part@)) == Some(key),
            Err(PlatformError::Operation(reason)) => key_named(ascii_lowered(part@)) is None
                && reason@ == "unsupported macOS shortcut key: "@ + part@,
            Err(_) => false,
        },
{
    let name = to_ascii_lowercase(part);
    match find_key(name.as_str()) {
        Some(key) => Ok(key),
        None => {
            let mut text = String::from_str("unsupported macOS shortcut key: ");
            text.append(part);
            Err(PlatformError::Operation(text))
        },
    }
}

// ---------------------------------------------------------------------------
// Shortcuts
// ---------------------------------------------------------------------------

#[derive(Clone, Copy, PartialEq, Eq, Structural, Debug)]
pub struct Modifiers {
    pub command: bool,
    pub control: bool,
    pub option: bool,
    pub shift: bool,
}

impl Default for Modifiers {
    fn default() -> (result: Self)
        ensures
            result == no_modifiers(),
    {
        Self { command: false, control: false, option: false, shift: false }
    }
}

/// No modifier.
pub open spec fn no_modifiers() -> Modifiers {
    Modifiers { command: false, control: false, option: false, shift: false }
}

#[derive(Clone, Copy, PartialEq, Eq, Structural, Debug)]
pub struct MacShortcut {
    pub modifiers: Modifiers,
    pub key: Key,
}

/// The modifiers with the one that a name in lower case stands for; `None` where the name
/// stands for none.
pub open spec fn with_modifier(m: Modifiers, name: Seq<char>) -> Option<Modifiers> {
    if name == "super"@ || name == "meta"@ || name == "win"@ || name == "command"@ || name
        == "cmd"@ {
        Some(Modifiers { command: true, ..m })
    } else if name == "ctrl"@ || name == "control"@ {
        Some(Modifiers { control: true, ..m })
    } else if name == "alt"@ || name == "option"@ {
        Some(Modifiers { option: true, ..m })
    } else if name == "shift"@ {
        Some(Modifiers { shift: true, ..m })
    } else {
        None
    }
}

fn add_modifier(m: Modifiers, name: &str) -> (result: Option<Modifiers>)
    ensures
        result == with_modifier(m, name@),
{
    if same_text(name, "super") || same_text(name, "meta") || same_text(name, "win") || same_text(
        name,
        "command",
    ) || same_text(name, "cmd") {
        Some(Modifiers { command: true, ..m })
    } else if same_text(name, "ctrl") || same_text(name, "control") {
        Some(Modifiers { control: true, ..m })
    } else if same_text(name, "alt") || same_text(name, "option") {
        Some(Modifiers { option: true, ..m })
    } else if same_text(name, "shift") {
        Some(Modifiers { shift: true, ..m })
    } else {
        None
    }
}

/// The modifiers among the parts of a shortcut.
pub open spec fn modifiers_of(parts: Seq<Seq<char>>) -> Modifiers
    decreases parts.len(),
{
    if parts.len() == 0 {
        no_modifiers()
    } else {
        let before = modifiers_of(parts.drop_last());
        match with_modifier(before, ascii_lowered(parts.last())) {
            Some(m) => m,
            None => before,
        }
    }
}

/// The parts of a shortcut that name no modifier.
pub open spec fn keys_of(parts: Seq<Seq<char>>) -> Seq<Seq<char>>
    decreases parts.len(),
{
    if parts.len() == 0 {
        parts
    } else {
        let before = keys_of(parts.drop_last());
        if with_modifier(no_modifiers(), ascii_lowered(parts.last())) is Some {
            before
        } else {
            before.push(parts.last())
        }
    }
}

/// What a shortcut stands for: its modifiers and its one key.
pub open spec fn shortcut_of(shortcut: Seq<char>) -> Result<MacShortcut, Seq<char>> {
    let parts = shortcut_parts(shortcut);
    let keys = keys_of(parts);
    if keys.len() == 0 {
        Err("shortcut has no key"@)
    } else {
        match key_named(ascii_lowered(keys[0])) {
            None => Err("unsupported macOS shortcut key: "@ + keys[0]),
            Some(key) => if keys.len() > 1 {
                Err("shortcut must contain exactly one non-modifier key"@)
            } else {
                Ok(MacShortcut { modifiers: modifiers_of(parts), key })
            },
        }
    }
}

proof fn first_key_stays(parts: Seq<Seq<char>>, n: int)
    requires
        0 <= n <= parts.len(),
    ensures
        keys_of(parts.take(n)).len() <= keys_of(parts).len(),
        keys_of(parts.take(n)).len() > 0 ==> keys_of(parts)[0] == keys_of(parts.take(n))[0],
    decreases parts.len(),
{
    if n < parts.len() {
        first_key_stays(parts.drop_last(), n);
        assert(parts.drop_last().take(n) =~= parts.take(n));
    } else {
        assert(parts.take(n) =~= parts);
    }
}

/// Reads a shortcut.
pub fn parse_shortcut(shortcut: &str) -> (result: Result<MacShortcut, PlatformError>)
    ensures
        match result {
            Ok(found) => shortcut_of(shortcut@) == Ok::<MacShortcut, Seq<char>>(found),
            Err(PlatformError::Operation(reason)) => shortcut_of(shortcut@) == Err::<
                MacShortcut,
                Seq<char>,
            >(reason@),
            Err(_) => false,
        },
{
    let parts = split_trimmed(shortcut, '+');
    let ghost all = shortcut_parts(shortcut@);
    let mut modifiers = Modifiers::default();
    let mut key: Option<Key> = None;
    let mut i: usize = 0;
    assert(all.take(0).len() == 0);
    while i < parts.len()
        invariant
            i <= parts@.len(),
            all == shortcut_parts(shortcut@),
            views(parts@) == all,
            modifiers == modifiers_of(all.take(i as int)),
            match key {
                Some(key) => keys_of(all.take(i as int)).len() == 1 && key_named(
                    ascii_lowered(keys_of(all.take(i as int))[0]),
                ) == Some(key),
                None => keys_of(all.take(i as int)).len() == 0,
            },
        decreases parts@.len() - i,
    {
        let part = parts[i].as_str();
        assert(all.take(i + 1).drop_last() =~= all.take(i as int));
        assert(all.take(i + 1).last() == part@);
        proof {
            first_key_stays(all, i as int);
            first_key_stays(all, i + 1);
        }
        let name = to_ascii_lowercase(part);
        match add_modifier(modifiers, name.as_str()) {
            Some(more) => {
                modifiers = more;
            },
            None => {
                if key.is_none() {
                    match parse_key(part) {
                        Ok(found) => {
                            key = Some(found);
                        },
                        Err(error) => {
                            return Err(error);
                        },
                    }
                } else {
                    return Err(
                        PlatformError::Operation(
                            String::from_str("shortcut must contain exactly one non-modifier key"),
                        ),
                    );
                }
            },
        }
        i += 1;
    }
    assert(all.take(i as int) =~= all);
    match key {
        Some(key) => Ok(MacShortcut { modifiers, key }),
        None => Err(PlatformError::Operation(String::from_str("shortcut has no key"))),
    }
}

/// What is said where the permission to listen to keys is missing.
pub const ACCESSIBILITY_NEEDED: &'static str =
    "Accessibility permission is required for global shortcuts and text insertion; enable speakiput in System Settings > Privacy & Security > Accessibility";

/// What registering a shortcut comes to: a shortcut that cannot be read is refused first,
/// and then a process that is not trusted to listen to keys.
pub fn registration(shortcut: &str, trusted: bool) -> (result: Result<MacShortcut, PlatformError>)
    ensures
        match shortcut_of(shortcut@) {
            Err(reason) => result matches Err(PlatformError::Operation(given)) && given@
                == reason,
            Ok(binding) => if trusted {
                result == Ok::<MacShortcut, PlatformError>(binding)
            } else {
                result matches Err(PlatformError::PermissionDenied(given)) && given@
                    == ACCESSIBILITY_NEEDED@
            },
        },
{
    match parse_shortcut(shortcut) {
        Ok(binding) => {
            if trusted {
                Ok(binding)
            } else {
                Err(PlatformError::PermissionDenied(String::from_str(ACCESSIBILITY_NEEDED)))
            }
        },
        Err(error) => Err(error),
    }
}

/// The keys that are held down, each once.
#[derive(Debug)]
pub struct HeldKeys {
    keys: Vec<Key>,
}

impl View for HeldKeys {
    type V = Set<Key>;

    closed spec fn view(&self) -> Set<Key> {
        self.keys@.to_set()
    }
}

impl HeldKeys {
    /// No key occurs twice.
    pub closed spec fn wf(&self) -> bool {
        self.keys@.no_duplicates()
    }

    /// No key is held.
    pub fn new() -> (result: Self)
        ensures
            result.wf(),
            result@ == Set::<Key>::empty(),
    {
        let result = Self { keys: Vec::new() };
        assert(result@ =~= Set::<Key>::empty());
        result
    }

    /// Whether a key is held.
    pub fn contains(&self, key: Key) -> (result: bool)
        ensures
            result == self@.contains(key),
    {
        let mut i: usize = 0;
        while i < self.keys.len()
            invariant
                i <= self.keys@.len(),
                forall|k: int| 0 <= k < i ==> #[trigger] self.keys@[k] != key,
            decreases self.keys@.len() - i,
        {
            if self.keys[i] == key {
                assert(self.keys@[i as int] == key);
                return true;
            }
            i += 1;
        }
        false
    }

    /// Takes note of a key that is pressed; says whether it was not held before.
    pub fn press(&mut self, key: Key) -> (fresh: bool)
        requires
            old(self).wf(),
        ensures
            final(self).wf(),
            fresh == !old(self)@.contains(key),
            final(self)@ == old(self)@.insert(key),
    {
        let ghost before = self.keys@;
        if self.contains(key) {
            assert(self@ =~= self@.insert(key));
            return false;
        }
        self.keys.push(key);
        proof {
            let after = self.keys@;
            assert(after.drop_last() =~= before);
            assert forall|k: Key| after.to_set().contains(k) == before.to_set().insert(
                key,
            ).contains(k) by {
                if before.to_set().insert(key).contains(k) {
                    if k == key {
                        assert(after[before.len() as int] == k);
                    } else {
                        let i = choose|i: int| 0 <= i < before.len() && before[i] == k;
                        assert(after[i] == k);
                    }
                }
            }
            assert(after.to_set() =~= before.to_set().insert(key));
            assert forall|i: int, j: int|
                0 <= i < after.len() && 0 <= j < after.len() && i != j implies after[i]
                != after[j] by {
                if i == before.len() {
                    assert(before.contains(after[j]));
                } else if j == before.len() {
                    assert(before.contains(after[i]));
                }
            }
        }
        true
    }

    /// Takes note of a key that is let go.
    pub fn release(&mut self, key: Key)
        requires
            old(self).wf(),
        ensures
            final(self).wf(),
            final(self)@ == old(self)@.remove(key),
    {
        let ghost before = self.keys@;
        let mut i: usize = 0;
        while i < self.keys.len()
            invariant
                i <= self.keys@.len(),
                self.keys@ == before,
                before.no_duplicates(),
                before == old(self).keys@,
                forall|k: int| 0 <= k < i ==> #[trigger] self.keys@[k] != key,
            decreases self.keys@.len() - i,
        {
            if self.keys[i] == key {
                let _ = self.keys.remove(i);
                proof {
                    let after = self.keys@;
                    assert(after =~= before.remove(i as int));
                    assert forall|k: Key| after.to_set().contains(k) == before.to_set().remove(
                        key,
                    ).contains(k) by {
                        if before.to_set().remove(key).contains(k) {
                            let j = choose|j: int| 0 <= j < before.len() && before[j] == k;
                            if j < i {
                                assert(after[j] == k);
                            } else {
                                assert(after[j - 1] == k);
                            }
                        }
                        if after.to_set().contains(k) {
                            let j = choose|j: int| 0 <= j < after.len() && after[j] == k;
                            if j < i {
                                assert(before[j] == k);
                            } else {
                                assert(before[j + 1] == k);
                            }
                        }
                    }
                    assert(after.to_set() =~= before.to_set().remove(key));
                }
                return ;
            }
            i += 1;
        }
        assert(self@ =~= self@.remove(key));
    }
}

/// The modifiers that are held down.
pub open spec fn held_modifiers(held: Set<Key>) -> Modifiers {
    Modifiers {
        command: held.contains(Key::MetaLeft) || held.contains(Key::MetaRight),
        control: held.contains(Key::ControlLeft) || held.contains(Key::ControlRight),
        option: held.contains(Key::Alt),
        shift: held.contains(Key::ShiftLeft) || held.contains(Key::ShiftRight),
    }
}

/// Whether exactly the modifiers required are held.
pub fn matches_modifiers(held: &HeldKeys, required: Modifiers) -> (result: bool)
    ensures
        result == (held_modifiers(held@) == required),
{
    let actual = Modifiers {
        command: held.contains(Key::MetaLeft) || held.contains(Key::MetaRight),
        control: held.contains(Key::ControlLeft) || held.contains(Key::ControlRight),
        option: held.contains(Key::Alt),
        shift: held.contains(Key::ShiftLeft) || held.contains(Key::ShiftRight),
    };
    actual == required
}

/// What happens to a key.
#[derive(Clone, Copy, PartialEq, Eq, Structural, Debug)]
pub enum KeyEvent {
    Press(Key),
    Release(Key),
    Other,
}

/// Pressing a key activates the shortcut: the key is its own, was not held already, and
/// exactly its modifiers are held.
pub open spec fn activates(held: Set<Key>, binding: Option<MacShortcut>, key: Key) -> bool {
    &&& !held.contains(key)
    &&& binding is Some
    &&& binding->0.key == key
    &&& held_modifiers(held.insert(key)) == binding->0.modifiers
}

/// Takes note of what happens to a key and says whether the shortcut was pressed: its key
/// went down, was not down already, and exactly its modifiers were held.
pub fn handle_event(event: KeyEvent, binding: Option<MacShortcut>, held: &mut HeldKeys) -> (activated:
    bool)
    requires
        old(held).wf(),
    ensures
        final(held).wf(),
        match event {
            KeyEvent::Press(key) => {
                &&& final(held)@ == old(held)@.insert(key)
                &&& activated == activates(old(held)@, binding, key)
            },
            KeyEvent::Release(key) => final(held)@ == old(held)@.remove(key) && !activated,
            KeyEvent::Other => final(held)@ == old(held)@ && !activated,
        },
{
    match event {
        KeyEvent::Press(key) => {
            if !held.press(key) {
                return false;
            }
            match binding {
                Some(binding) => key == binding.key && matches_modifiers(held, binding.modifiers),
                None => false,
            }
        },
        KeyEvent::Release(key) => {
            held.release(key);
            false
        },
        KeyEvent::Other => false,
    }
}

/// A key that is held down activates the shortcut once: the repeated presses that the
/// keyboard sends do not.
pub proof fn a_held_key_activates_once(
    held: Set<Key>,
    binding: Option<MacShortcut>,
    key: Key,
)
    ensures
        !activates(held.insert(key), binding, key),
{
}

// ---------------------------------------------------------------------------
// Applications and windows
// ---------------------------------------------------------------------------

/// The names of terminals.
pub open spec fn is_terminal_name(name: Seq<char>) -> bool {
    ||| name == "alacritty"@
    ||| name == "ghostty"@
    ||| name == "hyper"@
    ||| name == "iterm2"@
    ||| name == "kitty"@
    ||| name == "rio"@
    ||| name == "terminal"@
    ||| name == "tabby"@
    ||| name == "warp"@
    ||| name == "wezterm"@
}

/// Whether an application is a terminal.
#[must_use]
pub fn is_terminal_application(application: &str) -> (result: bool)
    ensures
        result == is_terminal_name(ascii_lowered(trimmed(application@))),
{
    let name = to_ascii_lowercase(trim(application).as_str());
    let name = name.as_str();
    same_text(name, "alacritty") || same_text(name, "ghostty") || same_text(name, "hyper")
        || same_text(name, "iterm2") || same_text(name, "kitty") || same_text(name, "rio")
        || same_text(name, "terminal") || same_text(name, "tabby") || same_text(name, "warp")
        || same_text(name, "wezterm")
}

/// A line without the carriage return at its end.
pub open spec fn without_return(line: Seq<char>) -> Seq<char> {
    if line.len() > 0 && line.last() == '\r' {
        line.drop_last()
    } else {
        line
    }
}

/// A line of a text; nothing where the text has fewer lines.
pub open spec fn line_of(text: Seq<char>, i: int) -> Seq<char> {
    let lines = pieces(text, Delimiter::Char('\n'));
    if i < lines.len() - 1 {
        without_return(lines[i])
    } else if i == lines.len() - 1 {
        lines[i]
    } else {
        Seq::empty()
    }
}

fn take_line(lines: &Vec<String>, i: usize) -> (result: String)
    requires
        lines@.len() >= 1,
    ensures
        result@ == if i < lines@.len() - 1 {
            without_return(lines@[i as int]@)
        } else if i == lines@.len() - 1 {
            lines@[i as int]@
        } else {
            Seq::empty()
        },
{
    if i < lines.len() - 1 {
        let chars = chars_of(lines[i].as_str());
        if chars.len() > 0 && chars[chars.len() - 1] == '\r' {
            let line = text_of(&chars, 0, chars.len() - 1);
            assert(line@ =~= without_return(lines@[i as int]@));
            line
        } else {
            lines[i].clone()
        }
    } else if i == lines.len() - 1 {
        lines[i].clone()
    } else {
        let none = String::new();
        assert(none@ =~= Seq::empty());
        none
    }
}

/// A text that holds anything.
pub open spec fn filled(value: Seq<char>) -> Option<Seq<char>> {
    if is_blank(value) {
        None
    } else {
        Some(value)
    }
}

fn nonempty(value: String) -> (result: Option<String>)
    ensures
        opt_view(result) == filled(value@),
{
    if blank(value.as_str()) {
        None
    } else {
        Some(value)
    }
}

/// The focused window as System Events reports it: a line each for the process, the
/// application and the title.
pub fn query_focused_target(output: &str) -> (result: Result<FocusedTarget, PlatformError>)
    ensures
        ({
            let pid = trimmed(line_of(output@, 0));
            let application = filled(line_of(output@, 1));
            match number_fault(pid, u32::MAX as nat) {
                Some(_) => result matches Err(PlatformError::Operation(reason)) && reason@
                    == "System Events returned no process id"@,
                None => {
                    &&& result is Ok
                    &&& result->Ok_0.window_id is Some
                    &&& result->Ok_0.window_id->0@ == "macos:"@ + digits(value(number_body(pid)))
                    &&& opt_view(result->Ok_0.application_id) == application
                    &&& opt_view(result->Ok_0.title) == filled(line_of(output@, 2))
                    &&& result->Ok_0.is_terminal == (application is Some && is_terminal_name(
                        ascii_lowered(trimmed(application->0)),
                    ))
                },
            }
        }),
{
    let lines = split(output, Delimiter::Char('\n'));
    let ghost all = pieces(output@, Delimiter::Char('\n'));
    assert(views(lines@).len() == lines@.len());
    let first = take_line(&lines, 0);
    assert(first@ == line_of(output@, 0)) by {
        assert(all[0] == lines@[0]@);
    }
    let pid: u32 = match parse_u32(trim(first.as_str()).as_str()) {
        Ok(pid) => pid,
        Err(_) => {
            return Err(
                PlatformError::Operation(String::from_str("System Events returned no process id")),
            );
        },
    };
    let second = take_line(&lines, 1);
    assert(second@ == line_of(output@, 1)) by {
        if all.len() > 1 {
            assert(all[1] == lines@[1]@);
        }
    }
    let third = take_line(&lines, 2);
    assert(third@ == line_of(output@, 2)) by {
        if all.len() > 2 {
            assert(all[2] == lines@[2]@);
        }
    }
    let application_id = nonempty(second);
    let title = nonempty(third);
    let is_terminal = match &application_id {
        Some(id) => is_terminal_application(id.as_str()),
        None => false,
    };
    let mut window_id = String::from_str("macos:");
    window_id.append(decimal(pid as u64).as_str());
    Ok(FocusedTarget { window_id: Some(window_id), application_id, title, is_terminal })
}

/// The script that brings a process to the front.
pub open spec fn front_script(pid: nat) -> Seq<char> {
    "tell application \"System Events\" to set frontmost of (first application process whose unix id is "@
        + digits(pid) + ") to true"@
}

/// The script that brings a process to the front.
pub fn refocus_process(pid: u32) -> (result: String)
    ensures
        result@ == front_script(pid as nat),
{
    let mut script = String::from_str(
        "tell application \"System Events\" to set frontmost of (first application process whose unix id is ",
    );
    script.append(decimal(pid as u64).as_str());
    script.append(") to true");
    script
}

/// The script that gives a window the focus back, by the identifier under which it was
/// found; none where it was found without one.
pub fn refocus_script(window_id: &Option<String>) -> (result: Result<Option<String>, PlatformError>)
    ensures
        match *window_id {
            None => result == Ok::<Option<String>, PlatformError>(None),
            Some(id) => if !"macos:"@.is_prefix_of(id@) {
                result matches Err(PlatformError::Operation(reason)) && reason@
                    == "invalid macOS window id"@
            } else {
                let number = id@.skip("macos:"@.len() as int);
                match number_fault(number, u32::MAX as nat) {
                    Some(fault) => result matches Err(PlatformError::Operation(reason)) && reason@
                        == fault_words(fault),
                    None => {
                        &&& result is Ok
                        &&& result->Ok_0 is Some
                        &&& result->Ok_0->0@ == front_script(value(number_body(number)))
                    },
                }
            },
        },
{
    let id = match window_id {
        Some(id) => id,
        None => {
            return Ok(None);
        },
    };
    let number = match strip_prefix(id.as_str(), "macos:") {
        Some(number) => number,
        None => {
            return Err(PlatformError::Operation(String::from_str("invalid macOS window id")));
        },
    };
    match parse_u32(number.as_str()) {
        Ok(pid) => Ok(Some(refocus_process(pid))),
        Err(fault) => Err(PlatformError::Operation(String::from_str(fault.words()))),
    }
}

/// How a script's failure is reported: one for want of permission as such.
pub fn osascript_error(message: &str) -> (result: PlatformError)
    ensures
        match result {
            PlatformError::PermissionDenied(reason) => reason@ == trimmed(message@)
                && contains_text(ascii_lowered(trimmed(message@)), "not authorized"@),
            PlatformError::Operation(reason) => reason@ == trimmed(message@) && !contains_text(
                ascii_lowered(trimmed(message@)),
                "not authorized"@,
            ),
            PlatformError::Unsupported(_) => false,
        },
{
    let message = trim(message);
    if contains(to_ascii_lowercase(message.as_str()).as_str(), "not authorized") {
        PlatformError::PermissionDenied(message)
    } else {
        PlatformError::Operation(message)
    }
}

/// One step of inserting text.
#[derive(Clone, Copy, PartialEq, Eq, Structural, Debug)]
pub enum InsertionStep {
    Copy,
    Type,
    Wait { ms: u64 },
    PressPaste,
}

/// The steps of inserting text by a method.
pub open spec fn steps_of(method: InsertionMethod, key_delay_ms: u64) -> Seq<InsertionStep> {
    match method {
        InsertionMethod::ClipboardOnly => seq![InsertionStep::Copy],
        InsertionMethod::Keyboard => if key_delay_ms > 0 {
            seq![InsertionStep::Type, InsertionStep::Wait { ms: key_delay_ms }]
        } else {
            seq![InsertionStep::Type]
        },
        InsertionMethod::ClipboardPaste => seq![InsertionStep::Copy, InsertionStep::PressPaste],
    }
}

/// The steps of inserting text by a method.
pub fn insert_text(method: InsertionMethod, key_delay_ms: u64) -> (result: Vec<InsertionStep>)
    ensures
        result@ == steps_of(method, key_delay_ms),
{
    let mut steps: Vec<InsertionStep> = Vec::new();
    match method {
        InsertionMethod::ClipboardOnly => {
            steps.push(InsertionStep::Copy);
        },
        InsertionMethod::Keyboard => {
            steps.push(InsertionStep::Type);
            if key_delay_ms > 0 {
                steps.push(InsertionStep::Wait { ms: key_delay_ms });
            }
        },
        InsertionMethod::ClipboardPaste => {
            steps.push(InsertionStep::Copy);
            steps.push(InsertionStep::PressPaste);
        },
    }
    assert(steps@ =~= steps_of(method, key_delay_ms));
    steps
}

/// What the desktop can do: most of it with the Accessibility permission alone.
pub fn capabilities(accessibility: bool, clipboard: bool) -> (result: PlatformCapabilities)
    ensures
        result == (PlatformCapabilities {
            global_shortcut: accessibility,
            focused_target: accessibility,
            keyboard_injection: accessibility,
            clipboard,
            tray: true,
            autostart: false,
        }),
{
    PlatformCapabilities {
        global_shortcut: accessibility,
        focused_target: accessibility,
        keyboard_injection: accessibility,
        clipboard,
        tray: true,
        autostart: false,
    }
}

/// The overlay's window needs no announcement here.
pub fn prepare_overlay_creation(markers: &mut OverlayMarkers)
    ensures
        *final(markers) == *old(markers),
{
}

/// A window found can be given the focus back: its identifier leads to the process that was
/// found.
pub proof fn windows_found_can_be_refocused(pid: nat)
    requires
        pid <= u32::MAX,
    ensures
        "macos:"@.is_prefix_of("macos:"@ + digits(pid)),
        number_fault(("macos:"@ + digits(pid)).skip("macos:"@.len() as int), u32::MAX as nat)
            is None,
        value(number_body(("macos:"@ + digits(pid)).skip("macos:"@.len() as int))) == pid,
{
    let prefix = "macos:"@;
    let whole = prefix + digits(pid);
    assert(whole.take(prefix.len() as int) =~= prefix);
    assert(whole.skip(prefix.len() as int) =~= digits(pid));
    crate::decimal::digits_have_no_fault(pid, u32::MAX as nat);
}

/// The letter on a key.
pub open spec fn letter_on(key: Key) -> Option<char> {
    match key {
        Key::KeyA => Some('a'),
        Key::KeyB => Some('b'),
        Key::KeyC => Some('c'),
        Key::KeyD => Some('d'),
        Key::KeyE => Some('e'),
        Key::KeyF => Some('f'),
        Key::KeyG => Some('g'),
        Key::KeyH => Some('h'),
        Key::KeyI => Some('i'),
        Key::KeyJ => Some('j'),
        Key::KeyK => Some('k'),
        Key::KeyL => Some('l'),
        Key::KeyM => Some('m'),
        Key::KeyN => Some('n'),
        Key::KeyO => Some('o'),
        Key::KeyP => Some('p'),
        Key::KeyQ => Some('q'),
        Key::KeyR => Some('r'),
        Key::KeyS => Some('s'),
        Key::KeyT => Some('t'),
        Key::KeyU => Some('u'),
        Key::KeyV => Some('v'),
        Key::KeyW => Some('w'),
        Key::KeyX => Some('x'),
        Key::KeyY => Some('y'),
        Key::KeyZ => Some('z'),
        _ => None,
    }
}

/// A letter names the key that it stands on, and every letter names one.
pub proof fn letters_name_their_keys(c: char)
    ensures
        letter_key(c) is Some <==> 'a' <= c <= 'z',
        letter_key(c) matches Some(key) ==> letter_on(key) == Some(c),
{
}

/// The name of the command key.
pub open spec fn names_command(name: Seq<char>) -> bool {
    name == "super"@ || name == "meta"@ || name == "win"@ || name == "command"@ || name == "cmd"@
}

/// The name of the control key.
pub open spec fn names_control(name: Seq<char>) -> bool {
    name == "ctrl"@ || name == "control"@
}

/// The name of the option key.
pub open spec fn names_option(name: Seq<char>) -> bool {
    name == "alt"@ || name == "option"@
}

/// One of the parts, in whatever case, has a name of a kind.
pub open spec fn some_part(parts: Seq<Seq<char>>, named: spec_fn(Seq<char>) -> bool) -> bool {
    exists|i: int| 0 <= i < parts.len() && named(ascii_lowered(#[trigger] parts[i]))
}

proof fn some_part_of_more(parts: Seq<Seq<char>>, named: spec_fn(Seq<char>) -> bool)
    requires
        parts.len() > 0,
    ensures
        some_part(parts, named) <==> some_part(parts.drop_last(), named) || named(
            ascii_lowered(parts.last()),
        ),
{
    let front = parts.drop_last();
    if some_part(front, named) {
        let i = choose|i: int| 0 <= i < front.len() && named(ascii_lowered(#[trigger] front[i]));
        assert(parts[i] == front[i]);
    }
    if named(ascii_lowered(parts.last())) {
        assert(parts[parts.len() - 1] == parts.last());
    }
    if some_part(parts, named) {
        let i = choose|i: int| 0 <= i < parts.len() && named(ascii_lowered(#[trigger] parts[i]));
        if i < front.len() {
            assert(front[i] == parts[i]);
        }
    }
}

proof fn modifier_names_differ()
    ensures
        forall|name: Seq<char>|
            #![trigger names_command(name)]
            names_command(name) ==> !names_control(name) && !names_option(name) && name
                != "shift"@,
        forall|name: Seq<char>|
            #![trigger names_control(name)]
            names_control(name) ==> !names_option(name) && name != "shift"@,
        forall|name: Seq<char>| #![trigger names_option(name)] names_option(name) ==> name != "shift"@,
{
    reveal_strlit("super");
    reveal_strlit("meta");
    reveal_strlit("win");
    reveal_strlit("command");
    reveal_strlit("cmd");
    reveal_strlit("ctrl");
    reveal_strlit("control");
    reveal_strlit("alt");
    reveal_strlit("option");
    reveal_strlit("shift");
    assert("super"@.len() == 5);
    assert("meta"@.len() == 4);
    assert("win"@.len() == 3);
    assert("command"@.len() == 7);
    assert("cmd"@.len() == 3);
    assert("ctrl"@.len() == 4);
    assert("control"@.len() == 7);
    assert("alt"@.len() == 3);
    assert("option"@.len() == 6);
    assert("shift"@.len() == 5);
    assert("super"@[1] == 'u' && "shift"@[1] == 'h');
    assert("meta"@[0] == 'm' && "ctrl"@[0] == 'c');
    assert("win"@[0] == 'w' && "cmd"@[0] == 'c' && "alt"@[0] == 'a');
    assert("command"@[2] == 'm' && "control"@[2] == 'n');
}

/// A modifier belongs to a shortcut exactly if one of the parts names it, and the keys are
/// the parts that name no modifier.
pub proof fn every_named_modifier_counts(parts: Seq<Seq<char>>)
    ensures
        modifiers_of(parts).command <==> some_part(parts, |n: Seq<char>| names_command(n)),
        modifiers_of(parts).control <==> some_part(parts, |n: Seq<char>| names_control(n)),
        modifiers_of(parts).option <==> some_part(parts, |n: Seq<char>| names_option(n)),
        modifiers_of(parts).shift <==> some_part(parts, |n: Seq<char>| n == "shift"@),
        keys_of(parts) == parts.filter(
            |part: Seq<char>|
                {
                    let name = ascii_lowered(part);
                    !names_command(name) && !names_control(name) && !names_option(name) && name
                        != "shift"@
                },
        ),
    decreases parts.len(),
{
    reveal(Seq::filter);
    modifier_names_differ();
    if parts.len() > 0 {
        let name = ascii_lowered(parts.last());
        every_named_modifier_counts(parts.drop_last());
        some_part_of_more(parts, |n: Seq<char>| names_command(n));
        some_part_of_more(parts, |n: Seq<char>| names_control(n));
        some_part_of_more(parts, |n: Seq<char>| names_option(n));
        some_part_of_more(parts, |n: Seq<char>| n == "shift"@);
        assert(names_command(name) || names_control(name) || names_option(name) || name
            == "shift"@ <==> with_modifier(no_modifiers(), name) is Some);
    }
}

/// A shortcut that is taken has one key, and the modifiers that its parts name.
pub proof fn shortcuts_have_one_key_and_their_modifiers(shortcut: Seq<char>)
    ensures
        match shortcut_of(shortcut) {
            Ok(found) => {
                &&& keys_of(shortcut_parts(shortcut)).len() == 1
                &&& key_named(ascii_lowered(keys_of(shortcut_parts(shortcut))[0])) == Some(
                    found.key,
                )
                &&& found.modifiers == modifiers_of(shortcut_parts(shortcut))
            },
            Err(_) => {
                ||| keys_of(shortcut_parts(shortcut)).len() != 1
                ||| key_named(ascii_lowered(keys_of(shortcut_parts(shortcut))[0])) is None
            },
        },
{
}

/// A press sets a shortcut off exactly if its key goes down while its modifiers, left or
/// right, and no others are held.
pub proof fn shortcuts_are_set_off_by_their_keys_alone(
    held: Set<Key>,
    bound: MacShortcut,
    key: Key,
)
    requires
        letter_on(key) is Some,
    ensures
        activates(held, Some(bound), key) <==> {
            &&& key == bound.key
            &&& !held.contains(key)
            &&& bound.modifiers.command <==> held.contains(Key::MetaLeft) || held.contains(
                Key::MetaRight,
            )
            &&& bound.modifiers.control <==> held.contains(Key::ControlLeft) || held.contains(
                Key::ControlRight,
            )
            &&& bound.modifiers.option <==> held.contains(Key::Alt)
            &&& bound.modifiers.shift <==> held.contains(Key::ShiftLeft) || held.contains(
                Key::ShiftRight,
            )
        },
        !activates(held, None, key),
{
}

/// Text is copied exactly if it goes by the clipboard, and the paste keys are pressed only
/// behind the copy; it is typed exactly if it goes by the keyboard, and nothing waits but
/// behind the typing.
pub proof fn text_goes_the_way_it_is_sent(method: InsertionMethod, key_delay_ms: u64)
    ensures
        ({
            let steps = steps_of(method, key_delay_ms);
            &&& steps.len() > 0
            &&& steps[0] is Type <==> method is Keyboard
            &&& steps[0] is Copy <==> !(method is Keyboard)
            &&& method is ClipboardOnly ==> steps.len() == 1
            &&& method is ClipboardPaste ==> steps.len() == 2 && steps[1] is PressPaste
            &&& method is Keyboard && key_delay_ms == 0 ==> steps.len() == 1
            &&& method is Keyboard && key_delay_ms > 0 ==> steps.len() == 2 && steps[1] == (
            InsertionStep::Wait { ms: key_delay_ms })
        }),
{
}

/// Lines end with a line feed, with or without a carriage return before it.
pub proof fn lines_end_either_way(first: Seq<char>, second: Seq<char>)
    requires
        !first.contains('\n'),
        !second.contains('\n'),
        first.len() > 0 ==> first.last() != '\r',
    ensures
        line_of(first + seq!['\n'] + second, 0) == first,
        line_of(first + seq!['\r', '\n'] + second, 0) == first,
        line_of(first + seq!['\n'] + second, 1) == second,
        line_of(first + seq!['\r', '\n'] + second, 1) == second,
        line_of(first + seq!['\n'] + second, 2).len() == 0,
{
    let returned = first.push('\r');
    assert(first + seq!['\r', '\n'] + second =~= returned + seq!['\n'] + second);
    assert forall|i: int| 0 <= i < first.len() implies #[trigger] first[i] != '\n' by {
        assert(first.contains(first[i]));
    }
    assert forall|i: int| 0 <= i < second.len() implies #[trigger] second[i] != '\n' by {
        assert(second.contains(second[i]));
    }
    two_lines(first, second);
    two_lines(returned, second);
    assert(returned.drop_last() =~= first);
}

proof fn two_lines(first: Seq<char>, second: Seq<char>)
    requires
        forall|i: int| 0 <= i < first.len() ==> #[trigger] first[i] != '\n',
        forall|i: int| 0 <= i < second.len() ==> #[trigger] second[i] != '\n',
    ensures
        pieces(first + seq!['\n'] + second, Delimiter::Char('\n')) == seq![first, second],
{
    let d = Delimiter::Char('\n');
    let none = Seq::<char>::empty();
    assert(none + first =~= first);
    crate::split::pieces_extend(none, first, d);
    assert(pieces(first, d) =~= seq![first]);
    let above = first + seq!['\n'];
    assert(above.drop_last() =~= first);
    assert(pieces(above, d) =~= seq![first, none]);
    crate::split::pieces_extend(above, second, d);
    assert(none + second =~= second);
    assert(pieces(above + second, d) =~= seq![first, second]);
}

} // verus!
