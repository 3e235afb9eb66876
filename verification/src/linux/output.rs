//! Typing and copying text with the helpers of a session.

use vstd::prelude::*;
use vstd::string::*;

use crate::decimal::{decimal, digits};
use crate::platform::{
    platform_error_text, InsertionMethod, PlatformCapabilities, PlatformError,
};
use crate::text::views;

verus! {

broadcast use vstd::string::group_string_axioms;

/// What is known of the session: what it runs on, and which commands are there.
#[derive(Clone, Copy, PartialEq, Eq, Structural, Debug)]
pub struct SessionFacts {
    pub wayland: bool,
    pub x11: bool,
    pub gnome: bool,
    pub session_bus: bool,
    pub uinput: bool,
    pub hyprland: bool,
    pub niri: bool,
    pub sway: bool,
    pub has_hyprctl: bool,
    pub has_niri: bool,
    pub has_swaymsg: bool,
    pub has_xdotool: bool,
    pub has_wtype: bool,
    pub has_ydotool: bool,
    pub has_wl_copy: bool,
    pub has_xclip: bool,
    pub has_xsel: bool,
    pub has_systemctl: bool,
    pub has_gsettings: bool,
}

/// A command and its arguments.
#[derive(PartialEq, Eq, Debug)]
pub struct CommandLine {
    pub program: String,
    pub args: Vec<String>,
}

/// The command is this program with these arguments.
pub open spec fn runs(command: CommandLine, program: Seq<char>, args: Seq<Seq<char>>) -> bool {
    command.program@ == program && views(command.args@) == args
}

/// Builds a command of a program without arguments.
pub fn command(program: &str) -> (result: CommandLine)
    ensures
        runs(result, program@, Seq::empty()),
{
    let args: Vec<String> = Vec::new();
    assert(views(args@) =~= Seq::empty());
    CommandLine { program: String::from_str(program), args }
}

impl CommandLine {
    /// The same command with one more argument.
    pub fn arg(self, value: &str) -> (result: Self)
        ensures
            result.program == self.program,
            views(result.args@) == views(self.args@).push(value@),
    {
        let mut args = self.args;
        let ghost before = views(args@);
        args.push(String::from_str(value));
        assert(views(args@) =~= before.push(value@));
        CommandLine { program: self.program, args }
    }
}

/// The helper that types text in a session, by name.
pub open spec fn keyboard_backend(
    wayland: bool,
    x11: bool,
    gnome: bool,
    has_wtype: bool,
    has_ydotool: bool,
    has_xdotool: bool,
) -> Option<Seq<char>> {
    if wayland && !gnome && has_wtype {
        Some("wtype"@)
    } else if has_ydotool {
        Some("ydotool"@)
    } else if x11 && has_xdotool {
        Some("xdotool"@)
    } else {
        None
    }
}

/// The contents of an optional static text.
pub open spec fn opt_static_view(value: Option<&'static str>) -> Option<Seq<char>> {
    match value {
        Some(s) => Some(s@),
        None => None,
    }
}

/// The helper that types text in a session.
pub fn select_keyboard_backend(
    wayland: bool,
    x11: bool,
    gnome: bool,
    has_wtype: bool,
    has_ydotool: bool,
    has_xdotool: bool,
) -> (result: Option<&'static str>)
    ensures
        opt_static_view(result) == keyboard_backend(
            wayland,
            x11,
            gnome,
            has_wtype,
            has_ydotool,
            has_xdotool,
        ),
{
    if wayland && gnome && has_ydotool {
        Some("ydotool")
    } else if wayland && !gnome && has_wtype {
        Some("wtype")
    } else if has_ydotool {
        Some("ydotool")
    } else if x11 && has_xdotool {
        Some("xdotool")
    } else {
        None
    }
}

/// The helper for a session's facts.
pub open spec fn helper_for(facts: SessionFacts) -> Option<Seq<char>> {
    keyboard_backend(
        facts.wayland,
        facts.x11,
        facts.gnome,
        facts.has_wtype,
        facts.has_ydotool,
        facts.has_xdotool,
    )
}

/// The command that types a text with a delay between keys.
pub fn type_text_with_helper(facts: SessionFacts, text: &str, delay_ms: u64) -> (result: Result<
    CommandLine,
    PlatformError,
>)
    ensures
        match result {
            Ok(line) => {
                ||| helper_for(facts) == Some("wtype"@) && runs(
                    line,
                    "wtype"@,
                    seq!["-d"@, digits(delay_ms as nat), "--"@, text@],
                )
                ||| helper_for(facts) == Some("ydotool"@) && runs(
                    line,
                    "ydotool"@,
                    seq!["type"@, "-d"@, digits(delay_ms as nat), "--"@, text@],
                )
                ||| helper_for(facts) == Some("xdotool"@) && runs(
                    line,
                    "xdotool"@,
                    seq![
                        "type"@,
                        "--clearmodifiers"@,
                        "--delay"@,
                        digits(delay_ms as nat),
                        "--"@,
                        text@,
                    ],
                )
            },
            Err(PlatformError::Unsupported(what)) => helper_for(facts) is None && what@
                == "keyboard text insertion"@,
            Err(_) => false,
        },
{
    let delay = decimal(delay_ms);
    let delay = delay.as_str();
    if facts.wayland && !facts.gnome && facts.has_wtype {
        let line = command("wtype").arg("-d").arg(delay).arg("--").arg(text);
        assert(views(line.args@) =~= seq!["-d"@, digits(delay_ms as nat), "--"@, text@]);
        return Ok(line);
    }
    if facts.has_ydotool {
        let line = command("ydotool").arg("type").arg("-d").arg(delay).arg("--").arg(text);
        assert(views(line.args@) =~= seq!["type"@, "-d"@, digits(delay_ms as nat), "--"@, text@]);
        return Ok(line);
    }
    if facts.x11 && facts.has_xdotool {
        let line = command("xdotool").arg("type").arg("--clearmodifiers").arg("--delay").arg(
            delay,
        ).arg("--").arg(text);
        assert(views(line.args@) =~= seq![
            "type"@,
            "--clearmodifiers"@,
            "--delay"@,
            digits(delay_ms as nat),
            "--"@,
            text@,
        ]);
        return Ok(line);
    }
    Err(PlatformError::Unsupported("keyboard text insertion"))
}

/// What is reported of typing a text: the helper is only tried where the native keyboard
/// fails, and where both fail both reasons are given.
pub fn type_text(
    native: Result<(), PlatformError>,
    helper: Option<Result<(), PlatformError>>,
) -> (result: Result<(), PlatformError>)
    requires
        native is Err ==> helper is Some,
    ensures
        match (native, helper) {
            (Err(first), Some(Err(second))) => result matches Err(PlatformError::Operation(reason))
                && reason@ == "native keyboard injection failed: "@ + platform_error_text(first)
                + "; helper fallback failed: "@ + platform_error_text(second),
            _ => result is Ok,
        },
{
    match native {
        Ok(()) => Ok(()),
        Err(native_error) => match helper {
            Some(Ok(())) => Ok(()),
            Some(Err(helper_error)) => {
                let mut text = String::from_str("native keyboard injection failed: ");
                text.append(native_error.message().as_str());
                text.append("; helper fallback failed: ");
                text.append(helper_error.message().as_str());
                Err(PlatformError::Operation(text))
            },
            None => Err(native_error),
        },
    }
}

/// The command that copies its input to the clipboard.
pub fn copy_command(facts: SessionFacts) -> (result: Result<CommandLine, PlatformError>)
    ensures
        match result {
            Ok(line) => if facts.wayland && facts.has_wl_copy {
                runs(line, "wl-copy"@, Seq::empty())
            } else if facts.x11 && facts.has_xclip {
                runs(line, "xclip"@, seq!["-selection"@, "clipboard"@])
            } else {
                facts.x11 && facts.has_xsel && runs(
                    line,
                    "xsel"@,
                    seq!["--clipboard"@, "--input"@],
                )
            },
            Err(PlatformError::Unsupported(what)) => {
                &&& what@ == "clipboard output"@
                &&& !(facts.wayland && facts.has_wl_copy)
                &&& !(facts.x11 && (facts.has_xclip || facts.has_xsel))
            },
            Err(_) => false,
        },
        result is Ok <==> copy_tool(facts) is Some,
        result matches Ok(line) ==> copy_tool(facts) == Some(line.program@),
{
    if facts.wayland && facts.has_wl_copy {
        return Ok(command("wl-copy"));
    }
    if facts.x11 && facts.has_xclip {
        let line = command("xclip").arg("-selection").arg("clipboard");
        assert(views(line.args@) =~= seq!["-selection"@, "clipboard"@]);
        return Ok(line);
    }
    if facts.x11 && facts.has_xsel {
        let line = command("xsel").arg("--clipboard").arg("--input");
        assert(views(line.args@) =~= seq!["--clipboard"@, "--input"@]);
        return Ok(line);
    }
    Err(PlatformError::Unsupported("clipboard output"))
}

/// How text is inserted.
#[derive(Clone, Copy, PartialEq, Eq, Structural, Debug)]
pub enum InsertionRoute {
    Keyboard,
    Clipboard,
}

/// How text is inserted by a method; pasting from the clipboard is not offered.
pub fn insertion_route(method: InsertionMethod) -> (result: Result<InsertionRoute, PlatformError>)
    ensures
        match method {
            InsertionMethod::Keyboard => result == Ok::<InsertionRoute, PlatformError>(
                InsertionRoute::Keyboard,
            ),
            InsertionMethod::ClipboardOnly => result == Ok::<InsertionRoute, PlatformError>(
                InsertionRoute::Clipboard,
            ),
            InsertionMethod::ClipboardPaste => result matches Err(PlatformError::Unsupported(what))
                && what@ == "clipboard paste injection is not configured"@,
        },
{
    match method {
        InsertionMethod::Keyboard => Ok(InsertionRoute::Keyboard),
        InsertionMethod::ClipboardOnly => Ok(InsertionRoute::Clipboard),
        InsertionMethod::ClipboardPaste => Err(
            PlatformError::Unsupported("clipboard paste injection is not configured"),
        ),
    }
}

/// The compositor's command that a session offers.
pub open spec fn compositor(facts: SessionFacts) -> Option<Seq<char>> {
    if facts.hyprland && facts.has_hyprctl {
        Some("hyprctl"@)
    } else if facts.niri && facts.has_niri {
        Some("niri"@)
    } else if facts.sway && facts.has_swaymsg {
        Some("swaymsg"@)
    } else {
        None
    }
}

/// The compositor's command that a session offers.
pub fn compositor_command(facts: SessionFacts) -> (result: Option<&'static str>)
    ensures
        opt_static_view(result) == compositor(facts),
{
    if facts.hyprland && facts.has_hyprctl {
        Some("hyprctl")
    } else if facts.niri && facts.has_niri {
        Some("niri")
    } else if facts.sway && facts.has_swaymsg {
        Some("swaymsg")
    } else {
        None
    }
}

/// What a session can do.
pub fn capabilities(facts: SessionFacts) -> (result: PlatformCapabilities)
    ensures
        result == (PlatformCapabilities {
            global_shortcut: facts.session_bus,
            focused_target: compositor(facts) is Some || (facts.x11 && facts.has_xdotool),
            keyboard_injection: facts.wayland || facts.uinput || helper_for(facts) is Some,
            clipboard: (facts.wayland && facts.has_wl_copy) || (facts.x11 && (facts.has_xclip
                || facts.has_xsel)),
            tray: true,
            autostart: facts.has_systemctl,
        }),
{
    let helper = select_keyboard_backend(
        facts.wayland,
        facts.x11,
        facts.gnome,
        facts.has_wtype,
        facts.has_ydotool,
        facts.has_xdotool,
    );
    PlatformCapabilities {
        global_shortcut: facts.session_bus,
        focused_target: compositor_command(facts).is_some() || (facts.x11 && facts.has_xdotool),
        keyboard_injection: facts.wayland || facts.uinput || helper.is_some(),
        clipboard: (facts.wayland && facts.has_wl_copy) || (facts.x11 && (facts.has_xclip
            || facts.has_xsel)),
        tray: true,
        autostart: facts.has_systemctl,
    }
}

/// Text is typed with wtype in a Wayland session that is not GNOME's, else with ydotool,
/// else with xdotool in an X11 session; each only where it is there.
pub proof fn each_helper_types_where_it_works(
    wayland: bool,
    x11: bool,
    gnome: bool,
    has_wtype: bool,
    has_ydotool: bool,
    has_xdotool: bool,
)
    ensures
        ({
            let helper = keyboard_backend(wayland, x11, gnome, has_wtype, has_ydotool, has_xdotool);
            let on_wayland = has_wtype && wayland && !gnome;
            &&& helper == Some("wtype"@) <==> on_wayland
            &&& helper == Some("ydotool"@) <==> has_ydotool && !on_wayland
            &&& helper == Some("xdotool"@) <==> has_xdotool && x11 && !has_ydotool && !on_wayland
            &&& helper is None <==> !has_ydotool && !on_wayland && !(has_xdotool && x11)
        }),
{
    reveal_strlit("wtype");
    reveal_strlit("ydotool");
    reveal_strlit("xdotool");
    assert("ydotool"@[0] == 'y');
    assert("xdotool"@[0] == 'x');
}

/// The tool that answers for the focused window is that of the compositor that runs.
pub proof fn each_compositor_has_its_tool(facts: SessionFacts)
    ensures
        compositor(facts) == Some("hyprctl"@) <==> facts.hyprland && facts.has_hyprctl,
        compositor(facts) == Some("niri"@) <==> facts.niri && facts.has_niri && !(facts.hyprland
            && facts.has_hyprctl),
        compositor(facts) == Some("swaymsg"@) <==> facts.sway && facts.has_swaymsg && !(facts.niri
            && facts.has_niri) && !(facts.hyprland && facts.has_hyprctl),
        compositor(facts) is None <==> !(facts.hyprland && facts.has_hyprctl) && !(facts.niri
            && facts.has_niri) && !(facts.sway && facts.has_swaymsg),
{
    reveal_strlit("hyprctl");
    reveal_strlit("niri");
    reveal_strlit("swaymsg");
    assert("hyprctl"@[0] == 'h');
    assert("swaymsg"@[0] == 's');
}

/// The tool that fills the clipboard.
pub open spec fn copy_tool(facts: SessionFacts) -> Option<Seq<char>> {
    if facts.wayland && facts.has_wl_copy {
        Some("wl-copy"@)
    } else if facts.x11 && facts.has_xclip {
        Some("xclip"@)
    } else if facts.x11 && facts.has_xsel {
        Some("xsel"@)
    } else {
        None
    }
}

/// The clipboard is filled by the tool of the session that runs: wl-copy under Wayland, else
/// xclip or xsel under X11.
pub proof fn the_clipboard_is_filled_where_it_can_be(facts: SessionFacts)
    ensures
        copy_tool(facts) == Some("wl-copy"@) <==> facts.has_wl_copy && facts.wayland,
        copy_tool(facts) == Some("xclip"@) <==> facts.has_xclip && facts.x11 && !(facts.has_wl_copy
            && facts.wayland),
        copy_tool(facts) == Some("xsel"@) <==> facts.has_xsel && facts.x11 && !facts.has_xclip && !(
        facts.has_wl_copy && facts.wayland),
        copy_tool(facts) is None <==> !(facts.has_wl_copy && facts.wayland) && !(facts.x11 && (
        facts.has_xclip || facts.has_xsel)),
{
    reveal_strlit("wl-copy");
    reveal_strlit("xclip");
    reveal_strlit("xsel");
    assert("wl-copy"@.len() == 7);
    assert("xclip"@.len() == 5);
    assert("xsel"@.len() == 4);
}

} // verus!
