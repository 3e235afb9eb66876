use speakiput::json::{read_json_text, Json};
use speakiput::linux::focus::{
    find_focused, hyprland_target, niri_target, query_command, query_focused_target,
    refocus_target, sway_target, sway_target_from, x11_detail_commands, x11_target, FocusQuery,
    HyprWindow, NiriWindow,
};
use speakiput::linux::output::{
    capabilities, copy_command, insertion_route, select_keyboard_backend, type_text,
    type_text_with_helper, InsertionRoute, SessionFacts,
};
use speakiput::linux::overlay::{prepare_overlay_creation, should_force_x11, OverlayMarkers};
use speakiput::linux::quoting::{
    gvariant_array, gvariant_string, parse_gvariant_string_array, shell_quote,
};
use speakiput::linux::shortcut::{
    configure_gnome_shortcut, find_bound_shortcut, gnome_query_command, portal_trigger,
    shortcut_backend,
    ShortcutBackend, GNOME_CUSTOM_KEYS_PATH,
};
use speakiput::linux::terminal::is_terminal_application;
use speakiput::macos;
use speakiput::macos::{
    handle_event, matches_modifiers, parse_shortcut, HeldKeys, InsertionStep, Key, KeyEvent,
    MacShortcut, Modifiers,
};
use speakiput::platform::{InsertionMethod, PlatformError};

fn facts() -> SessionFacts {
    SessionFacts {
        wayland: false,
        x11: false,
        gnome: false,
        session_bus: false,
        uinput: false,
        hyprland: false,
        niri: false,
        sway: false,
        has_hyprctl: false,
        has_niri: false,
        has_swaymsg: false,
        has_xdotool: false,
        has_wtype: false,
        has_ydotool: false,
        has_wl_copy: false,
        has_xclip: false,
        has_xsel: false,
        has_systemctl: false,
        has_gsettings: false,
    }
}

fn tree(text: &str) -> Json {
    read_json_text(text).unwrap()
}

#[test]
fn terminal_matching_is_exact_not_substring_based() {
    for terminal in ["Alacritty", "org.gnome.Terminal", "io.example.Ghostty"] {
        assert!(is_terminal_application(terminal));
    }
    for application in ["steam", "Postman", "systemsettings", "app.drey.Warp"] {
        assert!(!is_terminal_application(application));
    }
    assert!(is_terminal_application(" st "));
    assert!(!is_terminal_application(""));
    assert!(!is_terminal_application("org.example.foot"));
}

#[test]
fn finds_focused_sway_node_recursively() {
    let tree = tree(
        r#"{
            "focused": false,
            "nodes": [{ "focused": false, "nodes": [{ "focused": true, "id": 42 }] }]
        }"#,
    );
    assert_eq!(find_focused(&tree).unwrap().signed_at("id"), Some(42));
}

#[test]
fn sway_windows_are_described() {
    let target = sway_target_from(
        br#"{
            "focused": "true",
            "nodes": [{ "focused": false, "id": 1 }],
            "floating_nodes": [7, {
                "focused": true,
                "id": -7,
                "app_id": " ",
                "class": "no",
                "window_properties": { "instance": "no", "class": "kitty" },
                "name": "shell"
            }, { "focused": true, "id": 8 }]
        }"#,
    )
    .unwrap();
    assert_eq!(target.window_id.as_deref(), Some("sway:-7"));
    assert_eq!(target.application_id.as_deref(), Some("kitty"));
    assert_eq!(target.title.as_deref(), Some("shell"));
    assert!(target.is_terminal);
    let instance = r#"{ "focused": true, "id": 1, "window_properties": { "instance": "st" } }"#;
    let target = sway_target(&tree(instance)).unwrap();
    assert_eq!(target.application_id.as_deref(), Some("st"));
    for id in ["18446744073709551615", "1.5", "\"3\"", "null"] {
        let text = format!("{{ \"focused\": true, \"id\": {id} }}");
        assert_eq!(
            sway_target(&tree(&text)),
            Err(PlatformError::Operation("focused Sway node has no id".into()))
        );
    }
    assert_eq!(
        sway_target_from(b"[]").unwrap_err().message(),
        "platform operation failed: Sway reported no focused window"
    );
    assert!(matches!(
        sway_target_from(b"{"),
        Err(PlatformError::Operation(reason)) if reason.contains("EOF")
    ));
}

#[test]
fn other_compositors_are_described() {
    let hypr = hyprland_target(HyprWindow {
        address: "0x1".into(),
        class: "firefox".into(),
        title: String::new(),
    });
    assert_eq!(hypr.window_id.as_deref(), Some("hypr:0x1"));
    assert_eq!(hypr.title, None);
    assert!(!hypr.is_terminal);
    let niri = niri_target(NiriWindow {
        id: 12,
        app_id: Some("foot".into()),
        title: None,
    });
    assert_eq!(niri.window_id.as_deref(), Some("niri:12"));
    assert!(niri.is_terminal);
    let x11 = x11_target(" 99\n", "XTerm\n", "\n");
    assert_eq!(x11.window_id.as_deref(), Some("x11:99"));
    assert!(x11.is_terminal);
    assert_eq!(x11.title, None);
}

#[test]
fn windows_are_refocused_where_they_were_found() {
    let line = refocus_target("sway:42").unwrap();
    assert_eq!(line.program, "swaymsg");
    assert_eq!(line.args, vec!["[con_id=42]", "focus"]);
    let line = refocus_target("hypr:0x1").unwrap();
    assert_eq!(line.args, vec!["dispatch", "focuswindow", "address:0x1"]);
    assert_eq!(
        refocus_target("niri:3").unwrap().args,
        vec!["msg", "action", "focus-window", "--id", "3"]
    );
    assert_eq!(
        refocus_target("x11:9").unwrap().args,
        vec!["windowactivate", "--sync", "9"]
    );
    assert_eq!(
        refocus_target("nowhere"),
        Err(PlatformError::Operation("invalid focused window id".into()))
    );
    assert_eq!(
        refocus_target("kwin:1"),
        Err(PlatformError::Operation("unknown focused window backend".into()))
    );
}

#[test]
fn the_focus_is_asked_of_the_compositor_first() {
    let mut session = facts();
    assert_eq!(
        query_focused_target(session),
        Err(PlatformError::Unsupported("focused window tracking"))
    );
    session.x11 = true;
    session.has_xdotool = true;
    assert_eq!(query_focused_target(session), Ok(FocusQuery::X11));
    session.sway = true;
    session.has_swaymsg = true;
    assert_eq!(query_focused_target(session), Ok(FocusQuery::Sway));
    assert_eq!(query_command(FocusQuery::Sway).args, vec!["-t", "get_tree", "-r"]);
    let (class, title) = x11_detail_commands("42\n");
    assert_eq!(class.program, "xdotool");
    assert_eq!(class.args, vec!["getwindowclassname", "42"]);
    assert_eq!(title.args, vec!["getwindowname", "42"]);
}

#[test]
fn converts_desktop_shortcut_to_portal_trigger() {
    assert_eq!(
        portal_trigger("Super+Shift+Space").unwrap(),
        "<Super><Shift>space"
    );
    assert_eq!(portal_trigger("Control+F9").unwrap(), "<Control>f9");
    assert!(portal_trigger("Ctrl+A+B").is_err());
    assert_eq!(
        portal_trigger("Alt"),
        Err(PlatformError::Operation("shortcut has no key".into()))
    );
}

#[test]
fn parses_and_quotes_gsettings_values() {
    assert_eq!(parse_gvariant_string_array("@as []"), Vec::<String>::new());
    assert_eq!(
        parse_gvariant_string_array("['/one/', '/two/']"),
        vec!["/one/", "/two/"]
    );
    assert_eq!(gvariant_string("it's"), "'it\\'s'");
    assert_eq!(shell_quote("it's"), "'it'\\''s'");
    let paths = vec!["/a/".to_owned(), "/b/".to_owned()];
    assert_eq!(gvariant_array(&paths), "['/a/', '/b/']");
    assert_eq!(parse_gvariant_string_array(&gvariant_array(&paths)), paths);
}

#[test]
fn gnome_is_told_of_the_shortcut_once() {
    let asked = gnome_query_command();
    assert_eq!(asked.program, "gsettings");
    assert_eq!(
        asked.args,
        vec!["get", "org.gnome.settings-daemon.plugins.media-keys", "custom-keybindings"]
    );
    let first = configure_gnome_shortcut("Super+D", "/opt/it's/speakiputd", "@as []").unwrap();
    assert_eq!(first.len(), 4);
    assert_eq!(
        first[0].args,
        vec![
            "set".to_owned(),
            "org.gnome.settings-daemon.plugins.media-keys".to_owned(),
            "custom-keybindings".to_owned(),
            format!("['{GNOME_CUSTOM_KEYS_PATH}']"),
        ]
    );
    assert_eq!(
        first[2].args[3],
        "'\\'/opt/it\\'\\\\\\'\\'s/speakiputd\\' --toggle-recording'"
    );
    assert_eq!(first[3].args[3], "'<Super>d'");
    let again = configure_gnome_shortcut("Super+D", "/x", &first[0].args[3]).unwrap();
    assert_eq!(again.len(), 3);
    assert_eq!(again[0].args[2], "name");
    assert!(configure_gnome_shortcut("D+E", "/x", "").is_err());
    assert_eq!(shortcut_backend(true, true), ShortcutBackend::GnomeSettings);
    assert_eq!(shortcut_backend(true, false), ShortcutBackend::Portal);
}

#[test]
fn the_portal_must_bind_the_shortcut() {
    assert_eq!(find_bound_shortcut(&vec!["x".into(), "record".into()]), Ok(1));
    assert!(matches!(
        find_bound_shortcut(&vec!["x".into()]),
        Err(PlatformError::PermissionDenied(_))
    ));
}

#[test]
fn selects_insertion_backend_for_wayland_x11_and_gnome() {
    assert_eq!(
        select_keyboard_backend(true, false, false, true, false, false),
        Some("wtype")
    );
    assert_eq!(
        select_keyboard_backend(false, true, false, false, false, true),
        Some("xdotool")
    );
    assert_eq!(
        select_keyboard_backend(true, false, true, true, true, false),
        Some("ydotool")
    );
    assert_eq!(
        select_keyboard_backend(true, false, true, true, false, false),
        None
    );
}

#[test]
fn helpers_type_and_copy() {
    let mut session = facts();
    session.x11 = true;
    session.has_xdotool = true;
    session.has_xsel = true;
    assert_eq!(
        type_text_with_helper(session, "hi", 5).unwrap().args,
        vec!["type", "--clearmodifiers", "--delay", "5", "--", "hi"]
    );
    assert_eq!(copy_command(session).unwrap().program, "xsel");
    session.has_xclip = true;
    assert_eq!(
        copy_command(session).unwrap().args,
        vec!["-selection", "clipboard"]
    );
    assert_eq!(
        copy_command(facts()),
        Err(PlatformError::Unsupported("clipboard output"))
    );
    assert!(type_text_with_helper(facts(), "hi", 5).is_err());
    assert_eq!(
        type_text(
            Err(PlatformError::Operation("no device".into())),
            Some(Err(PlatformError::Unsupported("keyboard text insertion")))
        )
        .unwrap_err()
        .message(),
        "platform operation failed: native keyboard injection failed: platform operation failed: \
         no device; helper fallback failed: platform capability is unsupported: keyboard text \
         insertion"
    );
    assert_eq!(type_text(Ok(()), None), Ok(()));
    assert_eq!(
        insertion_route(InsertionMethod::ClipboardOnly),
        Ok(InsertionRoute::Clipboard)
    );
    assert!(insertion_route(InsertionMethod::ClipboardPaste).is_err());
    let able = capabilities(session);
    assert!(able.clipboard && able.focused_target && able.keyboard_injection && able.tray);
    assert!(!able.global_shortcut && !able.autostart);
}

#[test]
fn xwayland_is_limited_to_gnome_wayland_with_an_x_display() {
    assert!(should_force_x11(Some("ubuntu:GNOME"), true, true));
    assert!(!should_force_x11(Some("GNOME"), true, false));
    assert!(!should_force_x11(Some("KDE"), true, true));
    assert!(!should_force_x11(Some("GNOME"), false, true));
}

#[test]
fn the_overlay_is_one_window() {
    let mut markers = OverlayMarkers::new();
    prepare_overlay_creation(&mut markers);
    assert!(markers.window_created());
    assert!(!markers.window_created());
    prepare_overlay_creation(&mut markers);
    assert!(!markers.window_created());
    let before = markers;
    macos::prepare_overlay_creation(&mut markers);
    assert_eq!(markers, before);
}

#[test]
fn parses_mac_command_shortcut() {
    assert_eq!(
        parse_shortcut("Super+Shift+Space").unwrap(),
        MacShortcut {
            modifiers: Modifiers { command: true, shift: true, ..Modifiers::default() },
            key: Key::Space,
        }
    );
    assert_eq!(
        parse_shortcut("ctrl+option+f12").unwrap(),
        MacShortcut {
            modifiers: Modifiers { control: true, option: true, ..Modifiers::default() },
            key: Key::F12,
        }
    );
    assert_eq!(parse_shortcut("cmd+q").unwrap().key, Key::KeyQ);
}

#[test]
fn listening_to_keys_needs_permission() {
    assert_eq!(macos::registration("Super+D", true), parse_shortcut("Super+D"));
    assert_eq!(
        macos::registration("Super+D", false),
        Err(PlatformError::PermissionDenied(macos::ACCESSIBILITY_NEEDED.into()))
    );
    assert!(macos::ACCESSIBILITY_NEEDED.contains("Privacy & Security > Accessibility"));
    assert_eq!(
        macos::registration("Super", false),
        Err(PlatformError::Operation("shortcut has no key".into()))
    );
}

#[test]
fn rejects_ambiguous_shortcut() {
    assert!(parse_shortcut("Control+A+B").is_err());
    assert!(parse_shortcut("Super+Shift").is_err());
    assert_eq!(
        parse_shortcut("Super+Ä+B"),
        Err(PlatformError::Operation("unsupported macOS shortcut key: Ä".into()))
    );
}

fn hold(keys: &[Key]) -> HeldKeys {
    let mut held = HeldKeys::new();
    for key in keys {
        assert!(held.press(*key));
    }
    held
}

#[test]
fn matches_only_the_configured_modifier_set() {
    let held = hold(&[Key::MetaLeft, Key::ShiftLeft, Key::KeyA]);
    assert!(matches_modifiers(
        &held,
        Modifiers { command: true, shift: true, ..Modifiers::default() }
    ));
    assert!(!matches_modifiers(
        &held,
        Modifiers { command: true, ..Modifiers::default() }
    ));
}

#[test]
fn a_held_key_activates_once() {
    let binding = Some(parse_shortcut("Super+Space").unwrap());
    let mut held = HeldKeys::new();
    assert!(!handle_event(KeyEvent::Press(Key::MetaRight), binding, &mut held));
    assert!(handle_event(KeyEvent::Press(Key::Space), binding, &mut held));
    assert!(!handle_event(KeyEvent::Press(Key::Space), binding, &mut held));
    assert!(!handle_event(KeyEvent::Release(Key::Space), binding, &mut held));
    assert!(handle_event(KeyEvent::Press(Key::Space), binding, &mut held));
    handle_event(KeyEvent::Release(Key::Space), binding, &mut held);
    handle_event(KeyEvent::Press(Key::Other(7)), binding, &mut held);
    handle_event(KeyEvent::Press(Key::Alt), binding, &mut held);
    assert!(!handle_event(KeyEvent::Press(Key::Space), binding, &mut held));
    assert!(!handle_event(KeyEvent::Other, None, &mut held));
    assert!(held.contains(Key::Other(7)));
}

#[test]
fn identifies_common_terminal_applications() {
    assert!(macos::is_terminal_application("Terminal"));
    assert!(macos::is_terminal_application("iTerm2"));
    assert!(!macos::is_terminal_application("Safari"));
}

#[test]
fn system_events_are_read() {
    let target = macos::query_focused_target("431\r\nTerminal\r\nbash").unwrap();
    assert_eq!(target.window_id.as_deref(), Some("macos:431"));
    assert_eq!(target.application_id.as_deref(), Some("Terminal"));
    assert_eq!(target.title.as_deref(), Some("bash"));
    assert!(target.is_terminal);
    let bare = macos::query_focused_target("7").unwrap();
    assert_eq!(bare.application_id, None);
    assert!(macos::query_focused_target("x\nSafari").is_err());
    let script = macos::refocus_script(&target.window_id).unwrap().unwrap();
    assert!(script.ends_with("whose unix id is 431) to true"));
    assert_eq!(macos::refocus_script(&None), Ok(None));
    assert_eq!(
        macos::refocus_script(&Some("macos:99999999999".into())),
        Err(PlatformError::Operation("number too large to fit in target type".into()))
    );
    assert!(macos::refocus_script(&Some("x11:1".into())).is_err());
    assert!(matches!(
        macos::osascript_error(" Not authorized to send events\n"),
        PlatformError::PermissionDenied(_)
    ));
    assert!(matches!(macos::osascript_error("boom"), PlatformError::Operation(_)));
}

#[test]
fn mac_insertion_has_steps() {
    assert_eq!(
        macos::insert_text(InsertionMethod::ClipboardPaste, 2),
        vec![InsertionStep::Copy, InsertionStep::PressPaste]
    );
    assert_eq!(
        macos::insert_text(InsertionMethod::Keyboard, 2),
        vec![InsertionStep::Type, InsertionStep::Wait { ms: 2 }]
    );
    assert_eq!(
        macos::insert_text(InsertionMethod::Keyboard, 0),
        vec![InsertionStep::Type]
    );
    assert!(!macos::capabilities(false, true).keyboard_injection);
}
