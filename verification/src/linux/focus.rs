//! Finding the window that has the focus and giving it back.

use vstd::prelude::*;
use vstd::string::*;

use crate::decimal::{decimal, digits, signed_decimal, signed_digits};
use crate::json::{
    flag_at, json_document, read_json, signed_at, text_at, text_below, Json,
};
use crate::linux::output::{command, runs, CommandLine, SessionFacts};
use crate::linux::terminal::{is_terminal_application, names_terminal};
use crate::platform::{FocusedTarget, PlatformError};
use crate::split::{cut_once, split_once};
use crate::text::{blank, is_blank, opt_view, same_text, trim, trimmed, views};

verus! {

broadcast use vstd::string::group_string_axioms;

/// Who is asked for the focused window.
#[derive(Clone, Copy, PartialEq, Eq, Structural, Debug)]
pub enum FocusQuery {
    Hyprland,
    Niri,
    Sway,
    X11,
}

/// Who is asked for the focused window in a session.
pub open spec fn query_for(facts: SessionFacts) -> Option<FocusQuery> {
    if facts.hyprland && facts.has_hyprctl {
        Some(FocusQuery::Hyprland)
    } else if facts.niri && facts.has_niri {
        Some(FocusQuery::Niri)
    } else if facts.sway && facts.has_swaymsg {
        Some(FocusQuery::Sway)
    } else if facts.x11 && facts.has_xdotool {
        Some(FocusQuery::X11)
    } else {
        None
    }
}

/// Decides who is asked for the focused window.
pub fn query_focused_target(facts: SessionFacts) -> (result: Result<FocusQuery, PlatformError>)
    ensures
        match result {
            Ok(query) => query_for(facts) == Some(query),
            Err(PlatformError::Unsupported(what)) => query_for(facts) is None && what@
                == "focused window tracking"@,
            Err(_) => false,
        },
{
    if facts.hyprland && facts.has_hyprctl {
        Ok(FocusQuery::Hyprland)
    } else if facts.niri && facts.has_niri {
        Ok(FocusQuery::Niri)
    } else if facts.sway && facts.has_swaymsg {
        Ok(FocusQuery::Sway)
    } else if facts.x11 && facts.has_xdotool {
        Ok(FocusQuery::X11)
    } else {
        Err(PlatformError::Unsupported("focused window tracking"))
    }
}

/// The command that asks for the focused window.
pub fn query_command(query: FocusQuery) -> (result: CommandLine)
    ensures
        match query {
            FocusQuery::Hyprland => runs(result, "hyprctl"@, seq!["activewindow"@, "-j"@]),
            FocusQuery::Niri => runs(result, "niri"@, seq!["msg"@, "--json"@, "focused-window"@]),
            FocusQuery::Sway => runs(result, "swaymsg"@, seq!["-t"@, "get_tree"@, "-r"@]),
            FocusQuery::X11 => runs(result, "xdotool"@, seq!["getactivewindow"@]),
        },
{
    match query {
        FocusQuery::Hyprland => {
            let line = command("hyprctl").arg("activewindow").arg("-j");
            assert(views(line.args@) =~= seq!["activewindow"@, "-j"@]);
            line
        },
        FocusQuery::Niri => {
            let line = command("niri").arg("msg").arg("--json").arg("focused-window");
            assert(views(line.args@) =~= seq!["msg"@, "--json"@, "focused-window"@]);
            line
        },
        FocusQuery::Sway => {
            let line = command("swaymsg").arg("-t").arg("get_tree").arg("-r");
            assert(views(line.args@) =~= seq!["-t"@, "get_tree"@, "-r"@]);
            line
        },
        FocusQuery::X11 => {
            let line = command("xdotool").arg("getactivewindow");
            assert(views(line.args@) =~= seq!["getactivewindow"@]);
            line
        },
    }
}

/// A text that holds anything.
pub open spec fn filled(value: String) -> Option<String> {
    if is_blank(value@) {
        None
    } else {
        Some(value)
    }
}

fn nonempty(value: String) -> (result: Option<String>)
    ensures
        result == filled(value),
{
    if blank(value.as_str()) {
        None
    } else {
        Some(value)
    }
}

/// The focused window with these names; a terminal is told by the application's identifier.
pub open spec fn is_target(
    target: FocusedTarget,
    window_id: Seq<char>,
    application_id: Option<Seq<char>>,
    title: Option<Seq<char>>,
) -> bool {
    &&& target.window_id matches Some(id) && id@ == window_id
    &&& opt_view(target.application_id) == application_id
    &&& opt_view(target.title) == title
    &&& target.is_terminal == (application_id is Some && names_terminal(application_id->0))
}

/// The focused window with these names.
pub fn target(window_id: String, application_id: Option<String>, title: Option<String>) -> (result:
    FocusedTarget)
    ensures
        is_target(result, window_id@, opt_view(application_id), opt_view(title)),
{
    let is_terminal = match &application_id {
        Some(id) => is_terminal_application(id.as_str()),
        None => false,
    };
    FocusedTarget { window_id: Some(window_id), application_id, title, is_terminal }
}

/// The focused window as Hyprland reports it.
#[derive(PartialEq, Eq, Debug)]
pub struct HyprWindow {
    pub address: String,
    pub class: String,
    pub title: String,
}

/// The focused window as Hyprland reports it.
pub fn hyprland_target(window: HyprWindow) -> (result: FocusedTarget)
    ensures
        is_target(
            result,
            "hypr:"@ + window.address@,
            opt_view(filled(window.class)),
            opt_view(filled(window.title)),
        ),
{
    let mut id = String::from_str("hypr:");
    id.append(window.address.as_str());
    target(id, nonempty(window.class), nonempty(window.title))
}

/// The focused window as niri reports it.
#[derive(PartialEq, Eq, Debug)]
pub struct NiriWindow {
    pub id: u64,
    pub app_id: Option<String>,
    pub title: Option<String>,
}

/// An optional text that holds anything.
pub open spec fn filled_opt(value: Option<String>) -> Option<String> {
    match value {
        Some(s) => filled(s),
        None => None,
    }
}

fn nonempty_opt(value: Option<String>) -> (result: Option<String>)
    ensures
        result == filled_opt(value),
{
    match value {
        Some(s) => nonempty(s),
        None => None,
    }
}

/// The focused window as niri reports it.
pub fn niri_target(window: NiriWindow) -> (result: FocusedTarget)
    ensures
        is_target(
            result,
            "niri:"@ + digits(window.id as nat),
            opt_view(filled_opt(window.app_id)),
            opt_view(filled_opt(window.title)),
        ),
{
    let mut id = String::from_str("niri:");
    id.append(decimal(window.id).as_str());
    target(id, nonempty_opt(window.app_id), nonempty_opt(window.title))
}

/// The first focused node in or below a node of Sway's tree: the node itself, then its tiled
/// and then its floating children, each with what is below it.
pub open spec fn focused_node(node: Json) -> Option<Json>
    decreases node,
{
    if flag_at(node, "focused"@) == Some(true) {
        Some(node)
    } else {
        match node {
            Json::Object(members) => match focused_below(members@, "nodes"@) {
                Some(found) => Some(found),
                None => focused_below(members@, "floating_nodes"@),
            },
            _ => None,
        }
    }
}

/// The first focused node in or below the list that stands under a name.
pub open spec fn focused_below(members: Seq<(String, Json)>, key: Seq<char>) -> Option<Json>
    decreases members,
{
    if members.len() == 0 {
        None
    } else if members[0].0@ == key {
        match members[0].1 {
            Json::List(items) => focused_in(items@),
            _ => None,
        }
    } else {
        focused_below(members.drop_first(), key)
    }
}

/// The first focused node in or below the nodes of a list.
pub open spec fn focused_in(nodes: Seq<Json>) -> Option<Json>
    decreases nodes,
{
    if nodes.len() == 0 {
        None
    } else {
        match focused_node(nodes[0]) {
            Some(found) => Some(found),
            None => focused_in(nodes.drop_first()),
        }
    }
}

/// The first focused node in or below a node of Sway's tree.
pub fn find_focused(node: &Json) -> (result: Option<&Json>)
    ensures
        match result {
            Some(found) => focused_node(*node) == Some(*found),
            None => focused_node(*node) is None,
        },
    decreases node,
{
    if let Some(true) = node.flag_at("focused") {
        return Some(node);
    }
    match node {
        Json::Object(members) => match find_focused_below(members, "nodes") {
            Some(found) => Some(found),
            None => find_focused_below(members, "floating_nodes"),
        },
        _ => None,
    }
}

fn find_focused_below<'a>(members: &'a Vec<(String, Json)>, key: &str) -> (result: Option<&'a Json>)
    ensures
        match result {
            Some(found) => focused_below(members@, key@) == Some(*found),
            None => focused_below(members@, key@) is None,
        },
    decreases members,
{
    let mut i: usize = 0;
    assert(members@.skip(0) =~= members@);
    while i < members.len()
        invariant
            i <= members@.len(),
            focused_below(members@, key@) == focused_below(members@.skip(i as int), key@),
        decreases members@.len() - i,
    {
        assert(members@.skip(i as int)[0] == members@[i as int]);
        assert(members@.skip(i as int).drop_first() =~= members@.skip(i + 1));
        if same_text(members[i].0.as_str(), key) {
            assert(decreases_to!(members => members[i as int]));
            return match &members[i].1 {
                Json::List(items) => find_focused_in(items),
                _ => None,
            };
        }
        i += 1;
    }
    None
}

fn find_focused_in(nodes: &Vec<Json>) -> (result: Option<&Json>)
    ensures
        match result {
            Some(found) => focused_in(nodes@) == Some(*found),
            None => focused_in(nodes@) is None,
        },
    decreases nodes,
{
    let mut i: usize = 0;
    assert(nodes@.skip(0) =~= nodes@);
    while i < nodes.len()
        invariant
            i <= nodes@.len(),
            focused_in(nodes@) == focused_in(nodes@.skip(i as int)),
        decreases nodes@.len() - i,
    {
        assert(nodes@.skip(i as int)[0] == nodes@[i as int]);
        assert(nodes@.skip(i as int).drop_first() =~= nodes@.skip(i + 1));
        assert(decreases_to!(nodes => nodes[i as int]));
        if let Some(found) = find_focused(&nodes[i]) {
            return Some(found);
        }
        i += 1;
    }
    None
}

/// The application that a node of Sway's tree belongs to: its identifier, where it holds
/// anything, or else the class or the instance among its window's properties.
pub open spec fn node_application(node: Json) -> Option<Seq<char>> {
    let id = text_at(node, "app_id"@);
    let class = text_below(node, "window_properties"@, "class"@);
    if id is Some && !is_blank(id->0) {
        id
    } else if class is Some {
        class
    } else {
        text_below(node, "window_properties"@, "instance"@)
    }
}

/// What the focused window in Sway's tree is.
pub open spec fn sway_answer(tree: Json, result: Result<FocusedTarget, PlatformError>) -> bool {
    match focused_node(tree) {
        None => result matches Err(PlatformError::Operation(reason)) && reason@
            == "Sway reported no focused window"@,
        Some(node) => match signed_at(node, "id"@) {
            None => result matches Err(PlatformError::Operation(reason)) && reason@
                == "focused Sway node has no id"@,
            Some(id) => result matches Ok(found) && is_target(
                found,
                "sway:"@ + signed_digits(id as int),
                node_application(node),
                text_at(node, "name"@),
            ),
        },
    }
}

/// The focused window in Sway's tree.
pub fn sway_target(tree: &Json) -> (result: Result<FocusedTarget, PlatformError>)
    ensures
        sway_answer(*tree, result),
{
    let node = match find_focused(tree) {
        Some(node) => node,
        None => {
            return Err(
                PlatformError::Operation(String::from_str("Sway reported no focused window")),
            );
        },
    };
    let id: i64 = match node.signed_at("id") {
        Some(id) => id,
        None => {
            return Err(
                PlatformError::Operation(String::from_str("focused Sway node has no id")),
            );
        },
    };
    let application = match nonempty_opt(node.text_at("app_id")) {
        Some(app_id) => Some(app_id),
        None => match node.text_below("window_properties", "class") {
            Some(class) => Some(class),
            None => node.text_below("window_properties", "instance"),
        },
    };
    let mut window_id = String::from_str("sway:");
    window_id.append(signed_decimal(id).as_str());
    Ok(target(window_id, application, node.text_at("name")))
}

/// The focused window in what Sway reports of its tree.
pub fn sway_target_from(output: &[u8]) -> (result: Result<FocusedTarget, PlatformError>)
    ensures
        match json_document(output@) {
            Err(reason) => result matches Err(PlatformError::Operation(given)) && given@ == reason,
            Ok(tree) => sway_answer(tree, result),
        },
{
    match read_json(output) {
        Ok(tree) => sway_target(&tree),
        Err(reason) => Err(PlatformError::Operation(reason)),
    }
}

/// The commands that ask xdotool for the class and the title of the window that it reported.
pub fn x11_detail_commands(id: &str) -> (result: (CommandLine, CommandLine))
    ensures
        runs(result.0, "xdotool"@, seq!["getwindowclassname"@, trimmed(id@)]),
        runs(result.1, "xdotool"@, seq!["getwindowname"@, trimmed(id@)]),
{
    let window = trim(id);
    let class = command("xdotool").arg("getwindowclassname").arg(window.as_str());
    assert(views(class.args@) =~= seq!["getwindowclassname"@, trimmed(id@)]);
    let title = command("xdotool").arg("getwindowname").arg(window.as_str());
    assert(views(title.args@) =~= seq!["getwindowname"@, trimmed(id@)]);
    (class, title)
}

/// The focused window as xdotool reports it.
pub fn x11_target(id: &str, class: &str, title: &str) -> (result: FocusedTarget)
    ensures
        is_target(
            result,
            "x11:"@ + trimmed(id@),
            if is_blank(trimmed(class@)) {
                None
            } else {
                Some(trimmed(class@))
            },
            if is_blank(trimmed(title@)) {
                None
            } else {
                Some(trimmed(title@))
            },
        ),
{
    let mut window_id = String::from_str("x11:");
    window_id.append(trim(id).as_str());
    target(window_id, nonempty(trim(class)), nonempty(trim(title)))
}

/// The command that gives a window the focus back.
pub open spec fn refocuses(line: CommandLine, backend: Seq<char>, id: Seq<char>) -> bool {
    ||| backend == "hypr"@ && runs(
        line,
        "hyprctl"@,
        seq!["dispatch"@, "focuswindow"@, "address:"@ + id],
    )
    ||| backend == "niri"@ && runs(
        line,
        "niri"@,
        seq!["msg"@, "action"@, "focus-window"@, "--id"@, id],
    )
    ||| backend == "sway"@ && runs(line, "swaymsg"@, seq!["[con_id="@ + id + "]"@, "focus"@])
    ||| backend == "x11"@ && runs(line, "xdotool"@, seq!["windowactivate"@, "--sync"@, id])
}

/// The backends that can give the focus back.
pub open spec fn known_backend(backend: Seq<char>) -> bool {
    backend == "hypr"@ || backend == "niri"@ || backend == "sway"@ || backend == "x11"@
}

/// The command that gives a window the focus back, by the identifier under which it was
/// found.
pub fn refocus_target(id: &str) -> (result: Result<CommandLine, PlatformError>)
    ensures
        match cut_once(id@, ':') {
            None => result matches Err(PlatformError::Operation(reason)) && reason@
                == "invalid focused window id"@,
            Some((backend, window)) => match result {
                Ok(line) => refocuses(line, backend, window),
                Err(PlatformError::Operation(reason)) => !known_backend(backend) && reason@
                    == "unknown focused window backend"@,
                Err(_) => false,
            },
        },
{
    let (backend, window) = match split_once(id, ':') {
        Some(parts) => parts,
        None => {
            return Err(PlatformError::Operation(String::from_str("invalid focused window id")));
        },
    };
    let window = window.as_str();
    let backend = backend.as_str();
    if same_text(backend, "hypr") {
        let mut address = String::from_str("address:");
        address.append(window);
        let line = command("hyprctl").arg("dispatch").arg("focuswindow").arg(address.as_str());
        assert(views(line.args@) =~= seq!["dispatch"@, "focuswindow"@, "address:"@ + window@]);
        return Ok(line);
    }
    if same_text(backend, "niri") {
        let line = command("niri").arg("msg").arg("action").arg("focus-window").arg("--id").arg(
            window,
        );
        assert(views(line.args@) =~= seq!["msg"@, "action"@, "focus-window"@, "--id"@, window@]);
        return Ok(line);
    }
    if same_text(backend, "sway") {
        let mut criteria = String::from_str("[con_id=");
        criteria.append(window);
        criteria.append("]");
        let line = command("swaymsg").arg(criteria.as_str()).arg("focus");
        assert(views(line.args@) =~= seq!["[con_id="@ + window@ + "]"@, "focus"@]);
        return Ok(line);
    }
    if same_text(backend, "x11") {
        let line = command("xdotool").arg("windowactivate").arg("--sync").arg(window);
        assert(views(line.args@) =~= seq!["windowactivate"@, "--sync"@, window@]);
        return Ok(line);
    }
    Err(PlatformError::Operation(String::from_str("unknown focused window backend")))
}

proof fn cut_after_plain(front: Seq<char>, back: Seq<char>, d: char)
    requires
        forall|i: int| 0 <= i < front.len() ==> #[trigger] front[i] != d,
    ensures
        cut_once(front.push(d) + back, d) == Some((front, back)),
    decreases front.len(),
{
    let whole = front.push(d) + back;
    if front.len() == 0 {
        assert(whole[0] == d);
        assert(whole.drop_first() =~= back);
        assert(front =~= Seq::empty());
    } else {
        assert(whole[0] == front[0]);
        let rest = front.drop_first();
        assert forall|i: int| 0 <= i < rest.len() implies #[trigger] rest[i] != d by {
            assert(front[i + 1] != d);
        }
        cut_after_plain(rest, back, d);
        assert(whole.drop_first() =~= rest.push(d) + back);
        assert(seq![front[0]] + rest =~= front);
    }
}

/// A window found on any desktop can be given the focus back: its identifier names the
/// backend that found it and the window there.
pub proof fn windows_found_can_be_refocused(id: Seq<char>)
    ensures
        cut_once("hypr:"@ + id, ':') == Some(("hypr"@, id)),
        cut_once("niri:"@ + id, ':') == Some(("niri"@, id)),
        cut_once("sway:"@ + id, ':') == Some(("sway"@, id)),
        cut_once("x11:"@ + id, ':') == Some(("x11"@, id)),
        known_backend("hypr"@) && known_backend("niri"@) && known_backend("sway"@)
            && known_backend("x11"@),
{
    reveal_strlit("hypr:");
    reveal_strlit("niri:");
    reveal_strlit("sway:");
    reveal_strlit("x11:");
    reveal_strlit("hypr");
    reveal_strlit("niri");
    reveal_strlit("sway");
    reveal_strlit("x11");
    assert("hypr"@.push(':') =~= "hypr:"@);
    assert("niri"@.push(':') =~= "niri:"@);
    assert("sway"@.push(':') =~= "sway:"@);
    assert("x11"@.push(':') =~= "x11:"@);
    cut_after_plain("hypr"@, id, ':');
    cut_after_plain("niri"@, id, ':');
    cut_after_plain("sway"@, id, ':');
    cut_after_plain("x11"@, id, ':');
}

/// The focused window is asked of the compositor that runs, else of X11.
pub proof fn the_running_desktop_is_asked(facts: SessionFacts)
    ensures
        query_for(facts) == Some(FocusQuery::Hyprland) <==> facts.hyprland && facts.has_hyprctl,
        query_for(facts) == Some(FocusQuery::Niri) <==> facts.niri && facts.has_niri && !(
        facts.hyprland && facts.has_hyprctl),
        query_for(facts) == Some(FocusQuery::Sway) <==> facts.sway && facts.has_swaymsg && !(
        facts.niri && facts.has_niri) && !(facts.hyprland && facts.has_hyprctl),
        query_for(facts) == Some(FocusQuery::X11) <==> facts.x11 && facts.has_xdotool && !(
        facts.sway && facts.has_swaymsg) && !(facts.niri && facts.has_niri) && !(facts.hyprland
            && facts.has_hyprctl),
{
}

/// A node that says that it is focused is found, before any below it.
pub proof fn a_focused_node_is_found(node: Json)
    requires
        flag_at(node, "focused"@) == Some(true),
    ensures
        focused_node(node) == Some(node),
{
}

/// Nodes are searched in their order, the first with a focused node in it first.
pub proof fn nodes_are_searched_in_order(front: Seq<Json>, node: Json, back: Seq<Json>)
    ensures
        focused_in(Seq::empty()) is None,
        focused_in(front) is Some ==> focused_in(front + seq![node] + back) == focused_in(front),
        focused_in(front) is None && focused_node(node) is Some ==> focused_in(
            front + seq![node] + back,
        ) == focused_node(node),
        focused_in(front) is None && focused_node(node) is None ==> focused_in(
            front + seq![node] + back,
        ) == focused_in(back),
    decreases front.len(),
{
    let all = front + seq![node] + back;
    if front.len() == 0 {
        assert(all.drop_first() =~= back);
        assert(all[0] == node);
    } else {
        nodes_are_searched_in_order(front.drop_first(), node, back);
        assert(all.drop_first() =~= front.drop_first() + seq![node] + back);
        assert(all[0] == front[0]);
    }
}

/// A node that is not focused itself is searched in its tiled nodes and then in its floating
/// ones; one that has neither is not searched further.
pub proof fn nodes_are_searched_tiled_before_floating(node: Json)
    requires
        flag_at(node, "focused"@) != Some(true),
    ensures
        focused_node(node) == match crate::json::member(node, "nodes"@) {
            Some(Json::List(tiled)) if focused_in(tiled@) is Some => focused_in(tiled@),
            _ => match crate::json::member(node, "floating_nodes"@) {
                Some(Json::List(floating)) => focused_in(floating@),
                _ => None,
            },
        },
{
    match node {
        Json::Object(members) => {
            below_a_key(members@, "nodes"@);
            below_a_key(members@, "floating_nodes"@);
        },
        _ => {},
    }
}

proof fn below_a_key(members: Seq<(String, Json)>, key: Seq<char>)
    ensures
        focused_below(members, key) == match crate::json::member_in(members, key) {
            Some(Json::List(items)) => focused_in(items@),
            _ => None,
        },
    decreases members.len(),
{
    if members.len() > 0 && members[0].0@ != key {
        below_a_key(members.drop_first(), key);
    }
}

/// A window's application is its Wayland name unless that is blank, else its X11 class, else
/// its X11 instance; nothing else of the node counts.
pub proof fn applications_are_named_by_their_desktop(node: Json)
    ensures
        match text_at(node, "app_id"@) {
            Some(id) if !crate::text::all_white_space(id) => node_application(node) == Some(id),
            _ => match text_below(node, "window_properties"@, "class"@) {
                Some(class) => node_application(node) == Some(class),
                None => node_application(node) == text_below(
                    node,
                    "window_properties"@,
                    "instance"@,
                ),
            },
        },
{
    if let Some(id) = text_at(node, "app_id"@) {
        crate::text::blank_means_white_space(id);
    }
}

} // verus!
