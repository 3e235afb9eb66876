//! The overlay's native window.

use vstd::prelude::*;

use crate::split::{contains, contains_text};
use crate::storage::opt_str_view;
use crate::text::{ascii_lowered, to_ascii_lowercase};

verus! {

/// What is remembered while native windows are created.
#[derive(Clone, Copy, PartialEq, Eq, Structural, Debug)]
pub struct OverlayMarkers {
    pub next_window_is_overlay: bool,
    pub overlay_window_created: bool,
}

impl OverlayMarkers {
    /// No window has been created.
    pub fn new() -> (result: Self)
        ensures
            !result.next_window_is_overlay,
            !result.overlay_window_created,
    {
        Self { next_window_is_overlay: false, overlay_window_created: false }
    }

    /// Takes note of a new window and says whether it is the overlay: the one that was
    /// announced, and no other.
    pub fn window_created(&mut self) -> (is_overlay: bool)
        ensures
            is_overlay == old(self).next_window_is_overlay,
            *final(self) == (OverlayMarkers {
                next_window_is_overlay: false,
                overlay_window_created: old(self).overlay_window_created || is_overlay,
            }),
            *final(self) == after_window(*old(self)),
    {
        let is_overlay = self.next_window_is_overlay;
        self.next_window_is_overlay = false;
        if is_overlay {
            self.overlay_window_created = true;
        }
        is_overlay
    }
}

/// The markers once the overlay is announced.
pub open spec fn announced(markers: OverlayMarkers) -> OverlayMarkers {
    if markers.overlay_window_created {
        markers
    } else {
        OverlayMarkers { next_window_is_overlay: true, ..markers }
    }
}

/// The markers once a window is there.
pub open spec fn after_window(markers: OverlayMarkers) -> OverlayMarkers {
    OverlayMarkers {
        next_window_is_overlay: false,
        overlay_window_created: markers.overlay_window_created || markers.next_window_is_overlay,
    }
}

/// The overlay is the first window after it was announced: no window before that, and none
/// behind it, however often it is announced again.
pub proof fn the_announced_window_is_the_overlay(fresh: OverlayMarkers)
    requires
        !fresh.next_window_is_overlay,
        !fresh.overlay_window_created,
    ensures
        after_window(fresh) == fresh,
        announced(fresh).next_window_is_overlay,
        ({
            let shown = after_window(announced(fresh));
            &&& shown.overlay_window_created
            &&& !shown.next_window_is_overlay
            &&& announced(shown) == shown
            &&& after_window(announced(shown)) == shown
        }),
{
}

/// Announces that the next window is the overlay, unless the overlay has its window.
pub fn prepare_overlay_creation(markers: &mut OverlayMarkers)
    ensures
        *final(markers) == (OverlayMarkers {
            next_window_is_overlay: old(markers).next_window_is_overlay || !old(
                markers,
            ).overlay_window_created,
            ..*old(markers)
        }),
        *final(markers) == announced(*old(markers)),
{
    if !markers.overlay_window_created {
        markers.next_window_is_overlay = true;
    }
}

/// The desktop's name holds `gnome`, in whatever case.
pub open spec fn is_gnome(desktop: Option<Seq<char>>) -> bool {
    desktop is Some && contains_text(ascii_lowered(desktop->0), "gnome"@)
}

/// Whether the desktop is GNOME.
pub fn is_gnome_session(desktop: Option<&str>) -> (result: bool)
    ensures
        result == is_gnome(opt_str_view(desktop)),
{
    match desktop {
        Some(desktop) => contains(to_ascii_lowercase(desktop).as_str(), "gnome"),
        None => false,
    }
}

/// Whether windows go through X11: on GNOME under Wayland, where an X display is there.
pub fn should_force_x11(desktop: Option<&str>, wayland: bool, x11: bool) -> (result: bool)
    ensures
        result == (wayland && x11 && is_gnome(opt_str_view(desktop))),
{
    wayland && x11 && is_gnome_session(desktop)
}

/// Of all windows created, the overlay is exactly one: once it has its window, announcing
/// it again changes nothing.
pub proof fn the_overlay_is_created_once(markers: OverlayMarkers)
    requires
        markers.overlay_window_created,
        !markers.next_window_is_overlay,
    ensures
        (OverlayMarkers {
            next_window_is_overlay: markers.next_window_is_overlay
                || !markers.overlay_window_created,
            ..markers
        }) == markers,
{
}

/// A session is GNOME's where its desktop is named after GNOME, in whatever case and with
/// whatever stands around it; a session without a desktop is not.
pub proof fn gnome_is_known_in_any_case(before: Seq<char>, name: Seq<char>, behind: Seq<char>)
    requires
        ascii_lowered(name) == "gnome"@,
    ensures
        is_gnome(Some(before + name + behind)),
        !is_gnome(None),
{
    let s = ascii_lowered(before + name + behind);
    let at = before.len() as int;
    assert(s.subrange(at, at + "gnome"@.len()) =~= "gnome"@) by {
        assert(name.len() == ascii_lowered(name).len());
        assert forall|i: int| 0 <= i < name.len() implies s.subrange(at, at + name.len())[i]
            == #[trigger] "gnome"@[i] by {
            assert(ascii_lowered(name)[i] == "gnome"@[i]);
            assert((before + name + behind)[at + i] == name[i]);
        }
    }
    assert(name.len() == ascii_lowered(name).len());
    assert(crate::split::occurs_at(s, "gnome"@, at));
}

} // verus!
