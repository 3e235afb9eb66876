//! What the desktop offers, whatever desktop it is.

use vstd::prelude::*;
use vstd::string::*;

use crate::text::copy_opt;

verus! {

broadcast use vstd::string::group_string_axioms;

#[derive(Clone, Copy, PartialEq, Eq, Structural, Debug)]
pub struct PlatformCapabilities {
    pub global_shortcut: bool,
    pub focused_target: bool,
    pub keyboard_injection: bool,
    pub clipboard: bool,
    pub tray: bool,
    pub autostart: bool,
}

/// The window that has the focus.
#[derive(PartialEq, Eq, Debug)]
pub struct FocusedTarget {
    pub window_id: Option<String>,
    pub application_id: Option<String>,
    pub title: Option<String>,
    pub is_terminal: bool,
}

impl Clone for FocusedTarget {
    fn clone(&self) -> (result: Self)
        ensures
            result == *self,
    {
        Self {
            window_id: copy_opt(&self.window_id),
            application_id: copy_opt(&self.application_id),
            title: copy_opt(&self.title),
            is_terminal: self.is_terminal,
        }
    }
}

#[derive(Clone, Copy, PartialEq, Eq, Structural, Debug)]
pub enum InsertionMethod {
    Keyboard,
    ClipboardPaste,
    ClipboardOnly,
}

#[derive(Clone, Copy, PartialEq, Eq, Structural, Debug)]
pub struct InsertionResult {
    pub method: InsertionMethod,
}

#[derive(Clone, PartialEq, Eq, Debug)]
pub enum PlatformError {
    Unsupported(&'static str),
    PermissionDenied(String),
    Operation(String),
}

/// What a platform error says to a reader.
pub open spec fn platform_error_text(error: PlatformError) -> Seq<char> {
    match error {
        PlatformError::Unsupported(what) => "platform capability is unsupported: "@ + what@,
        PlatformError::PermissionDenied(reason) => "platform permission was denied: "@ + reason@,
        PlatformError::Operation(reason) => "platform operation failed: "@ + reason@,
    }
}

impl PlatformError {
    /// What the error says to a reader.
    pub fn message(&self) -> (result: String)
        ensures
            result@ == platform_error_text(*self),
    {
        match self {
            PlatformError::Unsupported(what) => {
                let mut text = String::from_str("platform capability is unsupported: ");
                text.append(what);
                text
            },
            PlatformError::PermissionDenied(reason) => {
                let mut text = String::from_str("platform permission was denied: ");
                text.append(reason.as_str());
                text
            },
            PlatformError::Operation(reason) => {
                let mut text = String::from_str("platform operation failed: ");
                text.append(reason.as_str());
                text
            },
        }
    }
}

#[derive(Clone, Copy, PartialEq, Eq, Structural, Debug)]
pub enum TrayStatus {
    Idle,
    Recording,
    Processing,
    Error,
}

#[derive(Clone, Copy, PartialEq, Eq, Structural, Debug)]
pub enum TrayAction {
    OpenSettings,
    StartRecording,
    StopRecording,
    QuitGui,
}

} // verus!
