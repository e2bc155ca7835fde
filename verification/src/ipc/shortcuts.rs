//! Keyboard shortcuts the page forwards.
use vstd::prelude::*;

use crate::text::{chars_eq, chars_of};

verus! {

/// What a shortcut does.
#[derive(Debug, Clone, Copy, PartialEq, Eq, Structural)]
pub enum ShortcutAction {
    NewWindow,
    CloseWindow,
    Reload,
    Devtools,
    ZoomIn,
    ZoomOut,
    ZoomReset,
    /// Not a known shortcut: only reported.
    Unknown,
}

/// The action named by a shortcut.
pub open spec fn action_named(name: Seq<char>) -> ShortcutAction {
    if name == "new_window"@ {
        ShortcutAction::NewWindow
    } else if name == "close_window"@ {
        ShortcutAction::CloseWindow
    } else if name == "reload"@ {
        ShortcutAction::Reload
    } else if name == "devtools"@ {
        ShortcutAction::Devtools
    } else if name == "zoom_in"@ {
        ShortcutAction::ZoomIn
    } else if name == "zoom_out"@ {
        ShortcutAction::ZoomOut
    } else if name == "zoom_reset"@ {
        ShortcutAction::ZoomReset
    } else {
        ShortcutAction::Unknown
    }
}

/// The action of the shortcut named `action`.
pub fn shortcut_action(action: &str) -> (a: ShortcutAction)
    ensures
        a == action_named(action@),
{
    let c = chars_of(action);
    if chars_eq(&c, &chars_of("new_window")) {
        ShortcutAction::NewWindow
    } else if chars_eq(&c, &chars_of("close_window")) {
        ShortcutAction::CloseWindow
    } else if chars_eq(&c, &chars_of("reload")) {
        ShortcutAction::Reload
    } else if chars_eq(&c, &chars_of("devtools")) {
        ShortcutAction::Devtools
    } else if chars_eq(&c, &chars_of("zoom_in")) {
        ShortcutAction::ZoomIn
    } else if chars_eq(&c, &chars_of("zoom_out")) {
        ShortcutAction::ZoomOut
    } else if chars_eq(&c, &chars_of("zoom_reset")) {
        ShortcutAction::ZoomReset
    } else {
        ShortcutAction::Unknown
    }
}

/// The script an action runs in the active window, if it runs one: a reload,
/// or a change of the page zoom (between 0.5 and 2, in steps of 0.1).
pub open spec fn action_script(a: ShortcutAction) -> Option<Seq<char>> {
    match a {
        ShortcutAction::Reload => Some("location.reload();"@),
        ShortcutAction::ZoomIn => Some(
            "document.body.style.zoom = Math.min(2.0, parseFloat(document.body.style.zoom||'1') + 0.1);"@,
        ),
        ShortcutAction::ZoomOut => Some(
            "document.body.style.zoom = Math.max(0.5, parseFloat(document.body.style.zoom||'1') - 0.1);"@,
        ),
        ShortcutAction::ZoomReset => Some("document.body.style.zoom = 1.0;"@),
        _ => None,
    }
}

/// The script a shortcut runs in the active window, if any.
pub fn shortcut_script(a: ShortcutAction) -> (r: Option<&'static str>)
    ensures
        match r {
            Some(s) => action_script(a) == Some(s@),
            None => action_script(a) is None,
        },
{
    match a {
        ShortcutAction::Reload => Some("location.reload();"),
        ShortcutAction::ZoomIn => Some(
            "document.body.style.zoom = Math.min(2.0, parseFloat(document.body.style.zoom||'1') + 0.1);",
        ),
        ShortcutAction::ZoomOut => Some(
            "document.body.style.zoom = Math.max(0.5, parseFloat(document.body.style.zoom||'1') - 0.1);",
        ),
        ShortcutAction::ZoomReset => Some("document.body.style.zoom = 1.0;"),
        _ => None,
    }
}

} // verus!
