//! Decisions of the shell around the recorder: global hotkey events, the
//! tray menu and icon, and the outcome of pasting.

use vstd::prelude::*;
use crate::text::same_text;

verus! {

/// Phase of the push-to-talk hotkey.
pub enum KeyPhase {
    Pressed,
    Released,
}

/// The event sent to the window for a hotkey phase.
pub open spec fn ptt_event_of(phase: KeyPhase) -> Seq<char> {
    match phase {
        KeyPhase::Pressed => "ptt-pressed"@,
        KeyPhase::Released => "ptt-released"@,
    }
}

/// The event sent to the window for a hotkey phase.
pub fn ptt_event(phase: KeyPhase) -> (name: String)
    ensures
        name@ == ptt_event_of(phase),
{
    match phase {
        KeyPhase::Pressed => "ptt-pressed".to_owned(),
        KeyPhase::Released => "ptt-released".to_owned(),
    }
}

/// What a tray menu item does.
pub enum MenuAction {
    /// Show and focus the main window.
    ShowMain,
    /// Quit the application.
    Quit,
    /// Nothing.
    Ignore,
}

/// The action of the tray menu item with id `id`.
pub fn menu_action(id: &str) -> (a: MenuAction)
    ensures
        id@ == "show"@ ==> a matches MenuAction::ShowMain,
        id@ == "quit"@ ==> a matches MenuAction::Quit,
        id@ != "show"@ && id@ != "quit"@ ==> a matches MenuAction::Ignore,
{
    proof {
        reveal_strlit("show");
        reveal_strlit("quit");
        assert("show"@[0] != "quit"@[0]);
    }
    if same_text(id, "show") {
        MenuAction::ShowMain
    } else if same_text(id, "quit") {
        MenuAction::Quit
    } else {
        MenuAction::Ignore
    }
}

/// A click on the tray icon brings up the main window when it is a release
/// of the left button.
pub fn tray_click_shows_main(left_button: bool, button_released: bool) -> (show: bool)
    ensures
        show == (left_button && button_released),
{
    left_button && button_released
}

/// What pasting achieved: `pasted` when the paste keystroke was delivered,
/// else `copied`, the text being on the clipboard either way.
pub fn paste_outcome(keystroke_delivered: bool) -> (outcome: String)
    ensures
        outcome@ == if keystroke_delivered { "pasted"@ } else { "copied"@ },
{
    if keystroke_delivered {
        "pasted".to_owned()
    } else {
        "copied".to_owned()
    }
}

} // verus!
