//! Decisions about the main window and the system tray.
use vstd::prelude::*;
use crate::text::str_eq;

verus! {

/// What closing the main window does: hide it in the tray when the settings
/// say so, or when no settings are loaded yet.
pub fn hides_on_close(minimize_to_tray: Option<bool>) -> (r: bool)
    ensures
        r == match minimize_to_tray {
            Some(b) => b,
            None => true,
        },
{
    match minimize_to_tray {
        Some(b) => b,
        None => true,
    }
}

/// What an item of the tray menu does.
#[derive(Debug, Clone, PartialEq)]
pub enum TrayAction {
    /// Bring the main window to the front.
    Show,
    /// Quit the app.
    Quit,
    /// Nothing.
    Ignore,
}

/// What the tray menu item with id `id` does: `show` opens the window and
/// `quit` quits; any other id does nothing.
pub fn tray_action(id: &str) -> (r: TrayAction)
    ensures
        id@ == "show"@ ==> r is Show,
        id@ == "quit"@ ==> r is Quit,
        id@ != "show"@ && id@ != "quit"@ ==> r is Ignore,
{
    proof {
        reveal_strlit("show");
        reveal_strlit("quit");
        assert("show"@[0] != "quit"@[0]);
    }
    if str_eq(id, "show") {
        TrayAction::Show
    } else if str_eq(id, "quit") {
        TrayAction::Quit
    } else {
        TrayAction::Ignore
    }
}

} // verus!
