//! The board's records and the choices of its tray menu.
use vstd::prelude::*;
use crate::text::same_text;

verus! {

/// A string pinned between two notes.
#[derive(Debug, Clone)]
pub struct ConnData {
    pub id: String,
    pub from_note_id: String,
    pub to_note_id: String,
    pub color: String,
}

/// What a click on a tray menu entry does.
#[derive(Debug, Clone, Copy, PartialEq, Eq)]
pub enum TrayAction {
    /// Show the main window and give it the focus.
    ShowWindow,
    /// Quit the application.
    Quit,
    /// Nothing.
    Nothing,
}

/// The action of the tray menu entry with id `menu_id`: `show` shows the window,
/// `quit` quits, any other entry does nothing.
pub fn tray_action(menu_id: &str) -> (a: TrayAction)
    ensures
        a == if menu_id@ == "show"@ {
            TrayAction::ShowWindow
        } else if menu_id@ == "quit"@ {
            TrayAction::Quit
        } else {
            TrayAction::Nothing
        },
{
    if same_text(menu_id, "show") {
        TrayAction::ShowWindow
    } else if same_text(menu_id, "quit") {
        TrayAction::Quit
    } else {
        TrayAction::Nothing
    }
}

} // verus!
