//! Commands from the system tray menu. Creating the tray icon and polling
//! its menu-event channel belong to the window layer; this module decides
//! which command a clicked menu item stands for.

use vstd::prelude::*;

verus! {

/// What the user asked for through the tray icon's menu.
#[derive(Debug, Clone, Copy, PartialEq, Eq, Structural)]
pub enum TrayCommand {
    ShowWindow,
    Exit,
}

/// The command of the menu item with id `event_id`, given the ids of the
/// "Show" and "Exit" items; `None` for any other item.
pub fn command_for_menu_event(event_id: &String, show_item_id: &String, exit_item_id: &String) -> (r: Option<TrayCommand>)
    ensures
        r == if event_id@ == show_item_id@ {
            Some(TrayCommand::ShowWindow)
        } else if event_id@ == exit_item_id@ {
            Some(TrayCommand::Exit)
        } else {
            None
        },
{
    if *event_id == *show_item_id {
        Some(TrayCommand::ShowWindow)
    } else if *event_id == *exit_item_id {
        Some(TrayCommand::Exit)
    } else {
        None
    }
}

} // verus!
