//! The tray icon and its menu.

use vstd::prelude::*;

use crate::text::same;

verus! {

pub const MENU_ID_SHOW: &'static str = "show";

pub const MENU_ID_HIDE: &'static str = "hide";

pub const MENU_ID_CLOSE_TO_TRAY: &'static str = "close_to_tray";

pub const MENU_ID_RESTART_DSH: &'static str = "restart_dsh";

pub const MENU_ID_CHANGE_DIR: &'static str = "change_dir";

pub const MENU_ID_QUIT: &'static str = "quit";

/// What the tray sets in motion.
#[derive(Clone, Copy, Debug, PartialEq, Eq, Structural)]
pub enum TrayAction {
    /// Show the window and give it the focus.
    Show,
    /// Hide the window.
    Hide,
    /// Change what closing the window means.
    ToggleCloseAction,
    /// Restart the service.
    RestartDsh,
    /// Let the user pick another DSH directory.
    ChangeDir,
    /// End the service and the shell.
    Quit,
    /// Nothing.
    Ignore,
}

/// What a menu entry sets in motion.
pub open spec fn action_of(id: Seq<char>) -> TrayAction {
    if id == MENU_ID_SHOW@ {
        TrayAction::Show
    } else if id == MENU_ID_HIDE@ {
        TrayAction::Hide
    } else if id == MENU_ID_CLOSE_TO_TRAY@ {
        TrayAction::ToggleCloseAction
    } else if id == MENU_ID_RESTART_DSH@ {
        TrayAction::RestartDsh
    } else if id == MENU_ID_CHANGE_DIR@ {
        TrayAction::ChangeDir
    } else if id == MENU_ID_QUIT@ {
        TrayAction::Quit
    } else {
        TrayAction::Ignore
    }
}

/// What a menu entry sets in motion.
pub fn menu_clicked(id: &str) -> (action: TrayAction)
    ensures
        action == action_of(id@),
{
    if same(id, MENU_ID_SHOW) {
        TrayAction::Show
    } else if same(id, MENU_ID_HIDE) {
        TrayAction::Hide
    } else if same(id, MENU_ID_CLOSE_TO_TRAY) {
        TrayAction::ToggleCloseAction
    } else if same(id, MENU_ID_RESTART_DSH) {
        TrayAction::RestartDsh
    } else if same(id, MENU_ID_CHANGE_DIR) {
        TrayAction::ChangeDir
    } else if same(id, MENU_ID_QUIT) {
        TrayAction::Quit
    } else {
        TrayAction::Ignore
    }
}

/// What a click on the icon does: it hides a window that can be seen and shows one that cannot.
pub fn icon_clicked(visible: bool) -> (action: TrayAction)
    ensures
        action == (if visible {
            TrayAction::Hide
        } else {
            TrayAction::Show
        }),
{
    if visible {
        TrayAction::Hide
    } else {
        TrayAction::Show
    }
}

/// Each entry of the menu does what it is named for, and nothing else does anything.
pub proof fn law_entries_do_what_they_are_named_for(id: &str, action: TrayAction)
    requires
        call_ensures(menu_clicked, (id,), action),
    ensures
        action == TrayAction::Show <==> id@ == "show"@,
        action == TrayAction::Hide <==> id@ == "hide"@,
        action == TrayAction::ToggleCloseAction <==> id@ == "close_to_tray"@,
        action == TrayAction::RestartDsh <==> id@ == "restart_dsh"@,
        action == TrayAction::ChangeDir <==> id@ == "change_dir"@,
        action == TrayAction::Quit <==> id@ == "quit"@,
        action == TrayAction::Ignore <==> id@ != "show"@ && id@ != "hide"@ && id@ != "close_to_tray"@
            && id@ != "restart_dsh"@ && id@ != "change_dir"@ && id@ != "quit"@,
{
    reveal_strlit("show");
    reveal_strlit("hide");
    reveal_strlit("close_to_tray");
    reveal_strlit("restart_dsh");
    reveal_strlit("change_dir");
    reveal_strlit("quit");
    assert("show"@[0] == 's' && "hide"@[0] == 'h' && "quit"@[0] == 'q');
    assert("close_to_tray"@[0] == 'c' && "close_to_tray"@[1] == 'l');
    assert("change_dir"@[0] == 'c' && "change_dir"@[1] == 'h');
    assert("restart_dsh"@[0] == 'r');
}

/// A click on the icon turns what can be seen into what cannot, and back.
pub proof fn law_icon_shows_and_hides(visible: bool, action: TrayAction)
    requires
        call_ensures(icon_clicked, (visible,), action),
    ensures
        visible ==> action == TrayAction::Hide,
        !visible ==> action == TrayAction::Show,
{
}

} // verus!
