//! Requests to open something that come from the system (the command
//! line, the file manager, a click on the application's icon), and what
//! the application does with each.

use vstd::prelude::*;

verus! {

/// A request from the system.
#[derive(Debug, PartialEq, Eq)]
pub enum OpenEvent {
    /// Open a file.
    File(String),
    /// Open a directory in the sidebar.
    Directory(String),
    /// The application's icon was clicked.
    Reopen,
}

/// What to do for a request.
#[derive(Debug, PartialEq, Eq)]
pub enum OpenAction {
    /// Hand the file to the open windows (the focused one opens it).
    BroadcastFile(String),
    /// Open a new window showing the file.
    NewWindowWithFile(String),
    /// Hand the directory to the open windows.
    BroadcastDirectory(String),
    /// Open a new window with the directory in its sidebar.
    NewWindowWithDirectory(String),
    /// Focus the window focused last; open an empty window when there is
    /// none to focus.
    FocusLastOrNewWindow,
}

/// Decides what to do for a system request, given whether any main window
/// is open: files and directories go to the open windows, or to a new
/// window when there is none.
pub fn handle_open_event(event: OpenEvent, has_main_windows: bool) -> (r: OpenAction)
    ensures
        match event {
            OpenEvent::File(f) => r == if has_main_windows {
                OpenAction::BroadcastFile(f)
            } else {
                OpenAction::NewWindowWithFile(f)
            },
            OpenEvent::Directory(d) => r == if has_main_windows {
                OpenAction::BroadcastDirectory(d)
            } else {
                OpenAction::NewWindowWithDirectory(d)
            },
            OpenEvent::Reopen => r == OpenAction::FocusLastOrNewWindow,
        },
{
    match event {
        OpenEvent::File(f) => if has_main_windows {
            OpenAction::BroadcastFile(f)
        } else {
            OpenAction::NewWindowWithFile(f)
        },
        OpenEvent::Directory(d) => if has_main_windows {
            OpenAction::BroadcastDirectory(d)
        } else {
            OpenAction::NewWindowWithDirectory(d)
        },
        OpenEvent::Reopen => OpenAction::FocusLastOrNewWindow,
    }
}

} // verus!
