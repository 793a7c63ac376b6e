//! The preview window shown while a tab is dragged out of its window.
//!
//! When a window's only tab is dragged, that window itself becomes the
//! preview (it is "promoted"); otherwise a new window is made for it. The
//! functions here decide what happens to the preview window; the
//! application carries out the commands on the window `W` they name.

use vstd::prelude::*;

verus! {

/// The preview window in use.
pub struct PreviewState<W> {
    /// Handle of the preview window.
    pub window: W,
    /// Whether the dragged tab's own window became the preview (rather
    /// than a new window made for it).
    pub is_promoted: bool,
}

/// What to do to a window.
#[derive(Debug, Clone, Copy, PartialEq, Eq)]
pub enum WindowCommand {
    /// Keep it above other windows, or stop doing so.
    SetAlwaysOnTop(bool),
    /// Show or hide it.
    SetVisible(bool),
    /// Close it.
    Close,
}

/// Closes the preview window without committing it (the cursor returned to
/// a tab bar, or the drag was cancelled): a promoted window goes back to
/// normal and is shown; a window made for the preview is closed.
pub fn close_preview_window<W>(state: &mut Option<PreviewState<W>>) -> (r: Option<(W, Vec<WindowCommand>)>)
    ensures
        *final(state) is None,
        match *old(state) {
            None => r is None,
            Some(p) => r matches Some((w, cmds)) && w == p.window && cmds@ == if p.is_promoted {
                seq![WindowCommand::SetAlwaysOnTop(false), WindowCommand::SetVisible(true)]
            } else {
                seq![WindowCommand::Close]
            },
        },
{
    match state.take() {
        None => None,
        Some(p) => {
            let cmds = if p.is_promoted {
                vec![WindowCommand::SetAlwaysOnTop(false), WindowCommand::SetVisible(true)]
            } else {
                vec![WindowCommand::Close]
            };
            Some((p.window, cmds))
        },
    }
}

/// Discards the preview window when its tab moves to another window: a
/// promoted window stops staying on top but is not shown again (its caller
/// closes it); a window made for the preview is closed.
pub fn discard_preview_window<W>(state: &mut Option<PreviewState<W>>) -> (r: Option<(W, Vec<WindowCommand>)>)
    ensures
        *final(state) is None,
        match *old(state) {
            None => r is None,
            Some(p) => r matches Some((w, cmds)) && w == p.window && cmds@ == if p.is_promoted {
                seq![WindowCommand::SetAlwaysOnTop(false)]
            } else {
                seq![WindowCommand::Close]
            },
        },
{
    match state.take() {
        None => None,
        Some(p) => {
            let cmds = if p.is_promoted {
                vec![WindowCommand::SetAlwaysOnTop(false)]
            } else {
                vec![WindowCommand::Close]
            };
            Some((p.window, cmds))
        },
    }
}

/// Commits the preview window on a drop: it becomes a permanent window and
/// stops staying on top.
pub fn commit_preview_window<W>(state: &mut Option<PreviewState<W>>) -> (r: Option<(W, Vec<WindowCommand>)>)
    ensures
        *final(state) is None,
        match *old(state) {
            None => r is None,
            Some(p) => r matches Some((w, cmds)) && w == p.window && cmds@ == seq![
                WindowCommand::SetAlwaysOnTop(false),
            ],
        },
{
    match state.take() {
        None => None,
        Some(p) => Some((p.window, vec![WindowCommand::SetAlwaysOnTop(false)])),
    }
}

/// Whether a preview window is in use.
pub fn has_preview_window<W>(state: &Option<PreviewState<W>>) -> (r: bool)
    ensures
        r == state is Some,
{
    state.is_some()
}

/// Hides the preview window for a drag across windows; it stays in use.
pub fn hide_preview_window<W>(state: &Option<PreviewState<W>>) -> (r: Vec<WindowCommand>)
    ensures
        r@ == if state is Some {
            seq![WindowCommand::SetVisible(false)]
        } else {
            Seq::empty()
        },
{
    if state.is_some() {
        vec![WindowCommand::SetVisible(false)]
    } else {
        Vec::new()
    }
}

/// Shows the preview window again after hiding it.
pub fn show_preview_window<W>(state: &Option<PreviewState<W>>) -> (r: Vec<WindowCommand>)
    ensures
        r@ == if state is Some {
            seq![WindowCommand::SetVisible(true)]
        } else {
            Seq::empty()
        },
{
    if state.is_some() {
        vec![WindowCommand::SetVisible(true)]
    } else {
        Vec::new()
    }
}

} // verus!
