//! The tab drag in progress, if any: one at a time, started when a tab is
//! picked up and ended when it is dropped or the drag is cancelled.
//!
//! The drag's data keeps the window it came from as `W`, the windowing
//! toolkit's window id, which this library only carries.

use vstd::prelude::*;
use crate::state::tab::Tab;

verus! {

/// At most one drag of a `T`.
pub struct DragSlot<T> {
    current: Option<T>,
}

impl<T> DragSlot<T> {
    /// The drag in progress.
    pub closed spec fn current(&self) -> Option<T> {
        self.current
    }

    /// No drag in progress.
    pub fn new() -> (r: Self)
        ensures
            r.current() is None,
    {
        DragSlot { current: None }
    }

    /// Starts a drag, replacing any drag in progress.
    pub fn start(&mut self, drag: T)
        ensures
            final(self).current() == Some(drag),
    {
        self.current = Some(drag);
    }

    /// Ends the drag in progress, handing it back.
    pub fn take(&mut self) -> (r: Option<T>)
        ensures
            r == old(self).current(),
            final(self).current() is None,
    {
        self.current.take()
    }

    /// The drag in progress.
    pub fn get(&self) -> (r: Option<&T>)
        ensures
            match r {
                Some(d) => self.current() == Some(*d),
                None => self.current() is None,
            },
    {
        match &self.current {
            Some(d) => Some(d),
            None => None,
        }
    }

    /// Whether a drag is in progress.
    pub fn is_active(&self) -> (r: bool)
        ensures
            r == self.current() is Some,
    {
        self.current.is_some()
    }
}

/// A tab being dragged, with where it came from.
pub struct DraggedTab<W> {
    /// The tab being dragged.
    pub tab: Tab,
    /// The window it was picked up in.
    pub source_window_id: W,
    /// Its index in that window's tab bar.
    pub source_index: usize,
}

/// Starts dragging `tab` out of `source_window_id` at `source_index`.
pub fn start_tab_drag<W>(state: &mut DragSlot<DraggedTab<W>>, tab: Tab, source_window_id: W, source_index: usize)
    ensures
        final(state).current() == Some(DraggedTab { tab, source_window_id, source_index }),
{
    state.start(DraggedTab { tab, source_window_id, source_index });
}

/// Ends the current drag operation.
pub fn end_drag<T>(state: &mut DragSlot<T>)
    ensures
        final(state).current() is None,
{
    let _ = state.take();
}

/// The tab being dragged, if any.
pub fn get_dragged_tab<W>(state: &DragSlot<DraggedTab<W>>) -> (r: Option<&DraggedTab<W>>)
    ensures
        match r {
            Some(d) => state.current() == Some(*d),
            None => state.current() is None,
        },
{
    state.get()
}

/// Whether a tab drag is in progress.
pub fn is_tab_dragging<T>(state: &DragSlot<T>) -> (r: bool)
    ensures
        r == state.current() is Some,
{
    state.is_active()
}

/// Whether an active drag (one past the drag threshold) is in progress.
pub fn is_active_drag<T>(state: &DragSlot<T>) -> (r: bool)
    ensures
        r == state.current() is Some,
{
    state.is_active()
}

/// Updates the active drag, if there is one, to what `f` makes of it; with
/// no drag in progress nothing happens and `f` is not called.
pub fn update_active_drag<T, F: FnOnce(T) -> T>(state: &mut DragSlot<T>, f: F)
    requires
        forall|d: T| f.requires((d,)),
    ensures
        match old(state).current() {
            Some(d) => final(state).current() matches Some(e) && f.ensures((d,), e),
            None => final(state).current() is None,
        },
{
    if let Some(d) = state.take() {
        let e = f(d);
        state.start(e);
    }
}

/// Ends the active drag and hands back its final state.
pub fn end_active_drag<T>(state: &mut DragSlot<T>) -> (r: Option<T>)
    ensures
        r == old(state).current(),
        final(state).current() is None,
{
    state.take()
}

/// Whether the screen point `(x, y)` lies in the rectangle at `(left, top)`
/// of `width` by `height`: left and top edges inside, right and bottom out.
pub open spec fn point_in_rect(x: int, y: int, left: int, top: int, width: int, height: int) -> bool {
    left <= x < left + width && top <= y < top + height
}

/// Decides whether the point `(x, y)` lies in a window's frame, given in
/// logical pixels.
pub fn is_point_in_window(x: i32, y: i32, left: i32, top: i32, width: i32, height: i32) -> (r: bool)
    ensures
        r == point_in_rect(x as int, y as int, left as int, top as int, width as int, height as int),
{
    let right = left as i64 + width as i64;
    let bottom = top as i64 + height as i64;
    x >= left && (x as i64) < right && y >= top && (y as i64) < bottom
}

} // verus!
