//! Notifications passed between the application's windows.

use vstd::prelude::*;

verus! {

/// Notification that the drag state has changed: every window re-renders
/// and reads the drag state to see whether it is the drag's target.
#[derive(Debug, Clone, Copy)]
pub struct ActiveDragUpdate;

} // verus!
