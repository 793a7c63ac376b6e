//! Per-window state: the tabs, the sidebar, the table of contents and the
//! search bar.

pub mod app_state;
pub mod sidebar;
pub mod tab;
