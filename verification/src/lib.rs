//! Verified core of a Markdown viewer: rendering Markdown with alerts,
//! frontmatter, diagrams and math; bookmarks, navigation history, tabs and
//! the sidebar; and the ids and URLs of the windows that show one image,
//! diagram or formula.

pub mod bookmarks;
pub mod cache;
pub mod context_menu;
pub mod drag;
pub mod events;
pub mod history;
pub mod markdown;
pub mod open_event;
pub mod paths;
pub mod state;
pub mod text;
pub mod utils;
pub mod window;
pub mod windows;
