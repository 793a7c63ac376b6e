//! Windows of the application.

pub mod preview;
pub mod index;
