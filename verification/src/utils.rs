//! Helpers for images given by URL.

pub mod image;
pub mod clipboard;
