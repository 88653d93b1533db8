//! Turning posts into pages.
pub mod builder;
pub mod template;
