//! A static site generator: configuration, content parsing, page rendering
//! and site initialization, with their rules proved.
pub mod cmd;
pub mod config;
pub mod content;
pub mod dev;
pub mod error;
pub mod fs;
pub mod order;
pub mod paths;
pub mod render;
pub mod text;

pub use config::SiteConfig;
pub use error::Error;
pub use render::builder::build;
