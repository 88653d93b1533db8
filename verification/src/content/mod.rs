//! Source content: posts, their front matter, and the parser that turns
//! source text into posts.
pub mod front_matter;
pub mod parser;
pub mod post;
