//! Development tooling.
pub mod watch;
