//! The options of `build`.
use vstd::prelude::*;

verus! {

/// What the user asked `build` for.
#[derive(Debug, Clone, Default)]
pub struct BuildOptions {
    /// The configuration file to use.
    pub config_path: Option<String>,
}

} // verus!
