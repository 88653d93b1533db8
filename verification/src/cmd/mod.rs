//! The commands of the command line: what each one was asked to do.
pub mod build_command;
pub mod init;
pub mod new;
pub mod serve;

use vstd::prelude::*;

use crate::cmd::build_command::BuildOptions;
use crate::cmd::init::InitOptions;
use crate::cmd::new::NewOptions;
use crate::cmd::serve::ServeOptions;

verus! {

/// A parsed command line.
#[derive(Debug, Clone)]
pub struct Cli {
    pub command: Commands,
}

/// The commands, each with its options.
#[derive(Debug, Clone)]
pub enum Commands {
    /// Build the site into the output directory.
    Build(BuildOptions),
    /// Start the local development server.
    Serve(ServeOptions),
    /// Create a new content scaffold.
    New(NewOptions),
    /// Initialize a new site in the target directory.
    Init(InitOptions),
}

} // verus!
