//! The command line as plain values: what the program was asked to do.
use vstd::prelude::*;

verus! {

/// The parsed command line.
#[derive(Debug)]
pub struct Cli {
    pub command: Command,
    /// The configuration file, when not the default one.
    pub config: Option<String>,
    /// Preview changes without modifying the filesystem.
    pub dry_run: bool,
    pub verbose: bool,
    pub quiet: bool,
}

/// The subcommands.
#[derive(Debug, Clone, Copy, PartialEq, Eq, Structural)]
pub enum Command {
    /// Configure sources and targets interactively.
    Init,
    /// Discover, consolidate, distribute and clean up.
    Sync,
    /// Show the library, sources, targets and health.
    Status,
    /// Diagnose, and repair, broken links and missing sources.
    Doctor,
    /// Run the skill server.
    Serve,
    /// List the discovered skills.
    List,
    /// Show the configuration, or only its file's path.
    Config { path: bool },
}

impl Command {
    /// Whether the command needs a loaded, validated configuration first
    /// (every command but the setup wizard).
    pub fn needs_config(&self) -> (r: bool)
        ensures
            r == !(*self is Init),
    {
        !matches!(self, Command::Init)
    }
}

} // verus!
