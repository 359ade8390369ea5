//! Command-line level types: which operation was requested, where the
//! manifest lives, and the run configuration.  Flag parsing itself is the
//! host program's affair; it hands over plain values.

use vstd::prelude::*;

verus! {

/// The high-level operations a run can perform.
#[derive(Debug, Clone, Copy, PartialEq, Eq, Structural)]
pub enum Command {
    /// Clone what is missing, then pull and push what is present.
    Sync,
    /// Clone every repository.
    Clone,
    /// Only pull remote changes.
    Pull,
    /// Only push local changes.
    Push,
}

/// The narrowed command set holding only the default operation.
#[derive(Debug, Clone, Copy, PartialEq, Eq, Structural)]
pub enum Commands {
    /// Clone what is missing, then pull and push what is present.
    Sync,
}

/// Parsed command-line arguments, as plain values.
#[derive(Debug)]
pub struct Args {
    /// Path of a specific manifest file; absent means the default location.
    pub manifest: Option<String>,
    /// The requested operation; absent means `Sync`.
    pub command: Option<Command>,
    /// Whether to print verbose output.
    pub verbose: bool,
}

/// Run configuration derived from the arguments.
#[derive(Debug)]
pub struct Config {
    /// Whether or not to print verbose output.
    pub verbose: bool,
}

impl Config {
    /// Derives the run configuration from parsed arguments.
    pub fn new(args: &Args) -> (r: Self)
        ensures
            r.verbose == args.verbose,
    {
        Config { verbose: args.verbose }
    }
}

/// The operation a run performs: the requested one, or `Sync` when none was
/// requested.
pub fn effective_command(c: Option<Command>) -> (r: Command)
    ensures
        r == match c {
            Some(x) => x,
            None => Command::Sync,
        },
{
    match c {
        Some(x) => x,
        None => Command::Sync,
    }
}

} // verus!
