//! `funnel config`: show the effective configuration.
use vstd::prelude::*;

verus! {

/// Subcommands of `funnel config`.
#[derive(Debug, Clone, Copy, PartialEq, Eq, Structural)]
pub enum Command {
    /// Show the effective configuration.
    Show,
    /// Print the path of the user configuration file.
    Path,
}

} // verus!
