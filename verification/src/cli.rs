//! The command line, as far as it has been parsed.
use vstd::prelude::*;

use crate::sched::SchedMode;

verus! {

/// A parsed command line.
#[derive(Debug)]
pub struct Cli {
    pub command: Commands,
}

/// What to start.
#[derive(Debug)]
pub struct StartArgs {
    pub sched: String,
    /// Mode to start in.
    pub mode: Option<SchedMode>,
    /// Arguments to run the scheduler with, split at commas.
    pub args: Option<Vec<String>>,
}

/// What to switch to.
#[derive(Debug)]
pub struct SwitchArgs {
    pub sched: Option<String>,
    /// Mode to switch to.
    pub mode: Option<SchedMode>,
    /// Arguments to run the scheduler with, split at commas.
    pub args: Option<Vec<String>>,
}

/// What to hold.
#[derive(Debug)]
pub struct HoldArgs {
    pub sched: String,
    pub mode: SchedMode,
    /// Human-readable reason for the hold.
    pub reason: String,
    /// Reverse-DNS application identifier.
    pub app_id: String,
}

/// Whose modes to show.
#[derive(Debug)]
pub struct ModesArgs {
    pub sched: String,
    /// Show the arguments of every mode.
    pub show_args: bool,
}

/// The commands.
#[allow(inconsistent_fields)]
#[derive(Debug)]
pub enum Commands {
    /// Get the info on the running scheduler.
    Get,
    /// List all supported schedulers.
    List,
    /// Show the modes of a scheduler.
    Modes { args: ModesArgs },
    /// Start a scheduler in a mode or with arguments.
    Start { args: StartArgs },
    /// Switch schedulers or modes, optionally with arguments.
    Switch { args: SwitchArgs },
    /// Stop the current scheduler.
    Stop,
    /// Restart the current scheduler with its original configuration.
    Restart,
    /// Restore the default scheduler from the configuration.
    Restore,
    /// Place a scheduler hold and print the returned cookie.
    Hold { args: HoldArgs },
    /// Release a previously acquired scheduler hold by cookie.
    Release { cookie: u32 },
    /// List all currently active scheduler holds.
    Holds,
}

} // verus!
