//! The commands the tool runs and the options they run with.
use vstd::prelude::*;
use crate::text::strs;

verus! {

/// A command and its arguments.
#[derive(Debug, Clone)]
pub enum CommandKind {
    Inspect,
    Compare { targets: Vec<String> },
    Plan { target: String },
    To { target: String },
    Apply { plan_id: String },
    Verify { run_id: String },
    Rollback { run_id: String },
    RuntimeTo { target: String, permissions: Vec<String> },
    RuntimeRollback { run_id: String },
    Support,
}

/// A command with the directory it runs in and its flags.
#[derive(Debug, Clone)]
pub struct CommandOptions {
    pub command: CommandKind,
    pub cwd: String,
    pub state_directory: Option<String>,
    pub accept_lossy: bool,
    pub approval: Option<String>,
    pub dry_run: bool,
    pub trial: bool,
    pub verification_scripts: Vec<String>,
}

impl CommandOptions {
    /// The command in `cwd` with every flag off and no state directory,
    /// approval or verification scripts.
    pub fn new(command: CommandKind, cwd: String) -> (r: Self)
        ensures
            r.command == command,
            r.cwd == cwd,
            r.state_directory is None,
            !r.accept_lossy,
            r.approval is None,
            !r.dry_run,
            !r.trial,
            r.verification_scripts@.len() == 0,
    {
        CommandOptions {
            command,
            cwd,
            state_directory: None,
            accept_lossy: false,
            approval: None,
            dry_run: false,
            trial: false,
            verification_scripts: Vec::new(),
        }
    }
}

} // verus!
