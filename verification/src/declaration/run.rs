//! The startup sequence's decisions, before any platform work: validate the
//! declaration, then parse the launch, then either answer the request or run.
//!
//! The parse itself and the platform run are the caller's work; this module
//! decides, from what is known so far, what comes next.

use vstd::prelude::*;

use super::app::{spec_app_faults, AppDeclaration};

verus! {

/// What the launch parser answered.
#[derive(Clone, Debug, PartialEq, Eq)]
pub enum LaunchOutcome {
    /// The parser rejected the process facts.
    Failed,
    /// The parser answered the request itself (`--help`, `--version`).
    ExitSuccess {
        /// Text to write to standard output verbatim.
        stdout: Option<String>,
    },
    /// Startup continues with the parsed launch value.
    Run,
}

/// What startup does next.
#[derive(Clone, Debug, PartialEq, Eq)]
pub enum StartupAction {
    /// Report the declaration faults; nothing else happens.
    ReportDeclarationFaults,
    /// Run the launch parser against the process facts.
    ParseLaunch,
    /// Report the launch parse failure before any platform work.
    ReportLaunchFailure,
    /// Write `stdout`, if any, and return success without building a platform.
    WriteAndExit {
        /// Text to write to standard output verbatim.
        stdout: Option<String>,
    },
    /// Build the platform and run the application.
    RunPlatform,
}

/// The next startup step: a faulty declaration is reported before anything
/// else, the launch is parsed only once the declaration is valid, and only a
/// parsed launch value reaches the platform.
pub open spec fn spec_startup_action(valid: bool, outcome: Option<LaunchOutcome>) -> StartupAction {
    if !valid {
        StartupAction::ReportDeclarationFaults
    } else {
        match outcome {
            None => StartupAction::ParseLaunch,
            Some(LaunchOutcome::Failed) => StartupAction::ReportLaunchFailure,
            Some(LaunchOutcome::ExitSuccess { stdout }) => StartupAction::WriteAndExit { stdout },
            Some(LaunchOutcome::Run) => StartupAction::RunPlatform,
        }
    }
}

/// Decide the next startup step from whether the declaration validated and
/// what the launch parser answered, if it has run.
pub fn startup_action(valid: bool, outcome: Option<LaunchOutcome>) -> (action: StartupAction)
    ensures
        action == spec_startup_action(valid, outcome),
{
    if !valid {
        return StartupAction::ReportDeclarationFaults;
    }
    match outcome {
        None => StartupAction::ParseLaunch,
        Some(LaunchOutcome::Failed) => StartupAction::ReportLaunchFailure,
        Some(LaunchOutcome::ExitSuccess { stdout }) => StartupAction::WriteAndExit { stdout },
        Some(LaunchOutcome::Run) => StartupAction::RunPlatform,
    }
}

impl AppDeclaration {
    /// The next startup step for this declaration, given what the launch
    /// parser answered, if it has run.
    #[verifier::spinoff_prover]
    pub fn next_startup_action(&self, outcome: Option<LaunchOutcome>) -> (action: StartupAction)
        ensures
            action == spec_startup_action(spec_app_faults(self@).len() == 0, outcome),
    {
        let valid = match self.validate() {
            Ok(()) => true,
            Err(errors) => {
                let n = errors.len();
                assert(n > 0);
                false
            },
        };
        startup_action(valid, outcome)
    }
}

/// Startup never reaches the platform past a declaration fault or a parse
/// that did not produce a launch value, and it parses only a valid
/// declaration's launch.
pub proof fn lemma_only_a_parsed_valid_launch_reaches_the_platform(
    valid: bool,
    outcome: Option<LaunchOutcome>,
)
    ensures
        spec_startup_action(valid, outcome) is RunPlatform <==> valid && outcome == Some(
            LaunchOutcome::Run,
        ),
        spec_startup_action(valid, outcome) is ParseLaunch ==> valid,
        !valid ==> spec_startup_action(valid, outcome) is ReportDeclarationFaults,
{
}

} // verus!
