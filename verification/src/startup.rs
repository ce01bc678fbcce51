//! The course of the program: from reading the configuration to the
//! prompt, and out.
//!
//! The caller does the work of each step and reports how it went;
//! `Startup::step` says what comes next. Whatever keeps the registry or the
//! prompt from being set up ends the program; a session that does not load
//! never does.

use vstd::prelude::*;

verus! {

/// Where the program stands.
#[derive(Debug, Clone, Copy, PartialEq, Eq)]
pub enum StartupPhase {
    /// The configuration is being read.
    Configuring,
    /// The log is being set up.
    Logging,
    /// The sessions folder is being walked, and its sessions loaded.
    Loading,
    /// The prompt is running.
    Prompting,
    /// The program has ended, with or without success.
    Ended { success: bool },
}

/// How the step that was last asked for went.
#[derive(Debug, Clone, Copy, PartialEq, Eq)]
pub enum StartupEvent {
    /// The step is done.
    Done,
    /// The step could not be done.
    Failed,
    /// Every session of the folder was looked at; `failed` of them did not
    /// load.
    Loaded { failed: usize },
    /// The prompt has been left, with or without success.
    PromptLeft { success: bool },
}

/// What the caller does next.
#[derive(Debug, Clone, Copy, PartialEq, Eq)]
pub enum StartupAction {
    /// Read the configuration.
    ReadConfig,
    /// Set up the log.
    SetupLog,
    /// Walk the sessions folder, probe its sessions and load them.
    LoadSessions,
    /// Report the accounts that are logged in, and run the prompt.
    Prompt,
    /// End the process, with or without success.
    Exit { success: bool },
}

/// The end of the program, and the exit that goes with it.
pub open spec fn ended(success: bool) -> (StartupPhase, StartupAction) {
    (StartupPhase::Ended { success }, StartupAction::Exit { success })
}

/// The phase and the action after `event`.
pub open spec fn step_of(phase: StartupPhase, event: StartupEvent) -> (
    StartupPhase,
    StartupAction,
) {
    match (phase, event) {
        (StartupPhase::Ended { success }, _) => ended(success),
        (StartupPhase::Configuring, StartupEvent::Done) => (
            StartupPhase::Logging,
            StartupAction::SetupLog,
        ),
        (StartupPhase::Logging, StartupEvent::Done) => (
            StartupPhase::Loading,
            StartupAction::LoadSessions,
        ),
        (StartupPhase::Loading, StartupEvent::Loaded { .. }) => (
            StartupPhase::Prompting,
            StartupAction::Prompt,
        ),
        (StartupPhase::Prompting, StartupEvent::PromptLeft { success }) => ended(success),
        _ => ended(false),
    }
}

/// The program under way.
#[derive(Debug, Clone, Copy, PartialEq, Eq)]
pub struct Startup {
    pub phase: StartupPhase,
}

impl Startup {
    /// The program before anything was done, and its first action.
    pub fn begin() -> (begun: (Startup, StartupAction))
        ensures
            begun.0.phase == StartupPhase::Configuring,
            begun.1 == StartupAction::ReadConfig,
    {
        (Startup { phase: StartupPhase::Configuring }, StartupAction::ReadConfig)
    }

    /// Takes the outcome of the last action and gives the next action.
    pub fn step(&mut self, event: StartupEvent) -> (action: StartupAction)
        ensures
            (final(self).phase, action) == step_of(old(self).phase, event),
    {
        let (phase, action) = match (self.phase, event) {
            (StartupPhase::Ended { success }, _) => (
                StartupPhase::Ended { success },
                StartupAction::Exit { success },
            ),
            (StartupPhase::Configuring, StartupEvent::Done) => (
                StartupPhase::Logging,
                StartupAction::SetupLog,
            ),
            (StartupPhase::Logging, StartupEvent::Done) => (
                StartupPhase::Loading,
                StartupAction::LoadSessions,
            ),
            (StartupPhase::Loading, StartupEvent::Loaded { .. }) => (
                StartupPhase::Prompting,
                StartupAction::Prompt,
            ),
            (StartupPhase::Prompting, StartupEvent::PromptLeft { success }) => (
                StartupPhase::Ended { success },
                StartupAction::Exit { success },
            ),
            _ => (StartupPhase::Ended { success: false }, StartupAction::Exit { success: false }),
        };
        self.phase = phase;
        action
    }
}

/// However many sessions fail to load, the prompt comes next: no session,
/// and no number of them, ends the program before the first prompt.
pub proof fn lemma_failed_sessions_never_stop_the_prompt(failed: usize)
    ensures
        step_of(StartupPhase::Loading, StartupEvent::Loaded { failed }) == (
            StartupPhase::Prompting,
            StartupAction::Prompt,
        ),
{
}

/// The program ends before the prompt only where the configuration, the
/// log or the walk of the sessions folder fails, and then without success;
/// once at the prompt, it ends as the prompt was left.
pub proof fn lemma_only_setup_failures_are_fatal(phase: StartupPhase, event: StartupEvent)
    requires
        !(phase is Ended),
        step_of(phase, event).0 is Ended,
    ensures
        phase is Prompting ==> (event matches StartupEvent::PromptLeft { success } ==> step_of(
            phase,
            event,
        ) == ended(success)),
        !(event is PromptLeft && phase is Prompting) ==> step_of(phase, event) == ended(false)
            && !(phase is Loading && event is Loaded),
{
}

} // verus!
