use auto_shit::loader::{load_sessions, Probe, ProbeStep};
use auto_shit::startup::{Startup, StartupAction, StartupEvent, StartupPhase};
use auto_shit::state::AccountRegistry;

#[test]
fn the_program_runs_from_the_configuration_to_the_prompt() {
    let (mut course, first) = Startup::begin();
    assert_eq!(first, StartupAction::ReadConfig);
    assert_eq!(course.step(StartupEvent::Done), StartupAction::SetupLog);
    assert_eq!(course.step(StartupEvent::Done), StartupAction::LoadSessions);
    assert_eq!(course.step(StartupEvent::Loaded { failed: 0 }), StartupAction::Prompt);
    assert_eq!(course.phase, StartupPhase::Prompting);
    assert_eq!(course.step(StartupEvent::PromptLeft { success: true }), StartupAction::Exit { success: true });
    assert_eq!(course.phase, StartupPhase::Ended { success: true });
}

#[test]
fn failed_sessions_do_not_keep_the_prompt_from_starting() {
    let probes = vec![(1, Probe::Unauthorized), (2, Probe::Failed(ProbeStep::Load))];
    let mut registry = AccountRegistry::new();
    let failed = load_sessions(&mut registry, &probes).len();
    assert_eq!(failed, 2);
    for failed in [failed, 1, usize::MAX] {
        let mut course = Startup { phase: StartupPhase::Loading };
        assert_eq!(course.step(StartupEvent::Loaded { failed }), StartupAction::Prompt);
        assert_eq!(course.phase, StartupPhase::Prompting);
    }
}

#[test]
fn a_failure_before_the_prompt_ends_the_program() {
    for phase in [StartupPhase::Configuring, StartupPhase::Logging, StartupPhase::Loading] {
        let mut course = Startup { phase };
        assert_eq!(course.step(StartupEvent::Failed), StartupAction::Exit { success: false });
        assert_eq!(course.phase, StartupPhase::Ended { success: false });
        assert_eq!(course.step(StartupEvent::Done), StartupAction::Exit { success: false });
    }
}

#[test]
fn a_failed_read_at_the_prompt_ends_with_failure() {
    let mut course = Startup { phase: StartupPhase::Prompting };
    assert_eq!(course.step(StartupEvent::PromptLeft { success: false }), StartupAction::Exit { success: false });
}

#[test]
fn an_outcome_out_of_turn_ends_the_program() {
    let mut course = Startup { phase: StartupPhase::Configuring };
    assert_eq!(course.step(StartupEvent::Loaded { failed: 0 }), StartupAction::Exit { success: false });
}
