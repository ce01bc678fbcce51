use auto_shit::cmds::{BatchReaction, CommandError, Commands, USAGE};
use auto_shit::console::{console, judge_line, ConsoleStep, LineVerdict, ReadOutcome};

fn line(text: &str) -> ConsoleStep {
    console(&ReadOutcome::Line(text.to_string()))
}

fn run(command: Commands) -> ConsoleStep {
    ConsoleStep::Handle { verdict: LineVerdict::Run(command), record: true }
}

#[test]
fn a_command_line_is_run_and_recorded() {
    assert_eq!(line("login"), run(Commands::Login { phone: None }));
    assert_eq!(line("login -p 123"), run(Commands::Login { phone: Some("123".to_string()) }));
}

#[test]
fn quotes_and_escapes_are_the_shells() {
    assert_eq!(line("login --phone '+49 15'"), run(Commands::Login { phone: Some("+49 15".to_string()) }));
    assert_eq!(line("login --phone \"a b\"c"), run(Commands::Login { phone: Some("a bc".to_string()) }));
    assert_eq!(line("login -p a\\ b"), run(Commands::Login { phone: Some("a b".to_string()) }));
    assert_eq!(
        line("batch-reaction  some'chan'nel   -c '1 2' 3"),
        run(Commands::BatchReaction(BatchReaction {
            channel: "somechannel".to_string(),
            reaction: "🤡".to_string(),
            start: None,
            limit: None,
            client: vec![1, 2, 3],
        }))
    );
}

#[test]
fn a_line_that_cannot_be_split_is_reported_and_recorded() {
    assert_eq!(line("login 'open"), ConsoleStep::Handle { verdict: LineVerdict::SplitFailed, record: true });
    assert_eq!(line("login \\"), ConsoleStep::Handle { verdict: LineVerdict::SplitFailed, record: true });
    assert_eq!(LineVerdict::SplitFailed.notice(), Some("Failed to split".to_string()));
}

#[test]
fn an_empty_line_is_reported_and_not_recorded() {
    assert_eq!(line(""), ConsoleStep::Handle { verdict: LineVerdict::EmptyLine, record: false });
    assert_eq!(line("   "), ConsoleStep::Handle { verdict: LineVerdict::EmptyLine, record: false });
    assert_eq!(line("# a comment"), ConsoleStep::Handle { verdict: LineVerdict::EmptyLine, record: false });
    assert_eq!(LineVerdict::EmptyLine.notice(), Some("Empty line".to_string()));
}

#[test]
fn malformed_batch_reaction_is_a_parse_error_and_the_prompt_goes_on() {
    let step = line("batch-reaction");
    assert_eq!(
        step,
        ConsoleStep::Handle { verdict: LineVerdict::Rejected(CommandError::MissingChannel), record: true }
    );
    match step {
        ConsoleStep::Handle { verdict, .. } => assert_eq!(
            verdict.notice(),
            Some(format!("Failed to parse command: the channel is required\n{USAGE}"))
        ),
        _ => unreachable!(),
    }
    assert_eq!(line("login"), run(Commands::Login { phone: None }));
}

#[test]
fn a_command_has_no_notice() {
    assert_eq!(LineVerdict::Run(Commands::Login { phone: None }).notice(), None);
}

#[test]
fn interrupt_prompts_again() {
    assert_eq!(console(&ReadOutcome::Interrupted), ConsoleStep::Interrupted);
}

#[test]
fn end_of_input_leaves_with_success() {
    assert_eq!(console(&ReadOutcome::Eof), ConsoleStep::Exit { success: true });
}

#[test]
fn read_failure_leaves_with_failure() {
    assert_eq!(console(&ReadOutcome::Failed), ConsoleStep::Exit { success: false });
}

#[test]
fn judge_line_on_each_kind_of_split() {
    assert_eq!(judge_line(None), LineVerdict::SplitFailed);
    assert_eq!(judge_line(Some(vec![])), LineVerdict::EmptyLine);
    assert_eq!(judge_line(Some(vec!["login".to_string()])), LineVerdict::Run(Commands::Login { phone: None }));
    assert_eq!(
        judge_line(Some(vec!["nope".to_string()])),
        LineVerdict::Rejected(CommandError::UnknownCommand("nope".to_string()))
    );
}
