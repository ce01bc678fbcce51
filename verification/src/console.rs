//! The interactive prompt: what becomes of each line that is read.

use crate::cmds::{
    command_of, error_text, handle_command, tokens_view, CommandError, CommandErrorView, Commands,
    CommandsView,
};
use vstd::prelude::*;
use vstd::string::StringExecFns;

verus! {

/// What `shlex::split` makes of a line: its words, or `None` where the line
/// cannot be split.
pub uninterp spec fn shlex_split(line: Seq<char>) -> Option<Seq<Seq<char>>>;

/// The words of a split line, each as its characters.
pub open spec fn split_view(split: Option<Vec<String>>) -> Option<Seq<Seq<char>>> {
    match split {
        Some(args) => Some(tokens_view(args@)),
        None => None,
    }
}

/// `shlex::split`: the line split into words as a POSIX shell would, with
/// quotes and escapes removed; `None` where a quote is left open or the line
/// ends in an escape.
#[verifier::external_body]
fn split_line(line: &str) -> (split: Option<Vec<String>>)
    ensures
        split_view(split) == shlex_split(line@),
{
    shlex::split(line)
}

/// What the line editor handed back.
#[derive(Debug, Clone, PartialEq, Eq)]
pub enum ReadOutcome {
    /// A line of text.
    Line(String),
    /// The operator interrupted the prompt.
    Interrupted,
    /// The input has ended.
    Eof,
    /// Reading failed.
    Failed,
}

/// What a line asks for.
#[derive(Debug, Clone, PartialEq, Eq)]
pub enum LineVerdict {
    /// The line is this command.
    Run(Commands),
    /// The line has words, and they are no command.
    Rejected(CommandError),
    /// The line cannot be split into words.
    SplitFailed,
    /// The line has no words.
    EmptyLine,
}

/// What the prompt does next.
#[derive(Debug, Clone, PartialEq, Eq)]
pub enum ConsoleStep {
    /// Act on the line; then, where `record` is set, add the line to the
    /// history and save the history. Then prompt again.
    Handle { verdict: LineVerdict, record: bool },
    /// Say that the prompt was interrupted, and prompt again.
    Interrupted,
    /// Leave the prompt, and end the process with or without success.
    Exit { success: bool },
}

/// A `LineVerdict` with its texts as sequences of characters.
pub enum LineVerdictView {
    Run(CommandsView),
    Rejected(CommandErrorView),
    SplitFailed,
    EmptyLine,
}

/// A `ConsoleStep` with its texts as sequences of characters.
pub enum ConsoleStepView {
    Handle { verdict: LineVerdictView, record: bool },
    Interrupted,
    Exit { success: bool },
}

impl View for LineVerdict {
    type V = LineVerdictView;

    open spec fn view(&self) -> LineVerdictView {
        match *self {
            LineVerdict::Run(command) => LineVerdictView::Run(command@),
            LineVerdict::Rejected(error) => LineVerdictView::Rejected(error@),
            LineVerdict::SplitFailed => LineVerdictView::SplitFailed,
            LineVerdict::EmptyLine => LineVerdictView::EmptyLine,
        }
    }
}

impl View for ConsoleStep {
    type V = ConsoleStepView;

    open spec fn view(&self) -> ConsoleStepView {
        match *self {
            ConsoleStep::Handle { verdict, record } => ConsoleStepView::Handle {
                verdict: verdict@,
                record,
            },
            ConsoleStep::Interrupted => ConsoleStepView::Interrupted,
            ConsoleStep::Exit { success } => ConsoleStepView::Exit { success },
        }
    }
}

/// What a line asks for, given what splitting it gave.
pub open spec fn verdict_of(split: Option<Seq<Seq<char>>>) -> LineVerdictView {
    match split {
        None => LineVerdictView::SplitFailed,
        Some(tokens) => if tokens.len() == 0 {
            LineVerdictView::EmptyLine
        } else {
            match command_of(tokens) {
                Ok(command) => LineVerdictView::Run(command),
                Err(error) => LineVerdictView::Rejected(error),
            }
        },
    }
}

/// Whether a line with this verdict goes into the history: every line but
/// one without words.
pub open spec fn is_recorded(verdict: LineVerdictView) -> bool {
    !(verdict is EmptyLine)
}

/// What splitting the line of `outcome` gives; nothing where the outcome is
/// no line.
pub open spec fn split_of(outcome: ReadOutcome) -> Option<Seq<Seq<char>>> {
    match outcome {
        ReadOutcome::Line(line) => shlex_split(line@),
        _ => None,
    }
}

/// What the prompt does after the line editor handed back `outcome`, given
/// what splitting the line gave, where there is a line.
pub open spec fn step_of(outcome: ReadOutcome, split: Option<Seq<Seq<char>>>) -> ConsoleStepView {
    match outcome {
        ReadOutcome::Line(_) => ConsoleStepView::Handle {
            verdict: verdict_of(split),
            record: is_recorded(verdict_of(split)),
        },
        ReadOutcome::Interrupted => ConsoleStepView::Interrupted,
        ReadOutcome::Eof => ConsoleStepView::Exit { success: true },
        ReadOutcome::Failed => ConsoleStepView::Exit { success: false },
    }
}

/// Decides what a split line asks for.
pub fn judge_line(split: Option<Vec<String>>) -> (verdict: LineVerdict)
    ensures
        verdict@ == verdict_of(split_view(split)),
{
    match split {
        None => LineVerdict::SplitFailed,
        Some(args) => {
            if args.len() == 0 {
                LineVerdict::EmptyLine
            } else {
                match handle_command(args.as_slice()) {
                    Ok(command) => LineVerdict::Run(command),
                    Err(error) => LineVerdict::Rejected(error),
                }
            }
        },
    }
}

/// Decides what the prompt does after one read of the line editor.
///
/// No outcome ends the prompt but the end of the input and a failure to
/// read: a line that is no command is reported, and the prompt goes on.
pub fn console(outcome: &ReadOutcome) -> (step: ConsoleStep)
    ensures
        step@ == step_of(*outcome, split_of(*outcome)),
{
    match outcome {
        ReadOutcome::Line(line) => {
            let verdict = judge_line(split_line(line.as_str()));
            let record = match verdict {
                LineVerdict::EmptyLine => false,
                _ => true,
            };
            ConsoleStep::Handle { verdict, record }
        },
        ReadOutcome::Interrupted => ConsoleStep::Interrupted,
        ReadOutcome::Eof => ConsoleStep::Exit { success: true },
        ReadOutcome::Failed => ConsoleStep::Exit { success: false },
    }
}

/// What the operator is told about a line.
pub open spec fn notice_text(verdict: LineVerdictView) -> Option<Seq<char>> {
    match verdict {
        LineVerdictView::Run(_) => None,
        LineVerdictView::Rejected(error) => Some("Failed to parse command: "@ + error_text(error)),
        LineVerdictView::SplitFailed => Some("Failed to split"@),
        LineVerdictView::EmptyLine => Some("Empty line"@),
    }
}

/// The characters of an optional text.
pub open spec fn notice_view(notice: Option<String>) -> Option<Seq<char>> {
    match notice {
        Some(text) => Some(text@),
        None => None,
    }
}

impl LineVerdict {
    /// What to tell the operator about the line; nothing where it is a
    /// command.
    pub fn notice(&self) -> (notice: Option<String>)
        ensures
            notice_view(notice) == notice_text(self@),
    {
        match self {
            LineVerdict::Run(_) => None,
            LineVerdict::Rejected(error) => {
                let mut text = "Failed to parse command: ".to_owned();
                let reason = error.message();
                text.append(reason.as_str());
                Some(text)
            },
            LineVerdict::SplitFailed => Some("Failed to split".to_owned()),
            LineVerdict::EmptyLine => Some("Empty line".to_owned()),
        }
    }
}

/// Whatever the line editor hands back, the prompt leaves only at the end of
/// the input or when reading fails: no line, however malformed, ends it.
pub proof fn lemma_only_input_ends_the_prompt(outcome: ReadOutcome, split: Option<Seq<Seq<char>>>)
    ensures
        step_of(outcome, split) is Exit <==> (outcome is Eof || outcome is Failed),
        outcome is Line ==> step_of(outcome, split) is Handle,
{
}

} // verus!
