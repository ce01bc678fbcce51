//! The batch reaction: a reaction sent to each message of a channel, as one
//! target account after the other.
//!
//! The network calls and the pauses are made by the caller. This module
//! decides what is done next: `BatchRun::step` takes the outcome of the last
//! action and gives the next one.
//!
//! The accounts are served strictly in turn, and the first failure ends the
//! whole run: the accounts after the failing one are not attempted.

use crate::cmds::BatchReaction;
use crate::state::{
    clients_of, resolve_targets, targets_of, AccountRegistry, AutoShitClient, TargetError,
};
use crate::text::{decimal_text, i64_text};
use vstd::prelude::*;
use vstd::string::StringExecFns;

verus! {

/// The shortest pause between two reactions, in milliseconds.
pub const MIN_DELAY_MS: u64 = 1000;

/// The longest pause between two reactions, in milliseconds.
pub const MAX_DELAY_MS: u64 = 20000;

/// `rand::random_range` on `lo..=hi`, with the thread's generator: some
/// number of that range.
#[verifier::external_body]
fn random_between(lo: u64, hi: u64) -> (drawn: u64)
    requires
        lo <= hi,
    ensures
        lo <= drawn <= hi,
{
    rand::random_range(lo..=hi)
}

/// Why a run ended before its work was done.
#[derive(Debug, Clone, Copy, PartialEq, Eq)]
pub enum BatchFailure {
    /// The channel's name resolved to no chat for this account.
    ChatNotFound { account: i64 },
    /// A call to the platform failed for this account.
    CallFailed { account: i64 },
    /// The caller reported an outcome that answers no action of the run.
    OutOfTurn,
}

/// Where a run stands.
#[derive(Debug, Clone, Copy, PartialEq, Eq)]
pub enum Phase {
    /// The channel is being resolved for the current account.
    Resolving,
    /// The next message is being fetched.
    Listing,
    /// The reaction to `message` is being sent.
    Reacting { message: i32 },
    /// The run pauses after a reaction.
    Pacing,
    /// Every account has been served.
    Finished,
    /// The run has failed.
    Failed(BatchFailure),
}

/// The outcome of the action that was last asked for.
#[derive(Debug, Clone, Copy, PartialEq, Eq)]
pub enum BatchEvent {
    /// The channel's name was looked up; `found` says whether there is such
    /// a chat.
    ChatResolved { found: bool },
    /// The listing gave its next message, or has ended.
    Message(Option<i32>),
    /// The reaction was sent.
    ReactionSent,
    /// The pause is over.
    Slept,
    /// The call failed.
    CallFailed,
}

/// What the caller does next.
#[derive(Debug, Clone, PartialEq, Eq)]
pub enum BatchAction {
    /// Resolve the channel's name as `account`.
    ResolveChat { account: i64, channel: String },
    /// Open the listing of the chat's messages with this offset and limit,
    /// and fetch its first message.
    ListMessages { account: i64, offset: Option<i32>, limit: Option<usize> },
    /// Fetch the next message of the open listing.
    NextMessage { account: i64 },
    /// Send the reaction to `message` as `account`.
    SendReaction { account: i64, message: i32, reaction: String },
    /// Tell the operator that `message` has its reaction, then wait for
    /// `millis` milliseconds.
    Pause { account: i64, message: i32, millis: u64 },
    /// The run is complete.
    Done,
    /// The run has failed; nothing more is to be done.
    Abort(BatchFailure),
}

/// A batch reaction under way.
#[derive(Debug, Clone, PartialEq, Eq)]
pub struct BatchRun {
    /// Channel username.
    pub channel: String,
    /// The reaction to send.
    pub reaction: String,
    /// Offset message identifier.
    pub start: Option<i32>,
    /// Limit on the number of messages per account.
    pub limit: Option<usize>,
    /// The accounts to act as, in the order in which they are served.
    pub targets: Vec<i64>,
    /// The position in `targets` of the account being served.
    pub current: usize,
    pub phase: Phase,
}

impl BatchRun {
    /// Whether the run is over, for better or worse.
    pub open spec fn is_over(self) -> bool {
        self.phase is Finished || self.phase is Failed
    }

    /// The run in another phase.
    pub open spec fn in_phase(self, phase: Phase) -> BatchRun {
        BatchRun { phase, ..self }
    }

    /// The run and the action after it failed with `failure`.
    pub open spec fn failed(self, failure: BatchFailure) -> (BatchRun, BatchAction) {
        (self.in_phase(Phase::Failed(failure)), BatchAction::Abort(failure))
    }

    /// The run and the action when the account at `position` is taken up,
    /// or when there is no such account.
    pub open spec fn taking_up(self, position: int) -> (BatchRun, BatchAction) {
        if 0 <= position < self.targets@.len() {
            (
                BatchRun { current: position as usize, phase: Phase::Resolving, ..self },
                BatchAction::ResolveChat {
                    account: self.targets@[position],
                    channel: self.channel,
                },
            )
        } else {
            (self.in_phase(Phase::Finished), BatchAction::Done)
        }
    }

    /// The run and the next action after `event`, where a pause would last
    /// `delay` milliseconds.
    pub open spec fn step_of(self, event: BatchEvent, delay: u64) -> (BatchRun, BatchAction) {
        if self.phase is Finished {
            (self, BatchAction::Done)
        } else if self.phase is Failed {
            (self, BatchAction::Abort(self.phase->Failed_0))
        } else if self.current >= self.targets@.len() {
            (self.in_phase(Phase::Finished), BatchAction::Done)
        } else {
            let account = self.targets@[self.current as int];
            match (self.phase, event) {
                (_, BatchEvent::CallFailed) => self.failed(BatchFailure::CallFailed { account }),
                (Phase::Resolving, BatchEvent::ChatResolved { found }) => if found {
                    (
                        self.in_phase(Phase::Listing),
                        BatchAction::ListMessages {
                            account,
                            offset: self.start,
                            limit: self.limit,
                        },
                    )
                } else {
                    self.failed(BatchFailure::ChatNotFound { account })
                },
                (Phase::Listing, BatchEvent::Message(Some(message))) => (
                    self.in_phase(Phase::Reacting { message }),
                    BatchAction::SendReaction { account, message, reaction: self.reaction },
                ),
                (Phase::Listing, BatchEvent::Message(None)) => self.taking_up(self.current + 1),
                (Phase::Reacting { message }, BatchEvent::ReactionSent) => (
                    self.in_phase(Phase::Pacing),
                    BatchAction::Pause { account, message, millis: delay },
                ),
                (Phase::Pacing, BatchEvent::Slept) => (
                    self.in_phase(Phase::Listing),
                    BatchAction::NextMessage { account },
                ),
                _ => self.failed(BatchFailure::OutOfTurn),
            }
        }
    }

    /// A run of `command` as the accounts `targets`, and its first action.
    pub fn begin(command: &BatchReaction, targets: Vec<i64>) -> (begun: (BatchRun, BatchAction))
        ensures
            begun == (BatchRun {
                channel: command.channel,
                reaction: command.reaction,
                start: command.start,
                limit: command.limit,
                targets,
                current: 0,
                phase: Phase::Resolving,
            }).taking_up(0),
    {
        let mut run = BatchRun {
            channel: command.channel.clone(),
            reaction: command.reaction.clone(),
            start: command.start,
            limit: command.limit,
            targets,
            current: 0,
            phase: Phase::Resolving,
        };
        let action = run.take_up(0);
        (run, action)
    }

    /// Takes up the account at `position`, or finishes where there is none.
    fn take_up(&mut self, position: usize) -> (action: BatchAction)
        ensures
            (*final(self), action) == old(self).taking_up(position as int),
    {
        if position < self.targets.len() {
            self.current = position;
            self.phase = Phase::Resolving;
            BatchAction::ResolveChat { account: self.targets[position], channel: self.channel.clone() }
        } else {
            self.phase = Phase::Finished;
            BatchAction::Done
        }
    }

    fn fail(&mut self, failure: BatchFailure) -> (action: BatchAction)
        ensures
            (*final(self), action) == old(self).failed(failure),
    {
        self.phase = Phase::Failed(failure);
        BatchAction::Abort(failure)
    }

    /// Takes the outcome of the last action and gives the next action. A
    /// pause, if one is due, lasts `delay` milliseconds.
    pub fn step(&mut self, event: BatchEvent, delay: u64) -> (action: BatchAction)
        requires
            MIN_DELAY_MS <= delay <= MAX_DELAY_MS,
        ensures
            (*final(self), action) == old(self).step_of(event, delay),
    {
        match self.phase {
            Phase::Finished => {
                return BatchAction::Done;
            },
            Phase::Failed(failure) => {
                return BatchAction::Abort(failure);
            },
            _ => {},
        }
        if self.current >= self.targets.len() {
            self.phase = Phase::Finished;
            return BatchAction::Done;
        }
        let account = self.targets[self.current];
        match event {
            BatchEvent::CallFailed => {
                return self.fail(BatchFailure::CallFailed { account });
            },
            _ => {},
        }
        match (self.phase, event) {
            (Phase::Resolving, BatchEvent::ChatResolved { found }) => {
                if found {
                    self.phase = Phase::Listing;
                    BatchAction::ListMessages { account, offset: self.start, limit: self.limit }
                } else {
                    self.fail(BatchFailure::ChatNotFound { account })
                }
            },
            (Phase::Listing, BatchEvent::Message(Some(message))) => {
                self.phase = Phase::Reacting { message };
                BatchAction::SendReaction { account, message, reaction: self.reaction.clone() }
            },
            (Phase::Listing, BatchEvent::Message(None)) => {
                let next = self.current + 1;
                self.take_up(next)
            },
            (Phase::Reacting { message }, BatchEvent::ReactionSent) => {
                self.phase = Phase::Pacing;
                BatchAction::Pause { account, message, millis: delay }
            },
            (Phase::Pacing, BatchEvent::Slept) => {
                self.phase = Phase::Listing;
                BatchAction::NextMessage { account }
            },
            _ => self.fail(BatchFailure::OutOfTurn),
        }
    }

    /// Takes the outcome of the last action and gives the next action. A
    /// pause, if one is due, lasts a time drawn at random between the
    /// shortest and the longest pause.
    pub fn advance(&mut self, event: BatchEvent) -> (action: BatchAction)
        ensures
            exists|delay: u64|
                MIN_DELAY_MS <= delay <= MAX_DELAY_MS && (*final(self), action) == #[trigger] old(
                    self,
                ).step_of(event, delay),
    {
        let delay = random_between(MIN_DELAY_MS, MAX_DELAY_MS);
        self.step(event, delay)
    }
}

/// The identifiers of the accounts that `clients` are logged in as.
pub open spec fn account_ids(clients: Seq<AutoShitClient>) -> Seq<i64> {
    clients.map_values(|client: AutoShitClient| client.me.id)
}

/// The run of `command` as `targets`, before anything was done.
pub open spec fn fresh_run(command: BatchReaction, targets: Vec<i64>) -> BatchRun {
    BatchRun {
        channel: command.channel,
        reaction: command.reaction,
        start: command.start,
        limit: command.limit,
        targets,
        current: 0,
        phase: Phase::Resolving,
    }
}

/// Starts a batch reaction: resolves the accounts that `command` names in
/// `registry`, and begins a run as those accounts, in the order in which
/// they were resolved. Nothing is begun where the targets do not resolve.
pub fn batch_reaction_command(registry: &AccountRegistry, command: &BatchReaction) -> (begun: Result<
    (BatchRun, BatchAction),
    TargetError,
>)
    requires
        registry.wf(),
    ensures
        match begun {
            Ok((run, action)) => exists|clients: Seq<AutoShitClient>| #[trigger]
                targets_of(
                    command.client@,
                    registry@,
                    Ok::<Seq<AutoShitClient>, TargetError>(clients),
                ) && run.targets@ == account_ids(clients) && (run, action) == fresh_run(
                    *command,
                    run.targets,
                ).taking_up(0),
            Err(error) => targets_of(
                command.client@,
                registry@,
                Err::<Seq<AutoShitClient>, TargetError>(error),
            ),
        },
{
    match resolve_targets(registry, command.client.as_slice()) {
        Err(error) => Err(error),
        Ok(handles) => {
            let mut targets: Vec<i64> = Vec::new();
            let n: usize = handles.len();
            let mut i: usize = 0;
            while i < n
                invariant
                    n == handles@.len(),
                    i <= n,
                    targets@.len() == i,
                    forall|k: int| 0 <= k < i ==> targets@[k] == (#[trigger] handles@[k]).me.id,
                decreases n - i,
            {
                targets.push(handles[i].me.id);
                i = i + 1;
            }
            proof {
                assert(targets@ =~= account_ids(clients_of(handles@)));
            }
            Ok(BatchRun::begin(command, targets))
        },
    }
}

/// Each message that the listing yields gets its reaction: one send for the
/// message that was just fetched, as the account being served and with the
/// reaction of the command. The run keeps no record of earlier messages, so
/// a message that comes again is sent to again.
pub proof fn lemma_one_send_per_message(run: BatchRun, message: i32, delay: u64)
    requires
        run.phase == Phase::Listing,
        run.current < run.targets@.len(),
    ensures
        run.step_of(BatchEvent::Message(Some(message)), delay).1 == (BatchAction::SendReaction {
            account: run.targets@[run.current as int],
            message,
            reaction: run.reaction,
        }),
        ({
            let sending = run.step_of(BatchEvent::Message(Some(message)), delay).0;
            let pausing = sending.step_of(BatchEvent::ReactionSent, delay);
            let resumed = pausing.0.step_of(BatchEvent::Slept, delay);
            &&& pausing.1 == (BatchAction::Pause {
                account: run.targets@[run.current as int],
                message,
                millis: delay,
            })
            &&& resumed.1 == (BatchAction::NextMessage { account: run.targets@[run.current as int] })
            &&& resumed.0 == run
        }),
{
}

/// A failure ends the run for good: whatever is reported afterwards, the
/// run gives the same failure back and asks for nothing more. The accounts
/// after the failing one are not attempted.
pub proof fn lemma_failure_is_final(run: BatchRun, event: BatchEvent, delay: u64)
    requires
        run.phase is Failed,
    ensures
        run.step_of(event, delay) == (run, BatchAction::Abort(run.phase->Failed_0)),
{
}

/// Whatever happens, a step asks for a pause only within the bounds, and
/// only right after a reaction was sent.
pub proof fn lemma_pause_is_bounded(run: BatchRun, event: BatchEvent, delay: u64)
    requires
        MIN_DELAY_MS <= delay <= MAX_DELAY_MS,
    ensures
        run.step_of(event, delay).1 matches BatchAction::Pause { millis, .. } ==> MIN_DELAY_MS
            <= millis <= MAX_DELAY_MS && run.phase is Reacting && event is ReactionSent,
{
}

/// What the operator is told when a run has failed.
pub open spec fn failure_text(failure: BatchFailure) -> Seq<char> {
    match failure {
        BatchFailure::ChatNotFound { account } => "Chat not found for account "@ + decimal_text(
            account as int,
        ),
        BatchFailure::CallFailed { account } => "Request failed for account "@ + decimal_text(
            account as int,
        ),
        BatchFailure::OutOfTurn => "Outcome reported out of turn"@,
    }
}

/// What the operator is told once a message has its reaction.
pub open spec fn progress_text(message: i32) -> Seq<char> {
    "Sent reaction to message "@ + decimal_text(message as int)
}

impl BatchFailure {
    /// What went wrong, for the operator to read.
    pub fn message(&self) -> (text: String)
        ensures
            text@ == failure_text(*self),
    {
        match self {
            BatchFailure::ChatNotFound { account } => {
                let mut text = "Chat not found for account ".to_owned();
                let id = i64_text(*account);
                text.append(id.as_str());
                text
            },
            BatchFailure::CallFailed { account } => {
                let mut text = "Request failed for account ".to_owned();
                let id = i64_text(*account);
                text.append(id.as_str());
                text
            },
            BatchFailure::OutOfTurn => "Outcome reported out of turn".to_owned(),
        }
    }
}

/// Writes the progress notice for `message`.
pub fn progress_notice(message: i32) -> (text: String)
    ensures
        text@ == progress_text(message),
{
    let mut text = "Sent reaction to message ".to_owned();
    let id = i64_text(message as i64);
    text.append(id.as_str());
    text
}

/// The run after the outcomes `events` were reported one by one, and the
/// actions that it asked for on the way. Every pause lasts `delay`.
pub open spec fn run_through(run: BatchRun, events: Seq<BatchEvent>, delay: u64) -> (
    BatchRun,
    Seq<BatchAction>,
)
    decreases events.len(),
{
    if events.len() == 0 {
        (run, Seq::empty())
    } else {
        let before = run_through(run, events.drop_last(), delay);
        let next = before.0.step_of(events.last(), delay);
        (next.0, before.1.push(next.1))
    }
}

/// The reactions that `actions` ask to send: the account and the message
/// of each, in order.
pub open spec fn sends(actions: Seq<BatchAction>) -> Seq<(i64, i32)>
    decreases actions.len(),
{
    if actions.len() == 0 {
        Seq::empty()
    } else {
        match actions.last() {
            BatchAction::SendReaction { account, message, .. } => sends(actions.drop_last()).push(
                (account, message),
            ),
            _ => sends(actions.drop_last()),
        }
    }
}

/// What is reported while the listing yields `messages` and each reaction
/// succeeds: for each message, that it was listed, that the reaction was
/// sent, and that the pause is over.
pub open spec fn message_events(messages: Seq<i32>) -> Seq<BatchEvent>
    decreases messages.len(),
{
    if messages.len() == 0 {
        Seq::empty()
    } else {
        message_events(messages.drop_last()) + seq![
            BatchEvent::Message(Some(messages.last())),
            BatchEvent::ReactionSent,
            BatchEvent::Slept,
        ]
    }
}

/// What is reported while one account is served without failure and its
/// listing yields `messages`: the chat is found, the messages are dealt
/// with, and the listing ends.
pub open spec fn account_events(messages: Seq<i32>) -> Seq<BatchEvent> {
    seq![BatchEvent::ChatResolved { found: true }] + message_events(messages) + seq![
        BatchEvent::Message(None),
    ]
}

/// What is reported while the accounts are served without failure, where
/// the listing of the i-th account yields `messages[i]`.
pub open spec fn all_events(messages: Seq<Seq<i32>>) -> Seq<BatchEvent>
    decreases messages.len(),
{
    if messages.len() == 0 {
        Seq::empty()
    } else {
        all_events(messages.drop_last()) + account_events(messages.last())
    }
}

/// One reaction as `account` to each of `messages`, in order.
pub open spec fn account_sends(account: i64, messages: Seq<i32>) -> Seq<(i64, i32)> {
    messages.map_values(|message: i32| (account, message))
}

/// One reaction to each message of each account's listing: all of the
/// first account's, then all of the second's, and so on.
pub open spec fn sends_in_turn(targets: Seq<i64>, messages: Seq<Seq<i32>>) -> Seq<(i64, i32)>
    decreases targets.len(),
{
    if targets.len() == 0 || messages.len() == 0 {
        Seq::empty()
    } else {
        sends_in_turn(targets.drop_last(), messages.drop_last()) + account_sends(
            targets.last(),
            messages.last(),
        )
    }
}

/// Reporting `first` and then `then` is reporting them one after the other.
pub proof fn lemma_run_through_concat(
    run: BatchRun,
    first: Seq<BatchEvent>,
    then: Seq<BatchEvent>,
    delay: u64,
)
    ensures
        run_through(run, first + then, delay) == ({
            let mid = run_through(run, first, delay);
            let end = run_through(mid.0, then, delay);
            (end.0, mid.1 + end.1)
        }),
    decreases then.len(),
{
    let mid = run_through(run, first, delay);
    if then.len() == 0 {
        assert(first + then =~= first);
        assert(mid.1 + Seq::<BatchAction>::empty() =~= mid.1);
    } else {
        assert((first + then).drop_last() =~= first + then.drop_last());
        assert((first + then).last() == then.last());
        lemma_run_through_concat(run, first, then.drop_last(), delay);
        let before = run_through(mid.0, then.drop_last(), delay);
        let next = before.0.step_of(then.last(), delay);
        assert((mid.1 + before.1).push(next.1) =~= mid.1 + before.1.push(next.1));
    }
}

/// The reactions of two runs of actions are those of the first, then those
/// of the second.
pub proof fn lemma_sends_concat(first: Seq<BatchAction>, then: Seq<BatchAction>)
    ensures
        sends(first + then) == sends(first) + sends(then),
    decreases then.len(),
{
    if then.len() == 0 {
        assert(first + then =~= first);
        assert(sends(first) + Seq::<(i64, i32)>::empty() =~= sends(first));
    } else {
        assert((first + then).drop_last() =~= first + then.drop_last());
        assert((first + then).last() == then.last());
        lemma_sends_concat(first, then.drop_last());
        match then.last() {
            BatchAction::SendReaction { account, message, .. } => {
                assert((sends(first) + sends(then.drop_last())).push((account, message))
                    =~= sends(first) + sends(then.drop_last()).push((account, message)));
            },
            _ => {},
        }
    }
}

/// While the listing of the account being served yields `messages`, each
/// of them gets one reaction as that account, in the order of the listing,
/// and the run is back at listing afterwards.
pub proof fn lemma_messages_each_get_one_send(run: BatchRun, messages: Seq<i32>, delay: u64)
    requires
        run.phase == Phase::Listing,
        run.current < run.targets@.len(),
    ensures
        run_through(run, message_events(messages), delay).0 == run,
        sends(run_through(run, message_events(messages), delay).1) == account_sends(
            run.targets@[run.current as int],
            messages,
        ),
    decreases messages.len(),
{
    let account = run.targets@[run.current as int];
    if messages.len() == 0 {
        assert(account_sends(account, messages) =~= Seq::<(i64, i32)>::empty());
    } else {
        let earlier = messages.drop_last();
        let message = messages.last();
        let three = seq![
            BatchEvent::Message(Some(message)),
            BatchEvent::ReactionSent,
            BatchEvent::Slept,
        ];
        lemma_messages_each_get_one_send(run, earlier, delay);
        lemma_run_through_concat(run, message_events(earlier), three, delay);
        let sending = run.step_of(three[0], delay);
        let pausing = sending.0.step_of(three[1], delay);
        let resumed = pausing.0.step_of(three[2], delay);
        assert(run_through(run, three, delay) == (
            resumed.0,
            seq![sending.1, pausing.1, resumed.1],
        )) by {
            reveal_with_fuel(run_through, 4);
            assert(three.drop_last() =~= seq![three[0], three[1]]);
            assert(three.drop_last().drop_last() =~= seq![three[0]]);
            assert(three.drop_last().drop_last().drop_last() =~= Seq::<BatchEvent>::empty());
            assert(Seq::<BatchAction>::empty().push(sending.1).push(pausing.1).push(resumed.1)
                =~= seq![sending.1, pausing.1, resumed.1]);
        }
        let asked = seq![sending.1, pausing.1, resumed.1];
        assert(sends(asked) =~= seq![(account, message)]) by {
            reveal_with_fuel(sends, 4);
            assert(asked.drop_last() =~= seq![sending.1, pausing.1]);
            assert(asked.drop_last().drop_last() =~= seq![sending.1]);
            assert(asked.drop_last().drop_last().drop_last() =~= Seq::<BatchAction>::empty());
        }
        lemma_sends_concat(run_through(run, message_events(earlier), delay).1, asked);
        assert(account_sends(account, earlier) + seq![(account, message)] =~= account_sends(
            account,
            messages,
        ));
    }
}

/// Serving one account without failure sends one reaction to each message
/// of its listing, and then takes up the next account.
pub proof fn lemma_account_is_served(run: BatchRun, messages: Seq<i32>, delay: u64)
    requires
        run.phase == Phase::Resolving,
        run.current < run.targets@.len(),
    ensures
        run_through(run, account_events(messages), delay).0 == run.in_phase(
            Phase::Listing,
        ).taking_up(run.current + 1).0,
        sends(run_through(run, account_events(messages), delay).1) == account_sends(
            run.targets@[run.current as int],
            messages,
        ),
{
    let account = run.targets@[run.current as int];
    let found = seq![BatchEvent::ChatResolved { found: true }];
    let ended = seq![BatchEvent::Message(None)];
    let listing = run.in_phase(Phase::Listing);
    let opened = run.step_of(found[0], delay);
    assert(run_through(run, found, delay) == (listing, seq![opened.1])) by {
        reveal_with_fuel(run_through, 2);
        assert(found.drop_last() =~= Seq::<BatchEvent>::empty());
        assert(Seq::<BatchAction>::empty().push(opened.1) =~= seq![opened.1]);
    }
    lemma_messages_each_get_one_send(listing, messages, delay);
    let closed = listing.step_of(ended[0], delay);
    assert(run_through(listing, ended, delay) == (closed.0, seq![closed.1])) by {
        reveal_with_fuel(run_through, 2);
        assert(ended.drop_last() =~= Seq::<BatchEvent>::empty());
        assert(Seq::<BatchAction>::empty().push(closed.1) =~= seq![closed.1]);
    }
    lemma_run_through_concat(run, found, message_events(messages), delay);
    lemma_run_through_concat(run, found + message_events(messages), ended, delay);
    let during = run_through(listing, message_events(messages), delay).1;
    lemma_sends_concat(seq![opened.1], during);
    lemma_sends_concat(seq![opened.1] + during, seq![closed.1]);
    assert(sends(seq![opened.1]) =~= Seq::<(i64, i32)>::empty()) by {
        reveal_with_fuel(sends, 2);
        assert(seq![opened.1].drop_last() =~= Seq::<BatchAction>::empty());
    }
    assert(sends(seq![closed.1]) =~= Seq::<(i64, i32)>::empty()) by {
        reveal_with_fuel(sends, 2);
        assert(seq![closed.1].drop_last() =~= Seq::<BatchAction>::empty());
    }
    assert(Seq::<(i64, i32)>::empty() + account_sends(account, messages) + Seq::<
        (i64, i32),
    >::empty() =~= account_sends(account, messages));
}

/// After the first `served` accounts were served without failure, each
/// message of their listings has had one reaction, account by account, and
/// the run has taken up the next account or is finished.
pub proof fn lemma_first_accounts_served(
    run: BatchRun,
    messages: Seq<Seq<i32>>,
    served: int,
    delay: u64,
)
    requires
        run.phase == Phase::Resolving,
        run.current == 0,
        messages.len() == run.targets@.len(),
        0 <= served <= run.targets@.len(),
        run.targets@.len() > 0,
    ensures
        sends(run_through(run, all_events(messages.take(served)), delay).1) == sends_in_turn(
            run.targets@.take(served),
            messages.take(served),
        ),
        served < run.targets@.len() ==> run_through(
            run,
            all_events(messages.take(served)),
            delay,
        ).0 == (BatchRun { current: served as usize, ..run }),
        served == run.targets@.len() ==> run_through(
            run,
            all_events(messages.take(served)),
            delay,
        ).0 == (BatchRun { current: (served - 1) as usize, phase: Phase::Finished, ..run }),
    decreases served,
{
    let targets = run.targets@;
    assert(targets.len() == run.targets.len());
    if served == 0 {
        assert(messages.take(0) =~= Seq::<Seq<i32>>::empty());
        assert(all_events(messages.take(0)) =~= Seq::<BatchEvent>::empty());
        assert(sends_in_turn(targets.take(0), messages.take(0)) =~= Seq::<(i64, i32)>::empty());
        assert(sends(Seq::<BatchAction>::empty()) =~= Seq::<(i64, i32)>::empty());
        assert(run == (BatchRun { current: 0, ..run }));
    } else {
        let upto = messages.take(served);
        let earlier = messages.take(served - 1);
        assert(upto.drop_last() =~= earlier);
        assert(upto.last() == messages[served - 1]);
        assert(targets.take(served).drop_last() =~= targets.take(served - 1));
        assert(targets.take(served).last() == targets[served - 1]);
        lemma_first_accounts_served(run, messages, served - 1, delay);
        let mid = run_through(run, all_events(earlier), delay);
        let serving = BatchRun { current: (served - 1) as usize, ..run };
        assert(mid.0 == serving);
        lemma_account_is_served(serving, messages[served - 1], delay);
        lemma_run_through_concat(run, all_events(earlier), account_events(messages[served - 1]), delay);
        lemma_sends_concat(
            mid.1,
            run_through(serving, account_events(messages[served - 1]), delay).1,
        );
    }
}

/// A run that meets no failure serves its accounts strictly in turn: every
/// message of the first account's listing gets one reaction as the first
/// account, then every message of the second account's listing gets one as
/// the second account, and so on to the last; then the run is finished.
/// No reaction is left out, none is sent twice for one listing of a
/// message, and no two accounts are ever interleaved.
pub proof fn lemma_accounts_served_in_turn(run: BatchRun, messages: Seq<Seq<i32>>, delay: u64)
    requires
        run.phase == Phase::Resolving,
        run.current == 0,
        messages.len() == run.targets@.len(),
        run.targets@.len() > 0,
    ensures
        run_through(run, all_events(messages), delay).0.phase == Phase::Finished,
        sends(run_through(run, all_events(messages), delay).1) == sends_in_turn(
            run.targets@,
            messages,
        ),
{
    let n = run.targets@.len() as int;
    lemma_first_accounts_served(run, messages, n, delay);
    assert(messages.take(n) =~= messages);
    assert(run.targets@.take(n) =~= run.targets@);
}

/// Once a run has failed, whatever is reported afterwards changes nothing
/// and sends nothing: the accounts after the failing one get no reaction.
pub proof fn lemma_nothing_sent_after_failure(run: BatchRun, events: Seq<BatchEvent>, delay: u64)
    requires
        run.phase is Failed,
    ensures
        run_through(run, events, delay).0 == run,
        sends(run_through(run, events, delay).1) == Seq::<(i64, i32)>::empty(),
    decreases events.len(),
{
    if events.len() > 0 {
        lemma_nothing_sent_after_failure(run, events.drop_last(), delay);
        let before = run_through(run, events.drop_last(), delay);
        let next = before.0.step_of(events.last(), delay);
        assert(before.1.push(next.1).drop_last() =~= before.1);
    }
}

} // verus!
