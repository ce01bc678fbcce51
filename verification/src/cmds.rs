//! The commands of the interactive prompt and their grammar.
//!
//! A line arrives as a list of tokens. The first token names the command;
//! the rest are its options and arguments:
//!
//! ```text
//! login [--phone|-p <string>]
//! batch-reaction <channel> [--reaction|-r <string>] [--start|-s <int>]
//!                [--limit|-l <count>] [--client|-c <int>...]
//! ```
//!
//! An option's value follows in the next token or is attached to the option
//! (`--start=5`, `-s5`, `-s=5`). A token that starts with `-` is never taken
//! for a value that stands alone. `--client` takes any number of
//! identifiers, up to the next option; `--` ends the options.

use crate::text::{
    chars_of, decimal_text, digits_text, find_char, i32_value, i64_value, is_digit,
    lemma_decimal_round_trip, lemma_digits_text_value, lemma_prefix_before,
    lemma_prefix_before_range, parse_i32, parse_i64, parse_usize, prefix_before, slice_chars,
    string_of, usize_value,
};
use vstd::prelude::*;
use vstd::string::StringExecFns;

verus! {

/// The reaction that is sent where a command names none.
pub const DEFAULT_REACTION: &'static str = "🤡";

/// A command of the prompt.
#[derive(Debug, Clone, Copy, PartialEq, Eq)]
pub enum Subcommand {
    Login,
    BatchReaction,
}

/// An option of a command.
#[derive(Debug, Clone, Copy, PartialEq, Eq)]
pub enum OptionKey {
    Phone,
    Reaction,
    Start,
    Limit,
    Client,
}

/// Add a reaction to the messages of a channel.
#[derive(Debug, Clone, PartialEq, Eq)]
pub struct BatchReaction {
    /// Channel username.
    pub channel: String,
    /// Reaction string, usually an emoji.
    pub reaction: String,
    /// Offset message identifier.
    pub start: Option<i32>,
    /// Limit on the number of messages.
    pub limit: Option<usize>,
    /// Identifiers of the accounts to act as; zero stands for all of them.
    pub client: Vec<i64>,
}

/// What the operator asked for.
#[derive(Debug, Clone, PartialEq, Eq)]
pub enum Commands {
    /// Log in with phone number verification. Without a phone number the
    /// operator is asked for one.
    Login { phone: Option<String> },
    /// Add a reaction to messages.
    BatchReaction(BatchReaction),
}

/// Why a list of tokens is no command.
#[derive(Debug, Clone, PartialEq, Eq)]
pub enum CommandError {
    /// There is no token at all.
    MissingCommand,
    /// The first token names no command.
    UnknownCommand(String),
    /// The token looks like an option, and the command has none by that name.
    UnknownOption(String),
    /// The option was not followed by the value it needs.
    MissingValue(OptionKey),
    /// The option was given twice, and takes one value only.
    DuplicateOption(OptionKey),
    /// The value does not denote what the option takes.
    InvalidValue { option: OptionKey, value: String },
    /// The token is an argument, and the command takes no further argument.
    UnexpectedArgument(String),
    /// The command needs a channel, and none was given.
    MissingChannel,
}

/// A `BatchReaction` with its texts as sequences of characters.
pub struct BatchReactionView {
    pub channel: Seq<char>,
    pub reaction: Seq<char>,
    pub start: Option<i32>,
    pub limit: Option<usize>,
    pub client: Seq<i64>,
}

/// A command with its texts as sequences of characters.
pub enum CommandsView {
    Login { phone: Option<Seq<char>> },
    BatchReaction(BatchReactionView),
}

/// A `CommandError` with its texts as sequences of characters.
pub enum CommandErrorView {
    MissingCommand,
    UnknownCommand(Seq<char>),
    UnknownOption(Seq<char>),
    MissingValue(OptionKey),
    DuplicateOption(OptionKey),
    InvalidValue { option: OptionKey, value: Seq<char> },
    UnexpectedArgument(Seq<char>),
    MissingChannel,
}

/// The characters of an optional text.
pub open spec fn text_view(text: Option<String>) -> Option<Seq<char>> {
    match text {
        Some(t) => Some(t@),
        None => None,
    }
}

impl View for BatchReaction {
    type V = BatchReactionView;

    open spec fn view(&self) -> BatchReactionView {
        BatchReactionView {
            channel: self.channel@,
            reaction: self.reaction@,
            start: self.start,
            limit: self.limit,
            client: self.client@,
        }
    }
}

impl View for Commands {
    type V = CommandsView;

    open spec fn view(&self) -> CommandsView {
        match *self {
            Commands::Login { phone } => CommandsView::Login { phone: text_view(phone) },
            Commands::BatchReaction(batch) => CommandsView::BatchReaction(batch@),
        }
    }
}

impl View for CommandError {
    type V = CommandErrorView;

    open spec fn view(&self) -> CommandErrorView {
        match *self {
            CommandError::MissingCommand => CommandErrorView::MissingCommand,
            CommandError::UnknownCommand(name) => CommandErrorView::UnknownCommand(name@),
            CommandError::UnknownOption(token) => CommandErrorView::UnknownOption(token@),
            CommandError::MissingValue(key) => CommandErrorView::MissingValue(key),
            CommandError::DuplicateOption(key) => CommandErrorView::DuplicateOption(key),
            CommandError::InvalidValue { option, value } => CommandErrorView::InvalidValue {
                option,
                value: value@,
            },
            CommandError::UnexpectedArgument(token) => CommandErrorView::UnexpectedArgument(
                token@,
            ),
            CommandError::MissingChannel => CommandErrorView::MissingChannel,
        }
    }
}

/// The shape of one token.
pub enum Token {
    /// `--`: what follows are arguments, whatever they look like.
    Escape,
    /// `--name` or `--name=value`.
    Long { name: Seq<char>, value: Option<Seq<char>> },
    /// `-f`, `-fvalue` or `-f=value`.
    Short { flag: char, value: Option<Seq<char>> },
    /// Anything else, `-` alone included: a value or an argument.
    Bare,
}

/// The shape of the token `t`.
pub open spec fn classify(t: Seq<char>) -> Token {
    if t.len() >= 2 && t[0] == '-' && t[1] == '-' {
        let body = t.skip(2);
        let split = prefix_before(body, '=');
        if body.len() == 0 {
            Token::Escape
        } else if split < body.len() {
            Token::Long { name: body.take(split), value: Some(body.skip(split + 1)) }
        } else {
            Token::Long { name: body, value: None }
        }
    } else if t.len() >= 2 && t[0] == '-' {
        let rest = t.skip(2);
        if rest.len() == 0 {
            Token::Short { flag: t[1], value: None }
        } else if rest[0] == '=' {
            Token::Short { flag: t[1], value: Some(rest.skip(1)) }
        } else {
            Token::Short { flag: t[1], value: Some(rest) }
        }
    } else {
        Token::Bare
    }
}

/// The option that `--name` selects in the command `sub`.
pub open spec fn long_key(sub: Subcommand, name: Seq<char>) -> Option<OptionKey> {
    match sub {
        Subcommand::Login => if name == "phone"@ {
            Some(OptionKey::Phone)
        } else {
            None
        },
        Subcommand::BatchReaction => if name == "reaction"@ {
            Some(OptionKey::Reaction)
        } else if name == "start"@ {
            Some(OptionKey::Start)
        } else if name == "limit"@ {
            Some(OptionKey::Limit)
        } else if name == "client"@ {
            Some(OptionKey::Client)
        } else {
            None
        },
    }
}

/// The option that `-flag` selects in the command `sub`.
pub open spec fn short_key(sub: Subcommand, flag: char) -> Option<OptionKey> {
    match sub {
        Subcommand::Login => if flag == 'p' {
            Some(OptionKey::Phone)
        } else {
            None
        },
        Subcommand::BatchReaction => if flag == 'r' {
            Some(OptionKey::Reaction)
        } else if flag == 's' {
            Some(OptionKey::Start)
        } else if flag == 'l' {
            Some(OptionKey::Limit)
        } else if flag == 'c' {
            Some(OptionKey::Client)
        } else {
            None
        },
    }
}

/// Whether the option takes exactly one value and may be given once.
pub open spec fn is_single(key: OptionKey) -> bool {
    key != OptionKey::Client
}

/// The account identifiers written in `s`, separated by single spaces; the
/// first piece that denotes none is the error.
pub open spec fn ids_in(s: Seq<char>) -> Result<Seq<i64>, Seq<char>>
    decreases s.len(),
    via ids_in_decreases
{
    let k = prefix_before(s, ' ');
    let piece = s.take(k);
    match i64_value(piece) {
        None => Err(piece),
        Some(id) => if k >= s.len() {
            Ok(seq![id])
        } else {
            match ids_in(s.skip(k + 1)) {
                Ok(rest) => Ok(seq![id] + rest),
                Err(bad) => Err(bad),
            }
        },
    }
}

#[via_fn]
proof fn ids_in_decreases(s: Seq<char>) {
    lemma_prefix_before_range(s, ' ');
}

/// What has been read of a command so far.
pub struct ScanView {
    pub phone: Option<Seq<char>>,
    pub channel: Option<Seq<char>>,
    pub reaction: Option<Seq<char>>,
    pub start: Option<i32>,
    pub limit: Option<usize>,
    pub client: Seq<i64>,
    /// The option whose value the next token may be.
    pub pending: Option<OptionKey>,
    /// Whether `--` has been read.
    pub trailing: bool,
}

/// Nothing read yet.
pub open spec fn scan_start() -> ScanView {
    ScanView {
        phone: None,
        channel: None,
        reaction: None,
        start: None,
        limit: None,
        client: Seq::empty(),
        pending: None,
        trailing: false,
    }
}

/// Whether the option has its value already.
pub open spec fn is_set(scan: ScanView, key: OptionKey) -> bool {
    match key {
        OptionKey::Phone => scan.phone is Some,
        OptionKey::Reaction => scan.reaction is Some,
        OptionKey::Start => scan.start is Some,
        OptionKey::Limit => scan.limit is Some,
        OptionKey::Client => false,
    }
}

/// The scan after `value` was read as a value of `key`. Texts are taken as
/// they are; numbers must be written in decimal notation and fit the option.
pub open spec fn store(scan: ScanView, key: OptionKey, value: Seq<char>) -> Result<
    ScanView,
    CommandErrorView,
> {
    match key {
        OptionKey::Phone => Ok(ScanView { phone: Some(value), ..scan }),
        OptionKey::Reaction => Ok(ScanView { reaction: Some(value), ..scan }),
        OptionKey::Start => match i32_value(value) {
            Some(start) => Ok(ScanView { start: Some(start), ..scan }),
            None => Err(CommandErrorView::InvalidValue { option: key, value }),
        },
        OptionKey::Limit => match usize_value(value) {
            Some(limit) => Ok(ScanView { limit: Some(limit), ..scan }),
            None => Err(CommandErrorView::InvalidValue { option: key, value }),
        },
        OptionKey::Client => match ids_in(value) {
            Ok(ids) => Ok(ScanView { client: scan.client + ids, ..scan }),
            Err(bad) => Err(CommandErrorView::InvalidValue { option: key, value: bad }),
        },
    }
}

/// The scan after the option `key` was read, with the value attached to it
/// if there was one.
pub open spec fn option_read(scan: ScanView, key: OptionKey, attached: Option<Seq<char>>) -> Result<
    ScanView,
    CommandErrorView,
> {
    if scan.pending is Some && is_single(scan.pending->0) {
        Err(CommandErrorView::MissingValue(scan.pending->0))
    } else if is_set(scan, key) {
        Err(CommandErrorView::DuplicateOption(key))
    } else {
        match attached {
            Some(value) => store(ScanView { pending: None, ..scan }, key, value),
            None => Ok(ScanView { pending: Some(key), ..scan }),
        }
    }
}

/// The scan after `token` was read as an argument: the channel of
/// `batch-reaction`, once.
pub open spec fn argument_read(sub: Subcommand, scan: ScanView, token: Seq<char>) -> Result<
    ScanView,
    CommandErrorView,
> {
    if scan.pending is Some && is_single(scan.pending->0) {
        Err(CommandErrorView::MissingValue(scan.pending->0))
    } else if sub == Subcommand::BatchReaction && scan.channel is None {
        Ok(ScanView { channel: Some(token), pending: None, ..scan })
    } else {
        Err(CommandErrorView::UnexpectedArgument(token))
    }
}

/// The scan after one more token.
pub open spec fn token_read(sub: Subcommand, scan: ScanView, token: Seq<char>) -> Result<
    ScanView,
    CommandErrorView,
> {
    if scan.trailing {
        argument_read(sub, scan, token)
    } else {
        match classify(token) {
            Token::Escape => if scan.pending is Some && is_single(scan.pending->0) {
                Err(CommandErrorView::MissingValue(scan.pending->0))
            } else {
                Ok(ScanView { pending: None, trailing: true, ..scan })
            },
            Token::Long { name, value } => match long_key(sub, name) {
                Some(key) => option_read(scan, key, value),
                None => Err(CommandErrorView::UnknownOption(token)),
            },
            Token::Short { flag, value } => match short_key(sub, flag) {
                Some(key) => option_read(scan, key, value),
                None => Err(CommandErrorView::UnknownOption(token)),
            },
            Token::Bare => match scan.pending {
                Some(key) => match store(scan, key, token) {
                    Ok(stored) => Ok(
                        ScanView {
                            pending: if is_single(key) {
                                None
                            } else {
                                Some(key)
                            },
                            ..stored
                        },
                    ),
                    Err(error) => Err(error),
                },
                None => argument_read(sub, scan, token),
            },
        }
    }
}

/// The command that was read, once the tokens have run out.
pub open spec fn scan_end(sub: Subcommand, scan: ScanView) -> Result<CommandsView, CommandErrorView> {
    if scan.pending is Some && is_single(scan.pending->0) {
        Err(CommandErrorView::MissingValue(scan.pending->0))
    } else {
        match sub {
            Subcommand::Login => Ok(CommandsView::Login { phone: scan.phone }),
            Subcommand::BatchReaction => match scan.channel {
                None => Err(CommandErrorView::MissingChannel),
                Some(channel) => Ok(
                    CommandsView::BatchReaction(
                        BatchReactionView {
                            channel,
                            reaction: match scan.reaction {
                                Some(reaction) => reaction,
                                None => DEFAULT_REACTION@,
                            },
                            start: scan.start,
                            limit: scan.limit,
                            client: scan.client,
                        },
                    ),
                ),
            },
        }
    }
}

/// The command that the tokens after the command's name denote: they are
/// read from left to right, and the first one that cannot be read is the
/// error.
pub open spec fn scan_tokens(sub: Subcommand, scan: ScanView, tokens: Seq<Seq<char>>) -> Result<
    CommandsView,
    CommandErrorView,
>
    decreases tokens.len(),
{
    if tokens.len() == 0 {
        scan_end(sub, scan)
    } else {
        match token_read(sub, scan, tokens[0]) {
            Ok(next) => scan_tokens(sub, next, tokens.skip(1)),
            Err(error) => Err(error),
        }
    }
}

/// The command that a line's tokens denote.
pub open spec fn command_of(tokens: Seq<Seq<char>>) -> Result<CommandsView, CommandErrorView> {
    if tokens.len() == 0 {
        Err(CommandErrorView::MissingCommand)
    } else if tokens[0] == "login"@ {
        scan_tokens(Subcommand::Login, scan_start(), tokens.skip(1))
    } else if tokens[0] == "batch-reaction"@ {
        scan_tokens(Subcommand::BatchReaction, scan_start(), tokens.skip(1))
    } else {
        Err(CommandErrorView::UnknownCommand(tokens[0]))
    }
}

/// The tokens of a line, each as its characters.
pub open spec fn tokens_view(args: Seq<String>) -> Seq<Seq<char>> {
    args.map_values(|arg: String| arg@)
}

/// A parse result with its texts as sequences of characters.
pub open spec fn parsed_view(parsed: Result<Commands, CommandError>) -> Result<
    CommandsView,
    CommandErrorView,
> {
    match parsed {
        Ok(command) => Ok(command@),
        Err(error) => Err(error@),
    }
}

/// What has been read of a command so far.
struct Scan {
    phone: Option<String>,
    channel: Option<String>,
    reaction: Option<String>,
    start: Option<i32>,
    limit: Option<usize>,
    client: Vec<i64>,
    pending: Option<OptionKey>,
    trailing: bool,
}

impl View for Scan {
    type V = ScanView;

    closed spec fn view(&self) -> ScanView {
        ScanView {
            phone: text_view(self.phone),
            channel: text_view(self.channel),
            reaction: text_view(self.reaction),
            start: self.start,
            limit: self.limit,
            client: self.client@,
            pending: self.pending,
            trailing: self.trailing,
        }
    }
}

/// A scan or an error, with texts as sequences of characters.
spec fn scanned_view(scanned: Result<Scan, CommandError>) -> Result<ScanView, CommandErrorView> {
    match scanned {
        Ok(scan) => Ok(scan@),
        Err(error) => Err(error@),
    }
}

/// Whether `chars` spells `text`.
fn is_text(chars: &Vec<char>, text: &str) -> (same: bool)
    ensures
        same == (chars@ == text@),
{
    let spelled = string_of(chars);
    let wanted = text.to_owned();
    spelled == wanted
}

fn read_long_key(sub: Subcommand, name: &Vec<char>) -> (key: Option<OptionKey>)
    ensures
        key == long_key(sub, name@),
{
    match sub {
        Subcommand::Login => if is_text(name, "phone") {
            Some(OptionKey::Phone)
        } else {
            None
        },
        Subcommand::BatchReaction => if is_text(name, "reaction") {
            Some(OptionKey::Reaction)
        } else if is_text(name, "start") {
            Some(OptionKey::Start)
        } else if is_text(name, "limit") {
            Some(OptionKey::Limit)
        } else if is_text(name, "client") {
            Some(OptionKey::Client)
        } else {
            None
        },
    }
}

fn read_short_key(sub: Subcommand, flag: char) -> (key: Option<OptionKey>)
    ensures
        key == short_key(sub, flag),
{
    match sub {
        Subcommand::Login => if flag == 'p' {
            Some(OptionKey::Phone)
        } else {
            None
        },
        Subcommand::BatchReaction => if flag == 'r' {
            Some(OptionKey::Reaction)
        } else if flag == 's' {
            Some(OptionKey::Start)
        } else if flag == 'l' {
            Some(OptionKey::Limit)
        } else if flag == 'c' {
            Some(OptionKey::Client)
        } else {
            None
        },
    }
}

/// The identifiers read so far, followed by what the rest gives.
spec fn ids_after(done: Seq<i64>, rest: Result<Seq<i64>, Seq<char>>) -> Result<Seq<i64>, Seq<char>> {
    match rest {
        Ok(more) => Ok(done + more),
        Err(bad) => Err(bad),
    }
}

spec fn ids_view(read: Result<Vec<i64>, Vec<char>>) -> Result<Seq<i64>, Seq<char>> {
    match read {
        Ok(ids) => Ok(ids@),
        Err(bad) => Err(bad@),
    }
}

/// Reads account identifiers separated by single spaces.
fn read_ids(value: &Vec<char>) -> (read: Result<Vec<i64>, Vec<char>>)
    ensures
        ids_view(read) == ids_in(value@),
{
    let n: usize = value.len();
    let mut ids: Vec<i64> = Vec::new();
    let mut from: usize = 0;
    proof {
        assert(value@.skip(0) =~= value@);
        assert(Seq::<i64>::empty() + ids_in(value@)->Ok_0 =~= ids_in(value@)->Ok_0);
    }
    loop
        invariant
            n == value@.len(),
            from <= n,
            ids_in(value@) == ids_after(ids@, ids_in(value@.skip(from as int))),
        decreases n - from,
    {
        let at = find_char(value, from, ' ');
        let piece = slice_chars(value, from, at);
        let ghost rest = value@.skip(from as int);
        let ghost done = ids@;
        proof {
            assert(piece@ =~= rest.take(at - from));
        }
        match parse_i64(&piece) {
            None => {
                return Err(piece);
            },
            Some(id) => {
                ids.push(id);
                if at >= n {
                    proof {
                        assert(done + seq![id] =~= ids@);
                    }
                    return Ok(ids);
                }
                proof {
                    assert(rest.skip(at - from + 1) =~= value@.skip(at + 1));
                    let tail = ids_in(value@.skip(at + 1));
                    if tail is Ok {
                        assert(done + (seq![id] + tail->Ok_0) =~= ids@ + tail->Ok_0);
                    }
                }
                from = at + 1;
            },
        }
    }
}

/// Stores `value` as a value of the option `key`.
fn store_value(scan: Scan, key: OptionKey, value: &Vec<char>) -> (stored: Result<
    Scan,
    CommandError,
>)
    ensures
        scanned_view(stored) == store(scan@, key, value@),
{
    let mut scan = scan;
    match key {
        OptionKey::Phone => {
            scan.phone = Some(string_of(value));
            Ok(scan)
        },
        OptionKey::Reaction => {
            scan.reaction = Some(string_of(value));
            Ok(scan)
        },
        OptionKey::Start => match parse_i32(value) {
            Some(start) => {
                scan.start = Some(start);
                Ok(scan)
            },
            None => Err(CommandError::InvalidValue { option: key, value: string_of(value) }),
        },
        OptionKey::Limit => match parse_usize(value) {
            Some(limit) => {
                scan.limit = Some(limit);
                Ok(scan)
            },
            None => Err(CommandError::InvalidValue { option: key, value: string_of(value) }),
        },
        OptionKey::Client => match read_ids(value) {
            Ok(ids) => {
                let mut ids = ids;
                scan.client.append(&mut ids);
                Ok(scan)
            },
            Err(bad) => Err(CommandError::InvalidValue { option: key, value: string_of(&bad) }),
        },
    }
}

/// The option whose value is still owed, if one is.
fn owed_value(scan: &Scan) -> (owed: Option<OptionKey>)
    ensures
        owed == if scan@.pending is Some && is_single(scan@.pending->0) {
            scan@.pending
        } else {
            None
        },
{
    match scan.pending {
        Some(OptionKey::Client) => None,
        Some(key) => Some(key),
        None => None,
    }
}

fn has_value(scan: &Scan, key: OptionKey) -> (set: bool)
    ensures
        set == is_set(scan@, key),
{
    match key {
        OptionKey::Phone => scan.phone.is_some(),
        OptionKey::Reaction => scan.reaction.is_some(),
        OptionKey::Start => scan.start.is_some(),
        OptionKey::Limit => scan.limit.is_some(),
        OptionKey::Client => false,
    }
}

/// The characters of an attached value.
spec fn attached_view(attached: Option<Vec<char>>) -> Option<Seq<char>> {
    match attached {
        Some(value) => Some(value@),
        None => None,
    }
}

fn read_option(scan: Scan, key: OptionKey, attached: Option<Vec<char>>) -> (read: Result<
    Scan,
    CommandError,
>)
    ensures
        scanned_view(read) == option_read(scan@, key, attached_view(attached)),
{
    let mut scan = scan;
    match owed_value(&scan) {
        Some(owed) => {
            return Err(CommandError::MissingValue(owed));
        },
        None => {},
    }
    if has_value(&scan, key) {
        return Err(CommandError::DuplicateOption(key));
    }
    match attached {
        Some(value) => {
            scan.pending = None;
            store_value(scan, key, &value)
        },
        None => {
            scan.pending = Some(key);
            Ok(scan)
        },
    }
}

fn read_argument(sub: Subcommand, scan: Scan, token: &Vec<char>) -> (read: Result<
    Scan,
    CommandError,
>)
    ensures
        scanned_view(read) == argument_read(sub, scan@, token@),
{
    let mut scan = scan;
    match owed_value(&scan) {
        Some(owed) => {
            return Err(CommandError::MissingValue(owed));
        },
        None => {},
    }
    match sub {
        Subcommand::BatchReaction => {
            if scan.channel.is_none() {
                scan.channel = Some(string_of(token));
                scan.pending = None;
                return Ok(scan);
            }
        },
        Subcommand::Login => {},
    }
    Err(CommandError::UnexpectedArgument(string_of(token)))
}

fn read_token(sub: Subcommand, scan: Scan, token: &Vec<char>) -> (read: Result<Scan, CommandError>)
    ensures
        scanned_view(read) == token_read(sub, scan@, token@),
{
    let mut scan = scan;
    let n: usize = token.len();
    if scan.trailing {
        return read_argument(sub, scan, token);
    }
    if n >= 2 && token[0] == '-' && token[1] == '-' {
        let split = find_char(token, 2, '=');
        proof {
            let body = token@.skip(2);
            assert(body.take(split - 2) =~= token@.subrange(2, split as int));
            if split < n {
                assert(body.skip(split - 2 + 1) =~= token@.subrange(split + 1, n as int));
            }
            assert(body =~= token@.subrange(2, n as int));
        }
        if n == 2 {
            match owed_value(&scan) {
                Some(owed) => {
                    return Err(CommandError::MissingValue(owed));
                },
                None => {},
            }
            scan.pending = None;
            scan.trailing = true;
            return Ok(scan);
        }
        let name = slice_chars(token, 2, split);
        let attached = if split < n {
            Some(slice_chars(token, split + 1, n))
        } else {
            None
        };
        return match read_long_key(sub, &name) {
            Some(key) => read_option(scan, key, attached),
            None => Err(CommandError::UnknownOption(string_of(token))),
        };
    }
    if n >= 2 && token[0] == '-' {
        let attached = if n == 2 {
            None
        } else if token[2] == '=' {
            Some(slice_chars(token, 3, n))
        } else {
            Some(slice_chars(token, 2, n))
        };
        proof {
            let rest = token@.skip(2);
            assert(rest =~= token@.subrange(2, n as int));
            if n > 2 {
                assert(rest.skip(1) =~= token@.subrange(3, n as int));
            }
        }
        return match read_short_key(sub, token[1]) {
            Some(key) => read_option(scan, key, attached),
            None => Err(CommandError::UnknownOption(string_of(token))),
        };
    }
    match scan.pending {
        Some(key) => match store_value(scan, key, token) {
            Ok(stored) => {
                let mut stored = stored;
                stored.pending = match key {
                    OptionKey::Client => Some(key),
                    _ => None,
                };
                Ok(stored)
            },
            Err(error) => Err(error),
        },
        None => read_argument(sub, scan, token),
    }
}

fn finish(sub: Subcommand, scan: Scan) -> (parsed: Result<Commands, CommandError>)
    ensures
        parsed_view(parsed) == scan_end(sub, scan@),
{
    match owed_value(&scan) {
        Some(owed) => {
            return Err(CommandError::MissingValue(owed));
        },
        None => {},
    }
    match sub {
        Subcommand::Login => Ok(Commands::Login { phone: scan.phone }),
        Subcommand::BatchReaction => match scan.channel {
            None => Err(CommandError::MissingChannel),
            Some(channel) => {
                let reaction = match scan.reaction {
                    Some(reaction) => reaction,
                    None => DEFAULT_REACTION.to_owned(),
                };
                Ok(
                    Commands::BatchReaction(
                        BatchReaction {
                            channel,
                            reaction,
                            start: scan.start,
                            limit: scan.limit,
                            client: scan.client,
                        },
                    ),
                )
            },
        },
    }
}

/// Reads the tokens of one line as a command.
///
/// Every list of tokens is either a command or an error that says which
/// token could not be read and why; there is no input on which this fails
/// in any other way.
pub fn handle_command(args: &[String]) -> (parsed: Result<Commands, CommandError>)
    ensures
        parsed_view(parsed) == command_of(tokens_view(args@)),
{
    let n: usize = args.len();
    if n == 0 {
        return Err(CommandError::MissingCommand);
    }
    let ghost tokens = tokens_view(args@);
    let name = chars_of(args[0].as_str());
    let sub = if is_text(&name, "login") {
        Subcommand::Login
    } else if is_text(&name, "batch-reaction") {
        Subcommand::BatchReaction
    } else {
        return Err(CommandError::UnknownCommand(string_of(&name)));
    };
    let mut scan = Scan {
        phone: None,
        channel: None,
        reaction: None,
        start: None,
        limit: None,
        client: Vec::new(),
        pending: None,
        trailing: false,
    };
    let mut i: usize = 1;
    proof {
        assert(tokens.skip(1) =~= tokens.subrange(1, n as int));
    }
    while i < n
        invariant
            n == args@.len(),
            1 <= i <= n,
            tokens == tokens_view(args@),
            command_of(tokens) == scan_tokens(sub, scan@, tokens.subrange(i as int, n as int)),
        decreases n - i,
    {
        let token = chars_of(args[i].as_str());
        proof {
            let rest = tokens.subrange(i as int, n as int);
            assert(rest[0] == token@);
            assert(rest.skip(1) =~= tokens.subrange(i + 1, n as int));
        }
        match read_token(sub, scan, &token) {
            Ok(next) => {
                scan = next;
            },
            Err(error) => {
                return Err(error);
            },
        }
        i = i + 1;
    }
    finish(sub, scan)
}

/// What the prompt accepts, for the operator to read.
pub const USAGE: &'static str =
    "usage: login [--phone|-p <string>] | batch-reaction <channel> [--reaction|-r <string>] [--start|-s <int>] [--limit|-l <count>] [--client|-c <int>...]";

/// The way an option is written in full.
pub open spec fn option_name(key: OptionKey) -> Seq<char> {
    match key {
        OptionKey::Phone => "--phone"@,
        OptionKey::Reaction => "--reaction"@,
        OptionKey::Start => "--start"@,
        OptionKey::Limit => "--limit"@,
        OptionKey::Client => "--client"@,
    }
}

/// What went wrong, in words.
pub open spec fn error_reason(error: CommandErrorView) -> Seq<char> {
    match error {
        CommandErrorView::MissingCommand => "a command is required"@,
        CommandErrorView::UnknownCommand(name) => "unrecognized command '"@ + name + "'"@,
        CommandErrorView::UnknownOption(token) => "unexpected option '"@ + token + "'"@,
        CommandErrorView::MissingValue(key) => "a value is required for '"@ + option_name(key)
            + "' but none was supplied"@,
        CommandErrorView::DuplicateOption(key) => "the option '"@ + option_name(key)
            + "' cannot be used multiple times"@,
        CommandErrorView::InvalidValue { option, value } => "invalid value '"@ + value
            + "' for '"@ + option_name(option) + "'"@,
        CommandErrorView::UnexpectedArgument(token) => "unexpected argument '"@ + token + "'"@,
        CommandErrorView::MissingChannel => "the channel is required"@,
    }
}

/// What the operator is told: the reason, then what was expected.
pub open spec fn error_text(error: CommandErrorView) -> Seq<char> {
    error_reason(error) + "\n"@ + USAGE@
}

impl OptionKey {
    /// The way this option is written in full.
    pub fn name(&self) -> (name: &'static str)
        ensures
            name@ == option_name(*self),
    {
        match self {
            OptionKey::Phone => "--phone",
            OptionKey::Reaction => "--reaction",
            OptionKey::Start => "--start",
            OptionKey::Limit => "--limit",
            OptionKey::Client => "--client",
        }
    }
}

/// `before`, `middle` and `after` in one text.
fn quoted(before: &str, middle: &str, after: &str) -> (text: String)
    ensures
        text@ == before@ + middle@ + after@,
{
    let mut text = before.to_owned();
    text.append(middle);
    text.append(after);
    text
}

impl CommandError {
    /// What went wrong and what was expected, for the operator to read.
    pub fn message(&self) -> (text: String)
        ensures
            text@ == error_text(self@),
    {
        let mut text = match self {
            CommandError::MissingCommand => "a command is required".to_owned(),
            CommandError::UnknownCommand(name) => quoted(
                "unrecognized command '",
                name.as_str(),
                "'",
            ),
            CommandError::UnknownOption(token) => quoted(
                "unexpected option '",
                token.as_str(),
                "'",
            ),
            CommandError::MissingValue(key) => quoted(
                "a value is required for '",
                key.name(),
                "' but none was supplied",
            ),
            CommandError::DuplicateOption(key) => quoted(
                "the option '",
                key.name(),
                "' cannot be used multiple times",
            ),
            CommandError::InvalidValue { option, value } => {
                let mut text = quoted("invalid value '", value.as_str(), "' for '");
                text.append(option.name());
                text.append("'");
                text
            },
            CommandError::UnexpectedArgument(token) => quoted(
                "unexpected argument '",
                token.as_str(),
                "'",
            ),
            CommandError::MissingChannel => "the channel is required".to_owned(),
        };
        text.append("\n");
        text.append(USAGE);
        text
    }
}

/// The name of an option without its dashes.
pub open spec fn long_name(key: OptionKey) -> Seq<char> {
    match key {
        OptionKey::Phone => "phone"@,
        OptionKey::Reaction => "reaction"@,
        OptionKey::Start => "start"@,
        OptionKey::Limit => "limit"@,
        OptionKey::Client => "client"@,
    }
}

/// Whether the command `sub` has the option `key`.
pub open spec fn has_option(sub: Subcommand, key: OptionKey) -> bool {
    match sub {
        Subcommand::Login => key == OptionKey::Phone,
        Subcommand::BatchReaction => key != OptionKey::Phone,
    }
}

/// An option with its value attached: `--name=value`.
pub open spec fn option_token(key: OptionKey, value: Seq<char>) -> Seq<char> {
    seq!['-', '-'] + long_name(key) + seq!['='] + value
}

/// The token of an option that may be absent.
pub open spec fn optional_token(key: OptionKey, value: Option<Seq<char>>) -> Seq<Seq<char>> {
    match value {
        Some(value) => seq![option_token(key, value)],
        None => Seq::empty(),
    }
}

/// One `--client=id` for each identifier.
pub open spec fn client_tokens(ids: Seq<i64>) -> Seq<Seq<char>> {
    ids.map_values(|id: i64| option_token(OptionKey::Client, decimal_text(id as int)))
}

/// A command written down in full: every option with its value attached,
/// and the channel behind `--`.
pub open spec fn written(command: CommandsView) -> Seq<Seq<char>> {
    match command {
        CommandsView::Login { phone } => seq!["login"@] + optional_token(OptionKey::Phone, phone),
        CommandsView::BatchReaction(batch) => seq![
            "batch-reaction"@,
            option_token(OptionKey::Reaction, batch.reaction),
        ] + optional_token(
            OptionKey::Start,
            match batch.start {
                Some(start) => Some(decimal_text(start as int)),
                None => None,
            },
        ) + optional_token(
            OptionKey::Limit,
            match batch.limit {
                Some(limit) => Some(decimal_text(limit as int)),
                None => None,
            },
        ) + client_tokens(batch.client) + seq![seq!['-', '-'], batch.channel],
    }
}

/// An option written with its value attached is read as that option with
/// that value, whatever the value holds.
pub proof fn lemma_option_token_is_read(sub: Subcommand, key: OptionKey, value: Seq<char>)
    requires
        has_option(sub, key),
    ensures
        classify(option_token(key, value)) == (Token::Long {
            name: long_name(key),
            value: Some(value),
        }),
        long_key(sub, long_name(key)) == Some(key),
{
    reveal_strlit("phone");
    reveal_strlit("reaction");
    reveal_strlit("start");
    reveal_strlit("limit");
    reveal_strlit("client");
    let name = long_name(key);
    let token = option_token(key, value);
    let body = token.skip(2);
    assert(body =~= name + seq!['='] + value);
    assert(token[0] == '-' && token[1] == '-');
    assert(body[name.len() as int] == '=');
    assert forall|j: int| 0 <= j < name.len() implies body[j] != '=' by {
        assert(body[j] == name[j]);
    }
    lemma_prefix_before(body, '=', name.len() as int);
    assert(body.take(name.len() as int) =~= name);
    assert(body.skip(name.len() as int + 1) =~= value);
    assert("reaction"@.len() == 8 && "start"@[0] == 's' && "limit"@[0] == 'l' && "client"@[0]
        == 'c');
}

/// A number in decimal notation holds no space, so it is read as one
/// account identifier.
pub proof fn lemma_written_id_is_read(id: i64)
    ensures
        ids_in(decimal_text(id as int)) == Ok::<Seq<i64>, Seq<char>>(seq![id]),
{
    let text = decimal_text(id as int);
    lemma_decimal_round_trip(id as int);
    assert forall|j: int| 0 <= j < text.len() implies text[j] != ' ' by {
        if id < 0 {
            lemma_digits_text_value((-id) as nat);
            if j > 0 {
                assert(text[j] == digits_text((-id) as nat)[j - 1]);
                assert(is_digit(digits_text((-id) as nat)[j - 1]));
            }
        } else {
            lemma_digits_text_value(id as nat);
            assert(is_digit(text[j]));
        }
    }
    lemma_prefix_before(text, ' ', text.len() as int);
    assert(text.take(text.len() as int) =~= text);
}

/// Reading a list of tokens is reading its first token, then the rest.
pub proof fn lemma_scan_first(
    sub: Subcommand,
    scan: ScanView,
    first: Seq<char>,
    rest: Seq<Seq<char>>,
)
    ensures
        scan_tokens(sub, scan, seq![first] + rest) == match token_read(sub, scan, first) {
            Ok(next) => scan_tokens(sub, next, rest),
            Err(error) => Err(error),
        },
{
    let tokens = seq![first] + rest;
    assert(tokens[0] == first);
    assert(tokens.skip(1) =~= rest);
}

/// Reading `--client=id` for each of `ids` adds exactly `ids` to the
/// targets, in order.
pub proof fn lemma_client_tokens_are_read(scan: ScanView, ids: Seq<i64>, rest: Seq<Seq<char>>)
    requires
        !scan.trailing,
        scan.pending is None,
    ensures
        scan_tokens(Subcommand::BatchReaction, scan, client_tokens(ids) + rest) == scan_tokens(
            Subcommand::BatchReaction,
            ScanView { client: scan.client + ids, ..scan },
            rest,
        ),
    decreases ids.len(),
{
    let sub = Subcommand::BatchReaction;
    if ids.len() == 0 {
        assert(client_tokens(ids) + rest =~= rest);
        assert(scan.client + ids =~= scan.client);
    } else {
        let id = ids[0];
        let first = option_token(OptionKey::Client, decimal_text(id as int));
        let later = ids.skip(1);
        assert(client_tokens(ids) + rest =~= seq![first] + (client_tokens(later) + rest));
        lemma_scan_first(sub, scan, first, client_tokens(later) + rest);
        lemma_option_token_is_read(sub, OptionKey::Client, decimal_text(id as int));
        lemma_written_id_is_read(id);
        let next = ScanView { client: scan.client + seq![id], ..scan };
        assert(token_read(sub, scan, first) == Ok::<ScanView, CommandErrorView>(next));
        lemma_client_tokens_are_read(next, later, rest);
        assert(scan.client + seq![id] + later =~= scan.client + ids);
    }
}

/// Every command can be written down, and what was written is read back as
/// the same command: the grammar leaves no command out, and reads no
/// command as another.
pub proof fn lemma_written_command_is_read(command: CommandsView)
    ensures
        command_of(written(command)) == Ok::<CommandsView, CommandErrorView>(command),
{
    reveal_strlit("login");
    reveal_strlit("batch-reaction");
    assert("login"@.len() == 5 && "batch-reaction"@.len() == 14);
    let tokens = written(command);
    match command {
        CommandsView::Login { phone } => {
            let sub = Subcommand::Login;
            let options = optional_token(OptionKey::Phone, phone);
            assert(tokens[0] == "login"@);
            assert(tokens.skip(1) =~= options);
            match phone {
                Some(number) => {
                    let token = option_token(OptionKey::Phone, number);
                    assert(options =~= seq![token] + Seq::<Seq<char>>::empty());
                    lemma_scan_first(sub, scan_start(), token, Seq::empty());
                    lemma_option_token_is_read(sub, OptionKey::Phone, number);
                },
                None => {},
            }
        },
        CommandsView::BatchReaction(batch) => {
            let sub = Subcommand::BatchReaction;
            let reaction = option_token(OptionKey::Reaction, batch.reaction);
            let start = optional_token(
                OptionKey::Start,
                match batch.start {
                    Some(start) => Some(decimal_text(start as int)),
                    None => None,
                },
            );
            let limit = optional_token(
                OptionKey::Limit,
                match batch.limit {
                    Some(limit) => Some(decimal_text(limit as int)),
                    None => None,
                },
            );
            let escape = seq!['-', '-'];
            let tail = seq![escape, batch.channel];
            assert(tokens[0] == "batch-reaction"@);
            assert(tokens.skip(1) =~= seq![reaction] + (start + (limit + (client_tokens(
                batch.client,
            ) + tail))));
            // The reaction.
            lemma_scan_first(
                sub,
                scan_start(),
                reaction,
                start + (limit + (client_tokens(batch.client) + tail)),
            );
            lemma_option_token_is_read(sub, OptionKey::Reaction, batch.reaction);
            let after_reaction = ScanView { reaction: Some(batch.reaction), ..scan_start() };
            assert(token_read(sub, scan_start(), reaction) == Ok::<ScanView, CommandErrorView>(
                after_reaction,
            ));
            // The offset.
            let after_start = ScanView { start: batch.start, ..after_reaction };
            match batch.start {
                Some(offset) => {
                    let token = option_token(OptionKey::Start, decimal_text(offset as int));
                    assert(start + (limit + (client_tokens(batch.client) + tail)) =~= seq![token]
                        + (limit + (client_tokens(batch.client) + tail)));
                    lemma_scan_first(
                        sub,
                        after_reaction,
                        token,
                        limit + (client_tokens(batch.client) + tail),
                    );
                    lemma_option_token_is_read(sub, OptionKey::Start, decimal_text(offset as int));
                    lemma_decimal_round_trip(offset as int);
                    assert(token_read(sub, after_reaction, token) == Ok::<
                        ScanView,
                        CommandErrorView,
                    >(after_start));
                },
                None => {
                    let rest = limit + (client_tokens(batch.client) + tail);
                    assert(start + rest =~= rest);
                    assert(after_start == after_reaction);
                },
            }
            // The limit.
            let after_limit = ScanView { limit: batch.limit, ..after_start };
            match batch.limit {
                Some(count) => {
                    let token = option_token(OptionKey::Limit, decimal_text(count as int));
                    let rest = client_tokens(batch.client) + tail;
                    assert(limit + rest =~= seq![token] + rest);
                    lemma_scan_first(sub, after_start, token, client_tokens(batch.client) + tail);
                    lemma_option_token_is_read(sub, OptionKey::Limit, decimal_text(count as int));
                    lemma_decimal_round_trip(count as int);
                    assert(token_read(sub, after_start, token) == Ok::<ScanView, CommandErrorView>(
                        after_limit,
                    ));
                },
                None => {
                    let rest = client_tokens(batch.client) + tail;
                    assert(limit + rest =~= rest);
                    assert(after_limit == after_start);
                },
            }
            // The targets.
            lemma_client_tokens_are_read(after_limit, batch.client, tail);
            let after_clients = ScanView { client: batch.client, ..after_limit };
            assert(after_limit.client + batch.client =~= batch.client);
            // The escape and the channel.
            assert(tail =~= seq![escape] + seq![batch.channel]);
            lemma_scan_first(sub, after_clients, escape, seq![batch.channel]);
            assert(classify(escape) == Token::Escape) by {
                assert(escape.skip(2) =~= Seq::<char>::empty());
            }
            let after_escape = ScanView { trailing: true, ..after_clients };
            assert(token_read(sub, after_clients, escape) == Ok::<ScanView, CommandErrorView>(
                after_escape,
            ));
            assert(seq![batch.channel] =~= seq![batch.channel] + Seq::<Seq<char>>::empty());
            lemma_scan_first(sub, after_escape, batch.channel, Seq::empty());
        },
    }
}

} // verus!
