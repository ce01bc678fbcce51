use auto_shit::cmds::{handle_command, BatchReaction, CommandError, Commands, OptionKey};

fn tokens(words: &[&str]) -> Vec<String> {
    words.iter().map(|w| w.to_string()).collect()
}

fn parse(words: &[&str]) -> Result<Commands, CommandError> {
    handle_command(&tokens(words))
}

fn batch(channel: &str, reaction: &str, start: Option<i32>, limit: Option<usize>, client: &[i64]) -> Commands {
    Commands::BatchReaction(BatchReaction {
        channel: channel.to_string(),
        reaction: reaction.to_string(),
        start,
        limit,
        client: client.to_vec(),
    })
}

#[test]
fn login_without_phone() {
    assert_eq!(parse(&["login"]), Ok(Commands::Login { phone: None }));
}

#[test]
fn login_with_phone_in_every_spelling() {
    let wanted = Ok(Commands::Login { phone: Some("+4915".to_string()) });
    assert_eq!(parse(&["login", "--phone", "+4915"]), wanted);
    assert_eq!(parse(&["login", "--phone=+4915"]), wanted);
    assert_eq!(parse(&["login", "-p", "+4915"]), wanted);
    assert_eq!(parse(&["login", "-p+4915"]), wanted);
    assert_eq!(parse(&["login", "-p=+4915"]), wanted);
}

#[test]
fn batch_reaction_defaults() {
    assert_eq!(parse(&["batch-reaction", "somechannel"]), Ok(batch("somechannel", "🤡", None, None, &[])));
}

#[test]
fn batch_reaction_with_all_options() {
    assert_eq!(
        parse(&["batch-reaction", "chan", "-r", "👍", "--start", "10", "-l", "5", "-c", "111", "222"]),
        Ok(batch("chan", "👍", Some(10), Some(5), &[111, 222]))
    );
}

#[test]
fn batch_reaction_two_clients_then_limit() {
    assert_eq!(
        parse(&["batch-reaction", "somechannel", "-c", "111", "222", "-l", "1"]),
        Ok(batch("somechannel", "🤡", None, Some(1), &[111, 222]))
    );
}

#[test]
fn batch_reaction_without_channel_is_a_parse_error() {
    assert_eq!(parse(&["batch-reaction"]), Err(CommandError::MissingChannel));
    let told = CommandError::MissingChannel.message();
    assert!(told.starts_with("the channel is required\nusage: login"));
}

#[test]
fn empty_line_has_no_command() {
    assert_eq!(parse(&[]), Err(CommandError::MissingCommand));
}

#[test]
fn unknown_command_is_named() {
    assert_eq!(parse(&["logout"]), Err(CommandError::UnknownCommand("logout".to_string())));
    assert_eq!(parse(&["--help"]), Err(CommandError::UnknownCommand("--help".to_string())));
}

#[test]
fn unknown_option_is_named() {
    assert_eq!(parse(&["login", "--help"]), Err(CommandError::UnknownOption("--help".to_string())));
    assert_eq!(parse(&["batch-reaction", "c", "-x"]), Err(CommandError::UnknownOption("-x".to_string())));
    assert_eq!(parse(&["batch-reaction", "c", "--phone", "1"]), Err(CommandError::UnknownOption("--phone".to_string())));
}

#[test]
fn option_without_value() {
    assert_eq!(parse(&["login", "-p"]), Err(CommandError::MissingValue(OptionKey::Phone)));
    assert_eq!(parse(&["batch-reaction", "c", "--start"]), Err(CommandError::MissingValue(OptionKey::Start)));
    assert_eq!(parse(&["batch-reaction", "c", "--start", "-l", "1"]), Err(CommandError::MissingValue(OptionKey::Start)));
    assert_eq!(parse(&["batch-reaction", "c", "--start", "--", "1"]), Err(CommandError::MissingValue(OptionKey::Start)));
}

#[test]
fn option_given_twice() {
    assert_eq!(parse(&["login", "-p", "1", "--phone", "2"]), Err(CommandError::DuplicateOption(OptionKey::Phone)));
    assert_eq!(parse(&["batch-reaction", "c", "-s1", "-s2"]), Err(CommandError::DuplicateOption(OptionKey::Start)));
}

#[test]
fn client_may_be_given_twice() {
    assert_eq!(
        parse(&["batch-reaction", "-c", "1", "-c", "2", "3", "--", "c"]),
        Ok(batch("c", "🤡", None, None, &[1, 2, 3]))
    );
}

#[test]
fn client_values_split_on_spaces() {
    assert_eq!(parse(&["batch-reaction", "c", "-c", "1 2", "3"]), Ok(batch("c", "🤡", None, None, &[1, 2, 3])));
    assert_eq!(
        parse(&["batch-reaction", "c", "-c", "1  2"]),
        Err(CommandError::InvalidValue { option: OptionKey::Client, value: "".to_string() })
    );
}

#[test]
fn client_without_values() {
    assert_eq!(parse(&["batch-reaction", "c", "-c"]), Ok(batch("c", "🤡", None, None, &[])));
}

#[test]
fn invalid_numbers_are_reported_with_their_text() {
    assert_eq!(
        parse(&["batch-reaction", "c", "--start", "ten"]),
        Err(CommandError::InvalidValue { option: OptionKey::Start, value: "ten".to_string() })
    );
    assert_eq!(
        parse(&["batch-reaction", "c", "--start=2147483648"]),
        Err(CommandError::InvalidValue { option: OptionKey::Start, value: "2147483648".to_string() })
    );
    assert_eq!(
        parse(&["batch-reaction", "c", "--limit=-1"]),
        Err(CommandError::InvalidValue { option: OptionKey::Limit, value: "-1".to_string() })
    );
    assert_eq!(
        parse(&["batch-reaction", "c", "-c", "1", "x"]),
        Err(CommandError::InvalidValue { option: OptionKey::Client, value: "x".to_string() })
    );
}

#[test]
fn number_limits() {
    assert_eq!(parse(&["batch-reaction", "c", "--start=-2147483648"]), Ok(batch("c", "🤡", Some(i32::MIN), None, &[])));
    assert_eq!(parse(&["batch-reaction", "c", "--start=2147483647"]), Ok(batch("c", "🤡", Some(i32::MAX), None, &[])));
    assert_eq!(
        parse(&["batch-reaction", "c", "-c=-9223372036854775808", "-c=9223372036854775807"]),
        Ok(batch("c", "🤡", None, None, &[i64::MIN, i64::MAX]))
    );
    assert_eq!(
        parse(&["batch-reaction", "c", "-c=9223372036854775808"]),
        Err(CommandError::InvalidValue { option: OptionKey::Client, value: "9223372036854775808".to_string() })
    );
    assert_eq!(parse(&["batch-reaction", "c", "-l", "+007"]), Ok(batch("c", "🤡", None, Some(7), &[])));
}

#[test]
fn second_argument_is_unexpected() {
    assert_eq!(parse(&["batch-reaction", "a", "b"]), Err(CommandError::UnexpectedArgument("b".to_string())));
    assert_eq!(parse(&["login", "a"]), Err(CommandError::UnexpectedArgument("a".to_string())));
}

#[test]
fn escape_makes_anything_an_argument() {
    assert_eq!(parse(&["batch-reaction", "--", "-c"]), Ok(batch("-c", "🤡", None, None, &[])));
    assert_eq!(parse(&["batch-reaction", "-"]), Ok(batch("-", "🤡", None, None, &[])));
}

#[test]
fn error_messages_say_what_was_expected() {
    assert_eq!(
        CommandError::MissingValue(OptionKey::Start).message(),
        format!("a value is required for '--start' but none was supplied\n{}", auto_shit::cmds::USAGE)
    );
    assert_eq!(
        CommandError::InvalidValue { option: OptionKey::Limit, value: "x".to_string() }.message(),
        format!("invalid value 'x' for '--limit'\n{}", auto_shit::cmds::USAGE)
    );
    assert_eq!(
        CommandError::UnknownCommand("foo".to_string()).message(),
        format!("unrecognized command 'foo'\n{}", auto_shit::cmds::USAGE)
    );
}

#[test]
fn a_command_written_in_full_is_read_back() {
    assert_eq!(
        parse(&["batch-reaction", "--reaction=a b=c", "--start=-3", "--limit=4", "--client=1", "--client=-2", "--", "-chan"]),
        Ok(batch("-chan", "a b=c", Some(-3), Some(4), &[1, -2]))
    );
    assert_eq!(parse(&["batch-reaction", "--reaction=", "--", ""]), Ok(batch("", "", None, None, &[])));
    assert_eq!(parse(&["login", "--phone=--phone"]), Ok(Commands::Login { phone: Some("--phone".to_string()) }));
}

#[test]
fn option_names() {
    assert_eq!(OptionKey::Phone.name(), "--phone");
    assert_eq!(OptionKey::Reaction.name(), "--reaction");
    assert_eq!(OptionKey::Start.name(), "--start");
    assert_eq!(OptionKey::Limit.name(), "--limit");
    assert_eq!(OptionKey::Client.name(), "--client");
}
