use ircd::{GrammarError, IrcMessage};

fn message(prefix: Option<&str>, command: &str, parameters: &[&str]) -> IrcMessage {
    IrcMessage {
        prefix: prefix.map(|p| p.to_owned()),
        command: command.to_owned(),
        command_parameters: parameters.iter().map(|p| p.to_string()).collect(),
    }
}

fn parse(s: &str) -> Result<IrcMessage, String> {
    IrcMessage::parse(s).map_err(|e| e.message().to_owned())
}

#[test]
fn command_parameters_not_required() -> Result<(), String> {
    let s = "LIST";
    let irc_message = parse(s)?;

    assert_eq!(irc_message, message(None, "LIST", &[]));

    Ok(())
}

#[test]
fn command_prefix() -> Result<(), String> {
    let s = ":irc.darkscience.net LIST";
    let irc_message = parse(s)?;

    assert_eq!(irc_message, message(Some("irc.darkscience.net"), "LIST", &[]));

    Ok(())
}

#[test]
fn command_parameters() -> Result<(), String> {
    let s = "PRIVMSG Cardinal :this is a test";
    let irc_message = parse(s)?;

    assert_eq!(
        irc_message,
        message(None, "PRIVMSG", &["Cardinal", "this is a test"])
    );

    Ok(())
}

#[test]
fn command_parameters_no_trailer() -> Result<(), String> {
    let s = "MODE #test +v Cardinal";
    let irc_message = parse(s)?;

    assert_eq!(
        irc_message,
        message(None, "MODE", &["#test", "+v", "Cardinal"])
    );

    Ok(())
}

#[test]
fn command_parameter_trailer_only() -> Result<(), String> {
    let s = "PONG :irc.darkscience.net";
    let irc_message = parse(s)?;

    assert_eq!(irc_message, message(None, "PONG", &["irc.darkscience.net"]));

    Ok(())
}

#[test]
fn prefix_with_command_only() {
    assert_eq!(
        IrcMessage::parse(":irc.example.net LIST"),
        Ok(message(Some("irc.example.net"), "LIST", &[]))
    );
}

#[test]
fn trailer_only_example_net() {
    assert_eq!(
        IrcMessage::parse("PONG :irc.example.net"),
        Ok(message(None, "PONG", &["irc.example.net"]))
    );
}

#[test]
fn prefix_and_trailer() {
    assert_eq!(
        IrcMessage::parse(":irc.darkscience.net PRIVMSG Cardinal :this is a test"),
        Ok(message(
            Some("irc.darkscience.net"),
            "PRIVMSG",
            &["Cardinal", "this is a test"]
        ))
    );
}

#[test]
fn empty_line_is_rejected() {
    assert_eq!(IrcMessage::parse(""), Err(GrammarError::Empty));
}

#[test]
fn colon_alone_is_an_invalid_prefix() {
    assert_eq!(IrcMessage::parse(":"), Err(GrammarError::InvalidPrefix));
    assert_eq!(IrcMessage::parse(":irc.example.net"), Err(GrammarError::InvalidPrefix));
}

#[test]
fn empty_prefix_is_rejected() {
    assert_eq!(IrcMessage::parse(": foo"), Err(GrammarError::InvalidPrefix));
}

#[test]
fn missing_command_is_rejected() {
    assert_eq!(IrcMessage::parse(" LIST"), Err(GrammarError::MissingCommand));
    assert_eq!(IrcMessage::parse(":irc.example.net "), Err(GrammarError::MissingCommand));
    assert_eq!(IrcMessage::parse(":irc.example.net  LIST"), Err(GrammarError::MissingCommand));
}

#[test]
fn grammar_error_messages() {
    assert_eq!(GrammarError::Empty.message(), "IRC message may not be empty");
    assert_eq!(
        GrammarError::InvalidPrefix.message(),
        "Found prefix indication, followed by invalid prefix"
    );
    assert_eq!(GrammarError::MissingCommand.message(), "IRC message lacks a command");
}

#[test]
fn consecutive_spaces_give_empty_parameters() {
    assert_eq!(
        IrcMessage::parse("MODE #test  +v"),
        Ok(message(None, "MODE", &["#test", "", "+v"]))
    );
    assert_eq!(
        IrcMessage::parse("MODE  :x"),
        Ok(message(None, "MODE", &["", "x"]))
    );
}

#[test]
fn space_after_command_alone_gives_no_parameter() {
    assert_eq!(IrcMessage::parse("LIST "), Ok(message(None, "LIST", &[])));
}

#[test]
fn trailer_keeps_spaces_and_colons() {
    assert_eq!(
        IrcMessage::parse("PRIVMSG #a :one :two  three"),
        Ok(message(None, "PRIVMSG", &["#a", "one :two  three"]))
    );
    assert_eq!(
        IrcMessage::parse("PRIVMSG #a :"),
        Ok(message(None, "PRIVMSG", &["#a", ""]))
    );
}

#[test]
fn colon_inside_a_middle_parameter_is_plain_text() {
    assert_eq!(
        IrcMessage::parse("MODE a:b c"),
        Ok(message(None, "MODE", &["a:b", "c"]))
    );
}

#[test]
fn non_ascii_text_is_kept() {
    assert_eq!(
        IrcMessage::parse(":sérvér PRIVMSG Ünïcode :grüße an alle"),
        Ok(message(Some("sérvér"), "PRIVMSG", &["Ünïcode", "grüße an alle"]))
    );
}

#[test]
fn to_line_marks_the_last_parameter() {
    let m = message(Some("localhost"), "PRIVMSG", &["Cardinal", "this is an example"]);
    assert_eq!(m.to_line(), ":localhost PRIVMSG Cardinal :this is an example\r\n");
    assert_eq!(message(None, "PONG", &["x"]).to_line(), "PONG :x\r\n");
}

#[test]
fn to_line_without_parameters() {
    assert_eq!(message(None, "LIST", &[]).to_line(), "LIST\r\n");
    assert_eq!(message(Some("a"), "LIST", &[]).to_line(), ":a LIST\r\n");
}

#[test]
fn written_message_reads_back() {
    let cases: [(Option<&str>, &str, &[&str]); 4] = [
        (Some("irc.example.net"), "PRIVMSG", &["#chan", "", "hello there :)"]),
        (None, "PONG", &["irc.example.net"]),
        (None, "MODE", &["#test", "+v", "Cardinal"]),
        (Some("p"), ":odd", &["a:b", ""]),
    ];
    for (prefix, command, parameters) in cases {
        let line = message(prefix, command, parameters).to_line();
        assert!(line.ends_with("\r\n"));
        let body = &line[..line.len() - 2];
        assert_eq!(
            IrcMessage::parse(body),
            Ok(message(prefix, command, parameters))
        );
    }
}
