use ircd::{Command, IrcMessage, MissingCommandParameter, ParseError, UnknownCommand};

fn message(command: &str, parameters: &[&str]) -> IrcMessage {
    IrcMessage {
        prefix: None,
        command: command.to_owned(),
        command_parameters: parameters.iter().map(|p| p.to_string()).collect(),
    }
}

fn missing(command: &str, parameter: &str, index: usize) -> ParseError {
    ParseError::MissingCommandParameterError(MissingCommandParameter {
        command: command.to_owned(),
        parameter: parameter.to_owned(),
        index,
    })
}

#[test]
fn user_with_all_parameters() {
    let irc_message = message("USER", &["Cardinal", "8", "*", "Cardinal"]);
    assert_eq!(
        irc_message.to_command(),
        Ok(Command::USER(
            "Cardinal".to_owned(),
            "8".to_owned(),
            "*".to_owned(),
            "Cardinal".to_owned()
        ))
    );
}

#[test]
fn pass_and_nick() {
    assert_eq!(
        message("PASS", &["secret"]).to_command(),
        Ok(Command::PASS("secret".to_owned()))
    );
    assert_eq!(
        message("NICK", &["Cardinal", "extra"]).to_command(),
        Ok(Command::NICK("Cardinal".to_owned()))
    );
}

#[test]
fn pass_and_nick_without_parameter() {
    assert_eq!(message("PASS", &[]).to_command(), Err(missing("PASS", "password", 0)));
    assert_eq!(message("NICK", &[]).to_command(), Err(missing("NICK", "nick", 0)));
}

#[test]
fn user_lacks_first_absent_parameter() {
    let names = ["user", "mode", "unused", "realname"];
    let given = ["a", "b", "c"];
    for n in 0..4 {
        assert_eq!(
            message("USER", &given[..n]).to_command(),
            Err(missing("USER", names[n], n))
        );
    }
}

#[test]
fn unknown_commands() {
    for name in ["FOO", "LIST", "pass", "NICKS", ""] {
        assert_eq!(
            message(name, &["x"]).to_command(),
            Err(ParseError::UnknownCommandError(UnknownCommand {
                command: name.to_owned()
            }))
        );
    }
}

#[test]
fn parsed_line_to_command() {
    let m = IrcMessage::parse("USER guest 0 * :Real Name").unwrap();
    assert_eq!(
        m.to_command(),
        Ok(Command::USER(
            "guest".to_owned(),
            "0".to_owned(),
            "*".to_owned(),
            "Real Name".to_owned()
        ))
    );
}

#[test]
fn parse_error_messages() {
    let unknown = ParseError::UnknownCommandError(UnknownCommand {
        command: "FOO".to_owned(),
    });
    assert_eq!(unknown.message(), "Unknown command: FOO");
    assert_eq!(
        missing("USER", "mode", 1).message(),
        "Command USER missing parameter: mode"
    );
}
