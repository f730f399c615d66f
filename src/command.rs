use vstd::prelude::*;
use crate::message::{IrcMessage, MessageView};

verus! {

/// A registration command, with its parameters.
#[derive(Debug, PartialEq, Eq)]
pub enum Command {
    PASS(String),
    NICK(String),
    USER(String, String, String, String),
}

/// A command as its texts.
pub enum CommandView {
    Pass(Seq<char>),
    Nick(Seq<char>),
    User(Seq<char>, Seq<char>, Seq<char>, Seq<char>),
}

impl View for Command {
    type V = CommandView;

    open spec fn view(&self) -> CommandView {
        match self {
            Command::PASS(password) => CommandView::Pass(password@),
            Command::NICK(nick) => CommandView::Nick(nick@),
            Command::USER(user, mode, unused, realname) => CommandView::User(
                user@,
                mode@,
                unused@,
                realname@,
            ),
        }
    }
}

/// A message whose command is none of the known ones.
#[derive(Debug, PartialEq, Eq)]
pub struct UnknownCommand {
    pub command: String,
}

/// A known command that lacks one of the parameters it needs.
#[derive(Debug, PartialEq, Eq)]
pub struct MissingCommandParameter {
    pub command: String,
    pub parameter: String,
    pub index: usize,
}

/// Why a message is not a command.
#[derive(Debug, PartialEq, Eq)]
pub enum ParseError {
    UnknownCommandError(UnknownCommand),
    MissingCommandParameterError(MissingCommandParameter),
}

/// Why a message is not a command, as texts.
pub enum ParseErrorView {
    UnknownCommand { command: Seq<char> },
    MissingParameter { command: Seq<char>, parameter: Seq<char>, index: nat },
}

impl View for ParseError {
    type V = ParseErrorView;

    open spec fn view(&self) -> ParseErrorView {
        match self {
            ParseError::UnknownCommandError(e) => ParseErrorView::UnknownCommand {
                command: e.command@,
            },
            ParseError::MissingCommandParameterError(e) => ParseErrorView::MissingParameter {
                command: e.command@,
                parameter: e.parameter@,
                index: e.index as nat,
            },
        }
    }
}

/// How `e` reads to a person.
pub open spec fn error_text(e: ParseErrorView) -> Seq<char> {
    match e {
        ParseErrorView::UnknownCommand { command } => "Unknown command: "@ + command,
        ParseErrorView::MissingParameter { command, parameter, .. } => "Command "@ + command
            + " missing parameter: "@ + parameter,
    }
}

impl ParseError {
    /// Describes the error for a person.
    pub fn message(&self) -> (r: String)
        ensures
            r@ == error_text(self@),
    {
        match self {
            ParseError::UnknownCommandError(e) => {
                let mut text = String::from_str("Unknown command: ");
                text.append(e.command.as_str());
                text
            },
            ParseError::MissingCommandParameterError(e) => {
                let mut text = String::from_str("Command ");
                text.append(e.command.as_str());
                text.append(" missing parameter: ");
                text.append(e.parameter.as_str());
                text
            },
        }
    }
}

/// The names of the parameters of `USER`, in their order.
pub open spec fn user_parameter_names() -> Seq<Seq<char>> {
    seq!["user"@, "mode"@, "unused"@, "realname"@]
}

/// The error for `m` lacking its parameter `name`, at position `index`.
pub open spec fn missing(m: MessageView, name: Seq<char>, index: nat) -> ParseErrorView {
    ParseErrorView::MissingParameter { command: m.command, parameter: name, index }
}

/// The command that `m` holds. The command name must match exactly; a known
/// command fails on the first of its parameters that is absent.
pub open spec fn interpret(m: MessageView) -> Result<CommandView, ParseErrorView> {
    let p = m.parameters;
    if m.command == "PASS"@ {
        if p.len() < 1 {
            Err(missing(m, "password"@, 0))
        } else {
            Ok(CommandView::Pass(p[0]))
        }
    } else if m.command == "NICK"@ {
        if p.len() < 1 {
            Err(missing(m, "nick"@, 0))
        } else {
            Ok(CommandView::Nick(p[0]))
        }
    } else if m.command == "USER"@ {
        if p.len() < 4 {
            Err(missing(m, user_parameter_names()[p.len() as int], p.len()))
        } else {
            Ok(CommandView::User(p[0], p[1], p[2], p[3]))
        }
    } else {
        Err(ParseErrorView::UnknownCommand { command: m.command })
    }
}

/// A message whose command is not `PASS`, `NICK` or `USER` is an unknown command
/// named by that command, whatever its parameters.
pub proof fn law_unknown_command(m: MessageView)
    requires
        m.command != "PASS"@,
        m.command != "NICK"@,
        m.command != "USER"@,
    ensures
        interpret(m) == Err::<CommandView, ParseErrorView>(
            ParseErrorView::UnknownCommand { command: m.command },
        ),
{
}

/// `USER` with fewer than four parameters lacks the first absent one: its
/// position is the number of parameters given, and its name is the one at that
/// position in `user`, `mode`, `unused`, `realname`.
pub proof fn law_user_missing_parameter(m: MessageView)
    requires
        m.command == "USER"@,
        m.parameters.len() < 4,
    ensures
        interpret(m) == Err::<CommandView, ParseErrorView>(
            ParseErrorView::MissingParameter {
                command: "USER"@,
                parameter: seq!["user"@, "mode"@, "unused"@, "realname"@][m.parameters.len() as int],
                index: m.parameters.len(),
            },
        ),
{
    reveal_strlit("PASS");
    reveal_strlit("NICK");
    reveal_strlit("USER");
    assert(m.command[0] == 'U');
}

impl IrcMessage {
    /// The command that this message holds, or why it holds none.
    pub fn to_command(&self) -> (r: Result<Command, ParseError>)
        ensures
            match r {
                Ok(c) => interpret(self@) == Ok::<CommandView, ParseErrorView>(c@),
                Err(e) => interpret(self@) == Err::<CommandView, ParseErrorView>(e@),
            },
    {
        if self.command == String::from_str("PASS") {
            match self.get_command_parameter(0, "password") {
                Ok(password) => Ok(Command::PASS(password.clone())),
                Err(e) => Err(e),
            }
        } else if self.command == String::from_str("NICK") {
            match self.get_command_parameter(0, "nick") {
                Ok(nick) => Ok(Command::NICK(nick.clone())),
                Err(e) => Err(e),
            }
        } else if self.command == String::from_str("USER") {
            let user = match self.get_command_parameter(0, "user") {
                Ok(p) => p,
                Err(e) => return Err(e),
            };
            let mode = match self.get_command_parameter(1, "mode") {
                Ok(p) => p,
                Err(e) => return Err(e),
            };
            let unused = match self.get_command_parameter(2, "unused") {
                Ok(p) => p,
                Err(e) => return Err(e),
            };
            let realname = match self.get_command_parameter(3, "realname") {
                Ok(p) => p,
                Err(e) => return Err(e),
            };
            Ok(Command::USER(user.clone(), mode.clone(), unused.clone(), realname.clone()))
        } else {
            Err(ParseError::UnknownCommandError(UnknownCommand { command: self.command.clone() }))
        }
    }

    /// The parameter at `idx`, which the command calls `name`.
    fn get_command_parameter(&self, idx: usize, name: &str) -> (r: Result<&String, ParseError>)
        ensures
            match r {
                Ok(p) => idx < self@.parameters.len() && p@ == self@.parameters[idx as int],
                Err(e) => idx >= self@.parameters.len() && e@ == missing(self@, name@, idx as nat),
            },
    {
        if idx < self.command_parameters.len() {
            Ok(&self.command_parameters[idx])
        } else {
            Err(
                ParseError::MissingCommandParameterError(
                    MissingCommandParameter {
                        command: self.command.clone(),
                        parameter: name.to_owned(),
                        index: idx,
                    },
                ),
            )
        }
    }
}

} // verus!
