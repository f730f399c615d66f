use vstd::prelude::*;
use crate::command::{Command, CommandView, ParseError, ParseErrorView};
use crate::message::{serialize, IrcMessage, MessageView};

verus! {

/// A numeric reply of the server.
#[allow(non_camel_case_types)]
#[derive(Debug, PartialEq, Eq)]
pub enum Reply {
    /// Greets a client whose registration is done.
    RPL_WELCOME { nick: String, user: String, host: String },
    /// Answers a command that the server does not know.
    ERR_UNKNOWNCOMMAND { command: String },
    /// Answers a command that lacks parameters.
    ERR_NEEDMOREPARAMS { command: String },
}

/// A reply as its texts.
pub enum ReplyView {
    Welcome { nick: Seq<char>, user: Seq<char>, host: Seq<char> },
    UnknownCommand { command: Seq<char> },
    NeedMoreParams { command: Seq<char> },
}

impl View for Reply {
    type V = ReplyView;

    open spec fn view(&self) -> ReplyView {
        match self {
            Reply::RPL_WELCOME { nick, user, host } => ReplyView::Welcome {
                nick: nick@,
                user: user@,
                host: host@,
            },
            Reply::ERR_UNKNOWNCOMMAND { command } => ReplyView::UnknownCommand { command: command@ },
            Reply::ERR_NEEDMOREPARAMS { command } => ReplyView::NeedMoreParams { command: command@ },
        }
    }
}

/// The three-digit code of a reply.
pub open spec fn reply_code(r: ReplyView) -> Seq<char> {
    match r {
        ReplyView::Welcome { .. } => "001"@,
        ReplyView::UnknownCommand { .. } => "421"@,
        ReplyView::NeedMoreParams { .. } => "461"@,
    }
}

/// The greeting that the welcome reply carries.
pub open spec fn welcome_text(nick: Seq<char>, user: Seq<char>, host: Seq<char>) -> Seq<char> {
    "Welcome to the network "@ + nick + "!"@ + user + "@"@ + host
}

/// The message that a reply is sent as: from `localhost`, with the reply's code
/// as its command.
pub open spec fn reply_message(r: ReplyView) -> MessageView {
    MessageView {
        prefix: Some("localhost"@),
        command: reply_code(r),
        parameters: match r {
            ReplyView::Welcome { nick, user, host } => seq![nick, welcome_text(nick, user, host)],
            ReplyView::UnknownCommand { command } => seq![command, "Unknown command"@],
            ReplyView::NeedMoreParams { command } => seq![command, "Not enough parameters"@],
        },
    }
}

/// The replies owed to a message read as `outcome`: for `USER`, a welcome to
/// `nick` at `host`; for an error, the reply that names its command; for the
/// other commands, none.
pub open spec fn replies_spec(
    outcome: Result<CommandView, ParseErrorView>,
    nick: Seq<char>,
    host: Seq<char>,
) -> Seq<ReplyView> {
    match outcome {
        Ok(CommandView::User(user, _, _, _)) => seq![ReplyView::Welcome { nick, user, host }],
        Ok(_) => Seq::empty(),
        Err(ParseErrorView::UnknownCommand { command }) => seq![
            ReplyView::UnknownCommand { command },
        ],
        Err(ParseErrorView::MissingParameter { command, .. }) => seq![
            ReplyView::NeedMoreParams { command },
        ],
    }
}

/// What a command or an error reads as.
pub open spec fn outcome_view(outcome: Result<Command, ParseError>) -> Result<
    CommandView,
    ParseErrorView,
> {
    match outcome {
        Ok(c) => Ok(c@),
        Err(e) => Err(e@),
    }
}

/// The replies owed to a message read as `outcome`, welcoming `nick` at `host`
/// where a welcome is owed.
pub fn replies_for(outcome: Result<Command, ParseError>, nick: &str, host: &str) -> (r: Vec<Reply>)
    ensures
        r@.map_values(|x: Reply| x@) == replies_spec(outcome_view(outcome), nick@, host@),
{
    let mut replies: Vec<Reply> = Vec::new();
    match outcome {
        Ok(Command::USER(user, _, _, _)) => {
            replies.push(Reply::RPL_WELCOME { nick: nick.to_owned(), user, host: host.to_owned() });
        },
        Ok(_) => {},
        Err(ParseError::UnknownCommandError(e)) => {
            replies.push(Reply::ERR_UNKNOWNCOMMAND { command: e.command });
        },
        Err(ParseError::MissingCommandParameterError(e)) => {
            replies.push(Reply::ERR_NEEDMOREPARAMS { command: e.command });
        },
    }
    assert(replies@.map_values(|x: Reply| x@) =~= replies_spec(outcome_view(outcome), nick@, host@));
    replies
}

impl Reply {
    /// The three-digit code of the reply.
    pub fn as_str(&self) -> (r: &str)
        ensures
            r@ == reply_code(self@),
    {
        match self {
            Reply::RPL_WELCOME { .. } => "001",
            Reply::ERR_UNKNOWNCOMMAND { .. } => "421",
            Reply::ERR_NEEDMOREPARAMS { .. } => "461",
        }
    }

    /// The line that sends the reply, line end included.
    pub fn as_line(&self) -> (r: String)
        ensures
            r@ == serialize(reply_message(self@)),
    {
        let mut command_parameters: Vec<String> = Vec::new();
        match self {
            Reply::RPL_WELCOME { nick, user, host } => {
                let mut text = String::from_str("Welcome to the network ");
                text.append(nick.as_str());
                text.append("!");
                text.append(user.as_str());
                text.append("@");
                text.append(host.as_str());
                command_parameters.push(nick.clone());
                command_parameters.push(text);
            },
            Reply::ERR_UNKNOWNCOMMAND { command } => {
                command_parameters.push(command.clone());
                command_parameters.push(String::from_str("Unknown command"));
            },
            Reply::ERR_NEEDMOREPARAMS { command } => {
                command_parameters.push(command.clone());
                command_parameters.push(String::from_str("Not enough parameters"));
            },
        }
        let message = IrcMessage {
            prefix: Some(String::from_str("localhost")),
            command: self.as_str().to_owned(),
            command_parameters,
        };
        assert(message@.parameters =~= reply_message(self@).parameters);
        message.to_line()
    }
}

} // verus!
