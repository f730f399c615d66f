//! The wire grammar of IRC lines, the registration commands read from them,
//! and the numeric replies written back.

pub mod command;
pub mod laws;
pub mod message;
pub mod reply;

pub use command::{Command, MissingCommandParameter, ParseError, UnknownCommand};
pub use message::{GrammarError, IrcMessage, MessageView};
pub use reply::{replies_for, Reply};
