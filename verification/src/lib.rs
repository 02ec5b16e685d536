//! A chat-bot command engine for prioritized lists.
//!
//! Users maintain a personal TODO list and a shared bug list by sending short
//! text commands. This crate holds the pure core of that feature set: a
//! tokenizer that splits a bug report into quoted fields, a classifier that
//! maps a command body to a typed command, and the list engines that apply a
//! command to the current list state and produce a response string. The
//! engine does no I/O: the surrounding host loads the list, calls in, and
//! persists what comes back.

use vstd::prelude::*;

pub mod bug;
pub mod list;
pub mod text;
pub mod todo;
pub mod tokenizer;

verus! {

/// The recoverable failures of the command engine. Every failure is turned
/// into a response message by the host; none aborts the interaction.
#[derive(Clone, Copy, Debug, PartialEq, Eq, Structural)]
pub enum CommandError {
    /// A bug report whose argument text does not tokenize into exactly three
    /// fields, or whose quoted field misses its closing marker.
    MalformedInput,
    /// A bug number that does not parse as an unsigned integer.
    InvalidArgument,
}

/// The message shown to the user for each error kind.
pub open spec fn error_text(e: CommandError) -> Seq<char> {
    match e {
        CommandError::MalformedInput => "couldn't parse a user-submitted bug report"@,
        CommandError::InvalidArgument => "couldn't parse a bug number from the user input"@,
    }
}

impl CommandError {
    /// Renders the error as a human-readable message.
    pub fn message(&self) -> (s: String)
        ensures
            s@ == error_text(*self),
    {
        match self {
            CommandError::MalformedInput => "couldn't parse a user-submitted bug report".to_owned(),
            CommandError::InvalidArgument => "couldn't parse a bug number from the user input".to_owned(),
        }
    }
}

} // verus!
