//! The command line: which command it names, and on what.

use vstd::prelude::*;
use crate::error::{Argument, TodoError};
use crate::number::{number_of, parse_number};
use crate::text::same_text;

verus! {

/// What the user asks for.
#[derive(Clone, Copy, Debug, PartialEq, Eq)]
pub enum Command<'a> {
    /// Add a task of this name.
    Add(&'a str),
    /// Show all tasks.
    List,
    /// Mark the task of this number as done.
    Complete(usize),
    /// Take the task of this number off the list.
    Delete(usize),
}

/// A command as a mathematical value.
pub enum CommandView {
    Add(Seq<char>),
    List,
    Complete(usize),
    Delete(usize),
}

impl<'a> View for Command<'a> {
    type V = CommandView;

    open spec fn view(&self) -> CommandView {
        match *self {
            Command::Add(name) => CommandView::Add(name@),
            Command::List => CommandView::List,
            Command::Complete(number) => CommandView::Complete(number),
            Command::Delete(number) => CommandView::Delete(number),
        }
    }
}

/// The lowercase form of a text, as Unicode defines it and as
/// `str::to_lowercase` computes it.
pub uninterp spec fn lowercase(s: Seq<char>) -> Seq<char>;

/// `str::to_lowercase` of the standard library. The result depends on the
/// characters of the string alone; it is the string's lowercase form, which
/// this library does not spell out.
pub assume_specification[ str::to_lowercase ](s: &str) -> (lower: String)
    ensures
        lower@ == lowercase(s@),
;

/// The command that a command word in lowercase names, with the argument
/// that follows the word on the command line, if one does.
pub open spec fn command_for(word: Seq<char>, argument: Option<Seq<char>>) -> Result<
    CommandView,
    TodoError,
> {
    if word == "add"@ {
        match argument {
            Some(name) => Ok(CommandView::Add(name)),
            None => Err(TodoError::MissingArgument(Argument::Task)),
        }
    } else if word == "list"@ {
        Ok(CommandView::List)
    } else if word == "complete"@ || word == "delete"@ {
        match argument {
            Some(text) => match number_of(text) {
                Some(number) => if word == "complete"@ {
                    Ok(CommandView::Complete(number))
                } else {
                    Ok(CommandView::Delete(number))
                },
                None => Err(TodoError::InvalidNumber),
            },
            None => Err(TodoError::MissingArgument(Argument::TaskNumber)),
        }
    } else {
        Err(TodoError::UnsupportedCommand)
    }
}

/// The command that a command line asks for. The line starts with the
/// program's name; the command word follows and counts in any mix of upper
/// and lower case; the command's argument comes third. What stands behind
/// that is not looked at.
pub open spec fn command_line(args: Seq<Seq<char>>) -> Result<CommandView, TodoError> {
    if args.len() < 2 {
        Err(TodoError::MissingArgument(Argument::Command))
    } else {
        command_for(
            lowercase(args[1]),
            if args.len() > 2 {
                Some(args[2])
            } else {
                None
            },
        )
    }
}

impl<'a> Command<'a> {
    /// Reads the command from the arguments of the program, the first of
    /// which is the program's name.
    pub fn build(args: &'a [String]) -> (command: Result<Command<'a>, TodoError>)
        requires
            args@.len() >= 1,
        ensures
            match command_line(args@.map_values(|s: String| s@)) {
                Ok(c) => command is Ok && command->Ok_0@ == c,
                Err(e) => command == Err::<Command<'a>, TodoError>(e),
            },
    {
        if args.len() < 2 {
            return Err(TodoError::MissingArgument(Argument::Command));
        }
        let word = args[1].as_str().to_lowercase();
        let argument = if args.len() > 2 {
            Some(args[2].as_str())
        } else {
            None
        };
        Command::from_word(word.as_str(), argument)
    }

    /// The command that `word` names, which is taken as it is written:
    /// `add`, `list`, `complete` or `delete`, in lowercase. `argument` is
    /// what follows the word on the command line, if anything does.
    pub fn from_word(word: &str, argument: Option<&'a str>) -> (command: Result<
        Command<'a>,
        TodoError,
    >)
        ensures
            match command_for(
                word@,
                match argument {
                    Some(text) => Some(text@),
                    None => None,
                },
            ) {
                Ok(c) => command is Ok && command->Ok_0@ == c,
                Err(e) => command == Err::<Command<'a>, TodoError>(e),
            },
    {
        if same_text(word, "add") {
            match argument {
                Some(name) => Ok(Command::Add(name)),
                None => Err(TodoError::MissingArgument(Argument::Task)),
            }
        } else if same_text(word, "list") {
            Ok(Command::List)
        } else {
            let complete = same_text(word, "complete");
            if complete || same_text(word, "delete") {
                match argument {
                    Some(text) => match parse_number(text) {
                        Some(number) => if complete {
                            Ok(Command::Complete(number))
                        } else {
                            Ok(Command::Delete(number))
                        },
                        None => Err(TodoError::InvalidNumber),
                    },
                    None => Err(TodoError::MissingArgument(Argument::TaskNumber)),
                }
            } else {
                Err(TodoError::UnsupportedCommand)
            }
        }
    }
}

} // verus!
