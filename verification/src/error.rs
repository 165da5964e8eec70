//! The ways in which a command can fail.

use vstd::prelude::*;

verus! {

/// A part of the command line that a command cannot do without.
#[derive(Clone, Copy, Debug, PartialEq, Eq, Structural)]
pub enum Argument {
    /// The command word itself.
    Command,
    /// The text of the task to add.
    Task,
    /// The number of the task to complete or delete.
    TaskNumber,
}

/// Why a command was not carried out.
#[derive(Clone, Copy, Debug, PartialEq, Eq, Structural)]
pub enum TodoError {
    /// A required argument was not given.
    MissingArgument(Argument),
    /// A task number is not a non-negative integer in decimal notation.
    InvalidNumber,
    /// The command word is none of the known commands.
    UnsupportedCommand,
    /// A line of the task file is not a flag, a separator and a name.
    Parse,
    /// The list holds no task with the given number.
    MissingTask,
}

impl TodoError {
    /// The text that describes the error.
    pub open spec fn message_text(self) -> Seq<char> {
        match self {
            TodoError::MissingArgument(Argument::Command) => "Missing command"@,
            TodoError::MissingArgument(Argument::Task) => "Missing task"@,
            TodoError::MissingArgument(Argument::TaskNumber) => "Missing task number"@,
            TodoError::InvalidNumber => "Non-integer number"@,
            TodoError::UnsupportedCommand => "Unsupported command"@,
            TodoError::Parse => "Failed to parse Task"@,
            TodoError::MissingTask => "Missing task"@,
        }
    }

    /// A short description of the error, fit to be shown to the user.
    pub fn message(&self) -> (text: &'static str)
        ensures
            text@ == self.message_text(),
    {
        match self {
            TodoError::MissingArgument(Argument::Command) => "Missing command",
            TodoError::MissingArgument(Argument::Task) => "Missing task",
            TodoError::MissingArgument(Argument::TaskNumber) => "Missing task number",
            TodoError::InvalidNumber => "Non-integer number",
            TodoError::UnsupportedCommand => "Unsupported command",
            TodoError::Parse => "Failed to parse Task",
            TodoError::MissingTask => "Missing task",
        }
    }
}

} // verus!
