//! A task and the line of text that stands for it in the task file.

use vstd::prelude::*;
use vstd::string::StringExecFns;
use crate::error::TodoError;
use crate::number::{digits_value, number_of, parse_digits};
use crate::text::{chars_of, find, first_index, lemma_first_index, string_of};

verus! {

/// The character between a task's flag and its name.
pub const SEPARATOR: char = '|';

/// Something to do: what it is, and whether it has been done.
#[derive(Clone, Debug, PartialEq, Eq)]
pub struct Task {
    pub name: String,
    pub completed: bool,
}

/// A task as a mathematical value.
pub struct TaskView {
    pub name: Seq<char>,
    pub completed: bool,
}

impl View for Task {
    type V = TaskView;

    open spec fn view(&self) -> TaskView {
        TaskView { name: self.name@, completed: self.completed }
    }
}

/// The flag that a line starts with: `1` for a completed task, `0` for one
/// that is still open.
pub open spec fn flag_char(completed: bool) -> char {
    if completed {
        '1'
    } else {
        '0'
    }
}

/// The line that stands for a task: its flag, the separator, then its name
/// as it is.
pub open spec fn encode(t: TaskView) -> Seq<char> {
    seq![flag_char(t.completed), SEPARATOR] + t.name
}

/// The task that a line stands for. The line must hold the separator exactly
/// once, and a number before it. The task is completed where that number is
/// 1, and its name is what follows the separator. Any other line stands for
/// no task.
pub open spec fn decode(line: Seq<char>) -> Option<TaskView> {
    let at = first_index(line, SEPARATOR);
    let name = line.skip(at + 1);
    if at < line.len() && !name.contains(SEPARATOR) {
        match number_of(line.take(at)) {
            Some(n) => Some(TaskView { name, completed: n == 1 }),
            None => None,
        }
    } else {
        None
    }
}

/// A line read back gives the task that was written, as long as the task's
/// name holds no separator.
pub proof fn lemma_decode_encode(t: TaskView)
    requires
        !t.name.contains(SEPARATOR),
    ensures
        decode(encode(t)) == Some(t),
{
    let line = encode(t);
    assert(first_index(line.drop_first(), SEPARATOR) == 0);
    assert(line.skip(2) == t.name);
    assert(digits_value(line.take(1).drop_last()) == 0);
}

impl Task {
    /// A task that is still to be done.
    pub fn new(name: String) -> (task: Task)
        ensures
            task@ == (TaskView { name: name@, completed: false }),
    {
        Task { name, completed: false }
    }

    /// Marks the task as done.
    pub fn complete(&mut self)
        ensures
            final(self)@ == (TaskView { name: old(self)@.name, completed: true }),
    {
        self.completed = true;
    }

    /// Reads a task from a line of the task file.
    pub fn from_string(content: &str) -> (task: Result<Task, TodoError>)
        ensures
            match decode(content@) {
                Some(t) => task is Ok && task->Ok_0@ == t,
                None => task == Err::<Task, TodoError>(TodoError::Parse),
            },
    {
        let chars = chars_of(content);
        let line = chars.as_slice();
        let at = find(line, 0, SEPARATOR);
        assert(line@.skip(0) == line@);
        if at == line.len() {
            return Err(TodoError::Parse);
        }
        let next = find(line, at + 1, SEPARATOR);
        proof {
            lemma_first_index(line@.skip(at + 1), SEPARATOR);
        }
        if next < line.len() {
            return Err(TodoError::Parse);
        }
        match parse_digits(line, 0, at) {
            Some(n) => Ok(Task { name: string_of(line, at + 1, line.len()), completed: n == 1 }),
            None => Err(TodoError::Parse),
        }
    }

    /// Writes the task as a line of the task file.
    pub fn to_string(&self) -> (line: String)
        ensures
            line@ == encode(self@),
    {
        let mut line = String::new();
        line.push(if self.completed { '1' } else { '0' });
        line.push(SEPARATOR);
        line.append(self.name.as_str());
        line
    }
}

} // verus!
