//! The list of tasks, and the text of the file that keeps it.

use vstd::prelude::*;
use vstd::string::StringExecFns;
use crate::error::TodoError;
use crate::task::{decode, encode, lemma_decode_encode, Task, TaskView, SEPARATOR};
use crate::text::{chars_of, find, first_index, lemma_first_index, string_of};

verus! {

/// The character that ends each line of the task file.
pub const NEWLINE: char = '\n';

/// The character that may stand before the end of a line, and is then no
/// part of the line.
pub const CARRIAGE_RETURN: char = '\r';

/// The tasks in the order of their numbers: the first one is task 0.
#[derive(Clone, Debug, PartialEq, Eq)]
pub struct TaskList {
    pub tasks: Vec<Task>,
}

impl View for TaskList {
    type V = Seq<TaskView>;

    open spec fn view(&self) -> Seq<TaskView> {
        Seq::new(self.tasks@.len(), |i: int| self.tasks@[i]@)
    }
}

/// `line` without a carriage return at its end.
pub open spec fn strip_cr(line: Seq<char>) -> Seq<char> {
    if line.len() > 0 && line.last() == CARRIAGE_RETURN {
        line.drop_last()
    } else {
        line
    }
}

/// The lines of a text. A line ends at a newline, which is no part of it,
/// nor is a carriage return just before that newline. What follows the last
/// newline is a line too, unless nothing follows it.
pub open spec fn lines(text: Seq<char>) -> Seq<Seq<char>>
    decreases text.len(),
{
    if text.len() == 0 {
        Seq::empty()
    } else {
        let at = first_index(text, NEWLINE);
        if 0 <= at < text.len() {
            seq![strip_cr(text.take(at))] + lines(text.skip(at + 1))
        } else {
            seq![text]
        }
    }
}

/// The tasks that the lines stand for, one for each line in the same order,
/// or `None` where some line stands for no task.
pub open spec fn decode_all(lines: Seq<Seq<char>>) -> Option<Seq<TaskView>> {
    if forall|i: int| 0 <= i < lines.len() ==> (#[trigger] decode(lines[i])) is Some {
        Some(Seq::new(lines.len(), |i: int| decode(lines[i])->Some_0))
    } else {
        None
    }
}

/// The list of tasks that the text of a task file holds.
pub open spec fn parse_file(text: Seq<char>) -> Option<Seq<TaskView>> {
    decode_all(lines(text))
}

/// The text of the task file for a list of tasks: the line of each task in
/// turn, each ended by a newline.
pub open spec fn file_text(tasks: Seq<TaskView>) -> Seq<char>
    decreases tasks.len(),
{
    if tasks.len() == 0 {
        Seq::empty()
    } else {
        file_text(tasks.drop_last()) + encode(tasks.last()) + seq![NEWLINE]
    }
}

/// Whether a task of this name comes back from the file as it went in: the
/// name holds neither the separator nor a newline, and does not end in a
/// carriage return.
pub open spec fn storable(name: Seq<char>) -> bool {
    &&& !name.contains(SEPARATOR)
    &&& !name.contains(NEWLINE)
    &&& name.len() > 0 ==> name.last() != CARRIAGE_RETURN
}

/// The text of a list that is not empty starts with the line of its first
/// task, and goes on with the text of the others.
pub proof fn lemma_file_text_first(tasks: Seq<TaskView>)
    requires
        tasks.len() > 0,
    ensures
        file_text(tasks) == encode(tasks[0]) + seq![NEWLINE] + file_text(tasks.drop_first()),
    decreases tasks.len(),
{
    if tasks.len() == 1 {
        assert(file_text(tasks.drop_last()) == Seq::<char>::empty());
        assert(file_text(tasks) =~= encode(tasks[0]) + seq![NEWLINE] + file_text(
            tasks.drop_first(),
        ));
    } else {
        let front = tasks.drop_last();
        let rest = tasks.drop_first();
        lemma_file_text_first(front);
        assert(front.drop_first() == rest.drop_last());
    }
}

/// A text that starts with a line and its newline has that line first, and
/// then the lines of what follows.
pub proof fn lemma_lines_first(line: Seq<char>, rest: Seq<char>)
    requires
        !line.contains(NEWLINE),
    ensures
        lines(line + seq![NEWLINE] + rest) == seq![strip_cr(line)] + lines(rest),
{
    let text = line + seq![NEWLINE] + rest;
    let at = line.len() as int;
    lemma_first_index(text, NEWLINE);
    assert(text[at] == NEWLINE);
    assert forall|j: int| 0 <= j < at implies text[j] != NEWLINE by {
        assert(text[j] == line[j]);
    }
    assert(text.take(at) == line);
    assert(text.skip(at + 1) == rest);
}

/// A list written to the file and read back is the same list, as long as
/// the name of each of its tasks is storable.
pub proof fn lemma_parse_file_text(tasks: Seq<TaskView>)
    requires
        forall|i: int| 0 <= i < tasks.len() ==> storable(#[trigger] tasks[i].name),
    ensures
        parse_file(file_text(tasks)) == Some(tasks),
    decreases tasks.len(),
{
    if tasks.len() > 0 {
        let first = tasks[0];
        let rest = tasks.drop_first();
        let line = encode(first);
        assert forall|i: int| 0 <= i < rest.len() implies storable(#[trigger] rest[i].name) by {
            assert(rest[i] == tasks[i + 1]);
        }
        lemma_parse_file_text(rest);
        lemma_file_text_first(tasks);
        assert(!line.contains(NEWLINE)) by {
            if line.contains(NEWLINE) {
                let k = choose|k: int| 0 <= k < line.len() && line[k] == NEWLINE;
                assert(first.name[k - 2] == NEWLINE);
            }
        }
        lemma_lines_first(line, file_text(rest));
        assert(strip_cr(line) == line) by {
            if first.name.len() > 0 {
                assert(line.last() == first.name.last());
            }
        }
        lemma_decode_encode(first);
        let below = lines(file_text(rest));
        let all = seq![line] + below;
        assert(lines(file_text(tasks)) == all);
        assert forall|i: int| 0 <= i < all.len() implies (#[trigger] decode(all[i])) is Some
            && decode(all[i])->Some_0 == tasks[i] by {
            if i > 0 {
                assert(all[i] == below[i - 1]);
                assert(decode_all(below)->Some_0[i - 1] == rest[i - 1]);
            }
        }
    }
}

impl TaskList {
    /// Reads the list of tasks from the text of a task file. A text of no
    /// lines gives the empty list.
    pub fn load(text: &str) -> (list: Result<TaskList, TodoError>)
        ensures
            match parse_file(text@) {
                Some(tasks) => list is Ok && list->Ok_0@ == tasks,
                None => list == Err::<TaskList, TodoError>(TodoError::Parse),
            },
    {
        let chars = chars_of(text);
        let all = chars.as_slice();
        let mut tasks: Vec<Task> = Vec::new();
        let mut pos: usize = 0;
        let ghost mut done: Seq<Seq<char>> = Seq::empty();
        assert(all@.skip(0) == all@);
        while pos < all.len()
            invariant
                all@ == text@,
                pos <= all@.len(),
                lines(text@) == done + lines(all@.skip(pos as int)),
                done.len() == tasks@.len(),
                forall|i: int|
                    0 <= i < done.len() ==> decode(#[trigger] done[i]) == Some(tasks@[i]@),
            decreases all@.len() - pos,
        {
            let ghost tail = all@.skip(pos as int);
            let end = find(all, pos, NEWLINE);
            let ended = end < all.len();
            let stop = if ended && pos < end && all[end - 1] == CARRIAGE_RETURN {
                end - 1
            } else {
                end
            };
            let line = string_of(all, pos, stop);
            let next: usize = if ended {
                end + 1
            } else {
                end
            };
            proof {
                lemma_first_index(tail, NEWLINE);
                assert(tail.take(end - pos) == all@.subrange(pos as int, end as int));
                if ended {
                    assert(tail.skip(end - pos + 1) == all@.skip(next as int));
                    assert(line@ == strip_cr(tail.take(end - pos)));
                } else {
                    assert(tail == all@.subrange(pos as int, end as int));
                }
                assert(lines(tail) == seq![line@] + lines(all@.skip(next as int)));
            }
            match Task::from_string(line.as_str()) {
                Ok(task) => {
                    tasks.push(task);
                },
                Err(_) => {
                    proof {
                        assert(lines(text@)[done.len() as int] == line@);
                    }
                    return Err(TodoError::Parse);
                },
            }
            proof {
                done = done.push(line@);
            }
            pos = next;
        }
        Ok(TaskList { tasks })
    }

    /// Writes the list as the text of a task file, which takes the place of
    /// all that the file held before.
    pub fn save(&self) -> (text: String)
        ensures
            text@ == file_text(self@),
    {
        let mut text = String::new();
        let mut i: usize = 0;
        while i < self.tasks.len()
            invariant
                i <= self.tasks@.len(),
                text@ == file_text(self@.take(i as int)),
            decreases self.tasks@.len() - i,
        {
            let line = self.tasks[i].to_string();
            proof {
                let upto = self@.take(i + 1);
                assert(upto.drop_last() == self@.take(i as int));
            }
            text.append(line.as_str());
            text.push(NEWLINE);
            i += 1;
        }
        assert(self@.take(i as int) == self@);
        text
    }

    /// Appends a task; it gets the next free number.
    pub fn push(&mut self, task: Task)
        ensures
            final(self)@ == old(self)@.push(task@),
    {
        self.tasks.push(task);
    }

    /// The task of the given number, to be changed in place, or `None` where
    /// the list holds no task of that number.
    pub fn get_mut(&mut self, index: usize) -> (task: Option<&mut Task>)
        ensures
            index >= old(self).tasks@.len() ==> task is None && *final(self) == *old(self),
            index < old(self).tasks@.len() ==> task is Some && *task->Some_0 == old(
                self,
            ).tasks@[index as int] && final(self).tasks@ == old(self).tasks@.update(
                index as int,
                *final(task->Some_0),
            ),
    {
        if index < self.tasks.len() {
            Some(&mut self.tasks[index])
        } else {
            None
        }
    }

    /// Takes the task of the given number out of the list; the number of
    /// each task behind it goes down by one. Fails, and leaves the list as
    /// it is, where the list holds no task of that number.
    pub fn remove(&mut self, index: usize) -> (task: Result<Task, TodoError>)
        ensures
            index < old(self)@.len() ==> task == Ok::<Task, TodoError>(
                old(self).tasks@[index as int],
            ) && final(self)@ == old(self)@.remove(index as int),
            index >= old(self)@.len() ==> task == Err::<Task, TodoError>(TodoError::MissingTask)
                && *final(self) == *old(self),
    {
        if index < self.tasks.len() {
            let task = self.tasks.remove(index);
            Ok(task)
        } else {
            Err(TodoError::MissingTask)
        }
    }
}

} // verus!
