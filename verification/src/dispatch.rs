//! One run of the program: a command is carried out on the task file's
//! text, and gives what to show and what to store.

use vstd::prelude::*;
use vstd::string::StringExecFns;
use crate::command::{Command, CommandView};
use crate::error::TodoError;
use crate::number::{decimal, push_decimal};
use crate::store::{file_text, lemma_parse_file_text, parse_file, storable, TaskList, NEWLINE};
use crate::task::{encode, Task, TaskView, SEPARATOR};

verus! {

/// What a run of the program comes to.
#[derive(Debug, PartialEq, Eq)]
pub struct Outcome {
    /// The text for the standard output, in whole lines.
    pub output: String,
    /// `Ok(Some(text))`: the command was carried out, and the task file is
    /// to hold `text` and nothing else. `Ok(None)`: it was carried out, and
    /// the file stays as it is. `Err(..)`: it failed, and the file stays as
    /// it is.
    pub result: Result<Option<String>, TodoError>,
}

/// An outcome as a mathematical value.
pub struct OutcomeView {
    pub output: Seq<char>,
    pub result: Result<Option<Seq<char>>, TodoError>,
}

impl View for Outcome {
    type V = OutcomeView;

    open spec fn view(&self) -> OutcomeView {
        OutcomeView {
            output: self.output@,
            result: match self.result {
                Ok(Some(text)) => Ok(Some(text@)),
                Ok(None) => Ok(None),
                Err(e) => Err(e),
            },
        }
    }
}

/// The rows of the listing: for each task a line of its number, the
/// separator, and the task as the file holds it.
pub open spec fn rows(tasks: Seq<TaskView>) -> Seq<char>
    decreases tasks.len(),
{
    if tasks.len() == 0 {
        Seq::empty()
    } else {
        rows(tasks.drop_last()) + decimal((tasks.len() - 1) as nat) + seq![SEPARATOR] + encode(
            tasks.last(),
        ) + seq![NEWLINE]
    }
}

/// The listing of the tasks: the header line, then the rows.
pub open spec fn listing(tasks: Seq<TaskView>) -> Seq<char> {
    "#|C|Task"@ + seq![NEWLINE] + rows(tasks)
}

/// What a command prints when it meets the list `tasks`.
pub open spec fn report(command: CommandView, tasks: Seq<TaskView>) -> Seq<char> {
    match command {
        CommandView::Add(name) => "Adding task: "@ + name + seq![NEWLINE],
        CommandView::List => listing(tasks),
        CommandView::Complete(number) => "Completing task: "@ + decimal(number as nat)
            + seq![NEWLINE],
        CommandView::Delete(number) => "Deleting task: "@ + decimal(number as nat)
            + seq![NEWLINE],
    }
}

/// The list that a command makes of the list `tasks`, or the error with
/// which it fails: completing and deleting need a task of the given number.
pub open spec fn applied(command: CommandView, tasks: Seq<TaskView>) -> Result<
    Seq<TaskView>,
    TodoError,
> {
    match command {
        CommandView::Add(name) => Ok(tasks.push(TaskView { name, completed: false })),
        CommandView::List => Ok(tasks),
        CommandView::Complete(number) => if number < tasks.len() {
            Ok(
                tasks.update(
                    number as int,
                    TaskView { name: tasks[number as int].name, completed: true },
                ),
            )
        } else {
            Err(TodoError::MissingTask)
        },
        CommandView::Delete(number) => if number < tasks.len() {
            Ok(tasks.remove(number as int))
        } else {
            Err(TodoError::MissingTask)
        },
    }
}

/// The outcome of a command on the list `tasks`. Every command but `List`
/// has the whole file written anew when it succeeds.
pub open spec fn outcome_of(command: CommandView, tasks: Seq<TaskView>) -> OutcomeView {
    OutcomeView {
        output: report(command, tasks),
        result: match applied(command, tasks) {
            Ok(after) => if command is List {
                Ok(None)
            } else {
                Ok(Some(file_text(after)))
            },
            Err(e) => Err(e),
        },
    }
}

/// The outcome of a command on a task file that holds `text`. A file that
/// cannot be read as a list of tasks fails the command before anything is
/// printed.
pub open spec fn run_outcome(command: CommandView, text: Seq<char>) -> OutcomeView {
    match parse_file(text) {
        Some(tasks) => outcome_of(command, tasks),
        None => OutcomeView { output: Seq::empty(), result: Err(TodoError::Parse) },
    }
}

/// What the task file holds after a run with the given outcome, when it
/// held `text` before.
pub open spec fn file_after(text: Seq<char>, outcome: OutcomeView) -> Seq<char> {
    match outcome.result {
        Ok(Some(stored)) => stored,
        _ => text,
    }
}

/// Listing a second time shows what the first listing showed: a listing
/// leaves the task file as it is.
pub proof fn lemma_list_repeats(text: Seq<char>)
    ensures
        file_after(text, run_outcome(CommandView::List, text)) == text,
        run_outcome(CommandView::List, file_after(text, run_outcome(CommandView::List, text)))
            == run_outcome(CommandView::List, text),
{
}

/// After a command that changed the list, the task file read anew gives
/// the list as the command left it: the same tasks in the same order, as
/// long as the name of each task is storable.
pub proof fn lemma_stored_list_reloads(command: CommandView, text: Seq<char>)
    requires
        !(command is List),
        parse_file(text) is Some,
        applied(command, parse_file(text)->Some_0) is Ok,
        forall|i: int|
            0 <= i < applied(command, parse_file(text)->Some_0)->Ok_0.len() ==> storable(
                #[trigger] applied(command, parse_file(text)->Some_0)->Ok_0[i].name,
            ),
    ensures
        run_outcome(command, text).result is Ok,
        parse_file(file_after(text, run_outcome(command, text))) == Some(
            applied(command, parse_file(text)->Some_0)->Ok_0,
        ),
{
    lemma_parse_file_text(applied(command, parse_file(text)->Some_0)->Ok_0);
}

/// Deleting a task leaves one task fewer. The tasks before it keep their
/// numbers, and each task behind it gets the number one below its own.
pub proof fn lemma_delete_renumbers(tasks: Seq<TaskView>, number: usize)
    requires
        number < tasks.len(),
    ensures
        applied(CommandView::Delete(number), tasks) is Ok,
        applied(CommandView::Delete(number), tasks)->Ok_0.len() == tasks.len() - 1,
        forall|i: int|
            0 <= i < number ==> #[trigger] applied(CommandView::Delete(number), tasks)->Ok_0[i]
                == tasks[i],
        forall|i: int|
            number <= i < tasks.len() - 1 ==> #[trigger] applied(
                CommandView::Delete(number),
                tasks,
            )->Ok_0[i] == tasks[i + 1],
{
}

/// Adds a task of the given name at the end of the list.
pub fn add_task(task_list: &mut TaskList, content: &str) -> (outcome: Outcome)
    ensures
        Ok::<Seq<TaskView>, TodoError>(final(task_list)@) == applied(
            CommandView::Add(content@),
            old(task_list)@,
        ),
        outcome@ == outcome_of(CommandView::Add(content@), old(task_list)@),
{
    let mut output = String::from_str("Adding task: ");
    output.append(content);
    output.push(NEWLINE);
    assert(output@ =~= report(CommandView::Add(content@), old(task_list)@));
    task_list.push(Task::new(content.to_owned()));
    Outcome { output, result: Ok(Some(task_list.save())) }
}

/// Shows the tasks, each with its number.
pub fn list_tasks(task_list: &TaskList) -> (outcome: Outcome)
    ensures
        outcome@ == outcome_of(CommandView::List, task_list@),
{
    let mut output = String::from_str("#|C|Task");
    output.push(NEWLINE);
    let ghost head = output@;
    let mut index: usize = 0;
    while index < task_list.tasks.len()
        invariant
            index <= task_list.tasks@.len(),
            output@ == head + rows(task_list@.take(index as int)),
        decreases task_list.tasks@.len() - index,
    {
        let ghost before = output@;
        let line = task_list.tasks[index].to_string();
        push_decimal(&mut output, index);
        output.push(SEPARATOR);
        output.append(line.as_str());
        output.push(NEWLINE);
        proof {
            let upto = task_list@.take(index + 1);
            assert(upto.drop_last() == task_list@.take(index as int));
            assert(output@ == before + decimal(index as nat) + seq![SEPARATOR] + line@ + seq![
                NEWLINE,
            ]);
        }
        index += 1;
    }
    assert(task_list@.take(index as int) == task_list@);
    assert(output@ =~= listing(task_list@));
    Outcome { output, result: Ok(None) }
}

/// Marks the task of the given number as done.
pub fn complete_task(task_list: &mut TaskList, number: usize) -> (outcome: Outcome)
    ensures
        match applied(CommandView::Complete(number), old(task_list)@) {
            Ok(after) => final(task_list)@ == after,
            Err(_) => *final(task_list) == *old(task_list),
        },
        outcome@ == outcome_of(CommandView::Complete(number), old(task_list)@),
{
    let mut output = String::from_str("Completing task: ");
    push_decimal(&mut output, number);
    output.push(NEWLINE);
    assert(output@ =~= report(CommandView::Complete(number), old(task_list)@));
    let found = match task_list.get_mut(number) {
        Some(task) => {
            task.complete();
            true
        },
        None => false,
    };
    if found {
        assert(task_list@ =~= applied(CommandView::Complete(number), old(task_list)@)->Ok_0);
        Outcome { output, result: Ok(Some(task_list.save())) }
    } else {
        Outcome { output, result: Err(TodoError::MissingTask) }
    }
}

/// Takes the task of the given number off the list.
pub fn delete_task(task_list: &mut TaskList, number: usize) -> (outcome: Outcome)
    ensures
        match applied(CommandView::Delete(number), old(task_list)@) {
            Ok(after) => final(task_list)@ == after,
            Err(_) => *final(task_list) == *old(task_list),
        },
        outcome@ == outcome_of(CommandView::Delete(number), old(task_list)@),
{
    let mut output = String::from_str("Deleting task: ");
    push_decimal(&mut output, number);
    output.push(NEWLINE);
    assert(output@ =~= report(CommandView::Delete(number), old(task_list)@));
    match task_list.remove(number) {
        Ok(_) => Outcome { output, result: Ok(Some(task_list.save())) },
        Err(e) => Outcome { output, result: Err(e) },
    }
}

/// Carries out a command on the task file, whose whole text is `text`.
pub fn run(command: Command, text: &str) -> (outcome: Outcome)
    ensures
        outcome@ == run_outcome(command@, text@),
{
    let mut task_list = match TaskList::load(text) {
        Ok(list) => list,
        Err(e) => {
            return Outcome { output: String::new(), result: Err(e) };
        },
    };
    match command {
        Command::Add(content) => add_task(&mut task_list, content),
        Command::List => list_tasks(&task_list),
        Command::Complete(number) => complete_task(&mut task_list, number),
        Command::Delete(number) => delete_task(&mut task_list, number),
    }
}

} // verus!
