//! A small task tracker: tasks are added, listed, completed and deleted,
//! and kept in a text file with one line for each task.
//!
//! The library works on text alone. A program around it reads the task
//! file, hands its text to [`run`] together with the [`Command`] that
//! [`Command::build`] made of the command line, prints what comes back and
//! writes the file anew where the outcome says so.

pub mod command;
pub mod dispatch;
pub mod error;
pub mod number;
pub mod store;
pub mod task;
pub mod text;

pub use crate::command::Command;
pub use crate::dispatch::{run, Outcome};
pub use crate::error::{Argument, TodoError};
pub use crate::store::TaskList;
pub use crate::task::Task;
