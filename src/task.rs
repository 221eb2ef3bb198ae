use vstd::prelude::*;

use crate::error::TaskError;
use crate::text::{decimal, decimal_text};
use crate::time::{chrono_display, parsed_instant, Timestamp};

verus! {

/// One task of the store.
#[derive(PartialEq, Debug)]
pub struct Task {
    pub id: u32,
    pub name: String,
    pub description: String,
    pub due_date: Timestamp,
    pub completed: bool,
}

/// The line that shows a task: `<id> - <name> - <description> - <due date>`.
pub open spec fn task_line(t: Task) -> Seq<char> {
    decimal(t.id as nat) + " - "@ + t.name@ + " - "@ + t.description@ + " - "@ + chrono_display(
        t.due_date@.0,
        t.due_date@.1,
    )
}

impl Clone for Task {
    fn clone(&self) -> (r: Task)
        ensures
            r == *self,
    {
        Task {
            id: self.id,
            name: self.name.clone(),
            description: self.description.clone(),
            due_date: self.due_date,
            completed: self.completed,
        }
    }
}

impl Task {
    /// A task that is not completed yet, due at the instant that `due_date`
    /// reads as; `InvalidDueDateFormat` where it reads as none.
    pub fn new(id: u32, name: String, description: String, due_date: String) -> (r: Result<
        Task,
        TaskError,
    >)
        ensures
            match parsed_instant(due_date@) {
                Some(p) => r matches Ok(t) && t.id == id && t.name == name && t.description
                    == description && t.due_date@ == p && !t.completed,
                None => r matches Err(TaskError::InvalidDueDateFormat),
            },
    {
        match Timestamp::parse(due_date.as_str()) {
            Some(due) => Ok(Task { id, name, description, due_date: due, completed: false }),
            None => Err(TaskError::InvalidDueDateFormat),
        }
    }

    /// The task shown on one line: id, name, description and due date.
    pub fn to_text(&self) -> (r: String)
        ensures
            r@ == task_line(*self),
    {
        let mut line = decimal_text(self.id as u64);
        line.append(" - ");
        line.append(self.name.as_str());
        line.append(" - ");
        line.append(self.description.as_str());
        line.append(" - ");
        let due = self.due_date.to_text();
        line.append(due.as_str());
        line
    }
}

} // verus!
