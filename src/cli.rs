use vstd::prelude::*;
use vstd::utf8::encode_utf8;

use crate::crud::{
    add_post, complete_post, delete_post, has_id, index_of, lines_text, selected, update_post,
    write_text, StoreView, Tasks,
};
use crate::error::TaskError;
use crate::filtering::{CompletionFilter, DueFilter};
use crate::stats::{completed_count, percent_of, stats_text, Stats};
use crate::task::task_line;
use crate::time::Timestamp;
use crate::update::{parse_update, parse_update_fields};

verus! {

/// A command on the task store.
#[derive(Debug)]
pub enum TaskCommand {
    Add { name: String, description: String, due_date: String },
    List { due: Option<DueFilter>, status: Option<CompletionFilter> },
    Delete { id: u32 },
    Update { id: u32, fields: String },
    Show { id: u32 },
    Complete { id: u32 },
    Stats,
}

/// The outcome of a command without its output.
pub open spec fn without_output(r: Result<Vec<u8>, TaskError>) -> Result<(), TaskError> {
    match r {
        Ok(_) => Ok(()),
        Err(e) => Err(e),
    }
}

/// What `run` does for each command, from the store `old` to the store
/// `new`, with `r` the output to show or the error to report.
pub open spec fn run_post(
    old: StoreView,
    new: StoreView,
    cmd: TaskCommand,
    r: Result<Vec<u8>, TaskError>,
) -> bool {
    match cmd {
        TaskCommand::Add { name, description, due_date } => {
            &&& add_post(
                old,
                new,
                name,
                description,
                due_date@,
                match r {
                    Ok(_) => Ok(old.next_id),
                    Err(e) => Err(e),
                },
            )
            &&& r matches Ok(out) ==> out@.len() == 0
        },
        TaskCommand::List { due, status } => {
            &&& new == old
            &&& r matches Ok(out)
            &&& exists|now: Timestamp|
                out@ == encode_utf8(lines_text(#[trigger] selected(old.tasks, due, status, now)))
        },
        TaskCommand::Delete { id } => {
            &&& delete_post(old, new, id, has_id(old.tasks, id))
            &&& r matches Ok(out) && out@.len() == 0
        },
        TaskCommand::Update { id, fields } => match parse_update(fields@) {
            Err(m) => new == old && (r matches Err(TaskError::InvalidInput(e)) && e@ == m),
            Ok(p) => {
                &&& update_post(old, new, id, p, without_output(r))
                &&& r matches Ok(out) ==> out@.len() == 0
            },
        },
        TaskCommand::Show { id } => {
            &&& new == old
            &&& has_id(old.tasks, id) ==> (r matches Ok(out) && out@ == encode_utf8(
                task_line(old.tasks[index_of(old.tasks, id)]) + "\n"@,
            ))
            &&& !has_id(old.tasks, id) ==> r matches Err(TaskError::NotFound)
        },
        TaskCommand::Complete { id } => {
            &&& complete_post(old, new, id, without_output(r))
            &&& r matches Ok(out) ==> out@.len() == 0
        },
        TaskCommand::Stats => {
            let s = Stats {
                total: old.tasks.len() as usize,
                completed: completed_count(old.tasks) as usize,
                percent_completed: percent_of(completed_count(old.tasks), old.tasks.len()) as usize,
            };
            &&& new == old
            &&& r matches Ok(out) && out@ == encode_utf8(stats_text(s))
        },
    }
}

/// Carries out a command on the store and returns what it shows (UTF-8
/// text), or the error to report. Writing the output and saving the store
/// are left to the caller.
pub fn run(tasks: &mut Tasks, cmd: &TaskCommand) -> (r: Result<Vec<u8>, TaskError>)
    requires
        old(tasks)@.wf(),
    ensures
        final(tasks)@.wf(),
        run_post(old(tasks)@, final(tasks)@, *cmd, r),
{
    match cmd {
        TaskCommand::Add { name, description, due_date } => {
            match tasks.add_task(name.clone(), description.clone(), due_date.clone()) {
                Ok(_) => Ok(Vec::new()),
                Err(e) => Err(e),
            }
        },
        TaskCommand::List { due, status } => {
            let mut out = Vec::new();
            tasks.list_tasks(&mut out, due, status);
            Ok(out)
        },
        TaskCommand::Delete { id } => {
            tasks.delete_task(*id);
            Ok(Vec::new())
        },
        TaskCommand::Update { id, fields } => {
            match parse_update_fields(fields.as_str()) {
                Ok(patch) => match tasks.update_task(*id, patch) {
                    Ok(()) => Ok(Vec::new()),
                    Err(e) => Err(e),
                },
                Err(e) => Err(e),
            }
        },
        TaskCommand::Show { id } => {
            let mut out = Vec::new();
            match tasks.show_task(*id, &mut out) {
                Ok(()) => Ok(out),
                Err(e) => Err(e),
            }
        },
        TaskCommand::Complete { id } => {
            match tasks.complete_task(*id) {
                Ok(()) => Ok(Vec::new()),
                Err(e) => Err(e),
            }
        },
        TaskCommand::Stats => {
            let stats = tasks.stats();
            let text = stats.to_text();
            let mut out = Vec::new();
            write_text(&mut out, text.as_str());
            Ok(out)
        },
    }
}

} // verus!
