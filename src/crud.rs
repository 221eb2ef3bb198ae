use vstd::prelude::*;
use vstd::utf8::encode_utf8;

use crate::error::TaskError;
use crate::filtering::{completion_filtered, due_filtered, CompletionFilter, DueFilter};
use crate::stats::{completed_count, percent_of, Stats};
use crate::task::{task_line, Task};
use crate::text::same_text;
use crate::time::{parsed_instant, Timestamp};
use crate::update::{completed_format_ok, empty_patch, FieldPatch, UpdateFields};

verus! {

/// The task store: tasks in the order they were added, and the id that the
/// next added task receives.
#[derive(Debug)]
pub struct Tasks {
    tasks: Vec<Task>,
    next_id: u32,
}

/// What a store holds.
pub struct StoreView {
    pub tasks: Seq<Task>,
    pub next_id: u32,
}

/// No two tasks share an id.
pub open spec fn ids_distinct(tasks: Seq<Task>) -> bool {
    forall|i: int, j: int|
        0 <= i < tasks.len() && 0 <= j < tasks.len() && i != j ==> tasks[i].id != tasks[j].id
}

/// Some task has the id `id`.
pub open spec fn has_id(tasks: Seq<Task>, id: u32) -> bool {
    exists|i: int| 0 <= i < tasks.len() && tasks[i].id == id
}

/// The place of the task with id `id`.
pub open spec fn index_of(tasks: Seq<Task>, id: u32) -> int {
    choose|i: int| 0 <= i < tasks.len() && tasks[i].id == id
}

impl StoreView {
    /// Ids are positive, distinct, and below the next id to hand out.
    pub open spec fn wf(self) -> bool {
        &&& self.next_id >= 1
        &&& forall|i: int| 0 <= i < self.tasks.len() ==> 0 < #[trigger] self.tasks[i].id < self.next_id
        &&& ids_distinct(self.tasks)
    }
}

/// `new` is `old` with one task appended under the id `id`, which was the
/// next id, and the next id moved one up.
pub open spec fn id_allocated(old: StoreView, new: StoreView, id: u32) -> bool {
    &&& id == old.next_id
    &&& new.next_id == id + 1
    &&& new.tasks.len() == old.tasks.len() + 1
    &&& new.tasks.drop_last() == old.tasks
    &&& new.tasks.last().id == id
}

/// `t` is a fresh task with these fields, due at `due`.
pub open spec fn fresh_task(t: Task, name: String, description: String, due: (i64, u32)) -> bool {
    &&& t.name == name
    &&& t.description == description
    &&& t.due_date@ == due
    &&& !t.completed
}

/// A list of tasks can make a store: ids are distinct, positive, and leave
/// room for one more.
pub open spec fn restorable(tasks: Seq<Task>) -> bool {
    &&& ids_distinct(tasks)
    &&& forall|i: int| 0 <= i < tasks.len() ==> 0 < #[trigger] tasks[i].id < u32::MAX
}

/// `next` is one more than the largest id of `tasks`, or 1 when there is none.
pub open spec fn next_after(tasks: Seq<Task>, next: u32) -> bool {
    &&& forall|i: int| 0 <= i < tasks.len() ==> #[trigger] tasks[i].id < next
    &&& tasks.len() == 0 ==> next == 1
    &&& tasks.len() > 0 ==> exists|i: int| 0 <= i < tasks.len() && tasks[i].id + 1 == next
}

/// The error, if any, that an update with the patch `p` meets: a completion
/// flag other than `true` or `false`, else a due date that does not parse.
pub open spec fn update_error(p: FieldPatch) -> Option<TaskError> {
    if p.completed matches Some(c) && !completed_format_ok(c) {
        Some(TaskError::ParseBoolError)
    } else if p.due_date matches Some(d) && parsed_instant(d) is None {
        Some(TaskError::InvalidDueDateFormat)
    } else {
        None
    }
}

/// `new_t` is `old_t` with the fields that the patch sets replaced.
pub open spec fn patched(old_t: Task, p: FieldPatch, new_t: Task) -> bool {
    &&& new_t.id == old_t.id
    &&& new_t.name@ == match p.name {
        Some(n) => n,
        None => old_t.name@,
    }
    &&& new_t.description@ == match p.description {
        Some(d) => d,
        None => old_t.description@,
    }
    &&& match p.due_date {
        Some(d) => parsed_instant(d) == Some(new_t.due_date@),
        None => new_t.due_date == old_t.due_date,
    }
    &&& new_t.completed == match p.completed {
        Some(c) => c == "true"@,
        None => old_t.completed,
    }
}

/// What `add_task` does: the store is left as it was, with
/// `InvalidDueDateFormat` when the due date does not parse and with
/// `InvalidTaskId` when the ids are used up; else a fresh task is appended
/// under the next id, which is returned.
pub open spec fn add_post(
    old: StoreView,
    new: StoreView,
    name: String,
    description: String,
    due_date: Seq<char>,
    r: Result<u32, TaskError>,
) -> bool {
    match parsed_instant(due_date) {
        None => r matches Err(TaskError::InvalidDueDateFormat) && new == old,
        Some(p) => if old.next_id == u32::MAX {
            r matches Err(TaskError::InvalidTaskId) && new == old
        } else {
            &&& r == Ok::<u32, TaskError>(old.next_id)
            &&& id_allocated(old, new, old.next_id)
            &&& fresh_task(new.tasks.last(), name, description, p)
        },
    }
}

/// What `delete_task` does: the task with id `id` is removed, and `r` tells
/// whether there was one; the store is left as it was when there was none.
pub open spec fn delete_post(old: StoreView, new: StoreView, id: u32, r: bool) -> bool {
    &&& r == has_id(old.tasks, id)
    &&& r ==> new.tasks == old.tasks.remove(index_of(old.tasks, id)) && new.next_id == old.next_id
    &&& !r ==> new == old
}

/// What `update_task` does with the patch `p`: `NotFound` when there is no
/// task with id `id`, else the error of the patch, if any; on an error the
/// store is left as it was, else the task is patched in its place.
pub open spec fn update_post(
    old: StoreView,
    new: StoreView,
    id: u32,
    p: FieldPatch,
    r: Result<(), TaskError>,
) -> bool {
    &&& new.next_id == old.next_id
    &&& !has_id(old.tasks, id) ==> (r matches Err(TaskError::NotFound) && new == old)
    &&& has_id(old.tasks, id) ==> match update_error(p) {
        Some(e) => r == Err::<(), TaskError>(e) && new == old,
        None => {
            let i = index_of(old.tasks, id);
            &&& r is Ok
            &&& new.tasks == old.tasks.update(i, new.tasks[i])
            &&& patched(old.tasks[i], p, new.tasks[i])
        },
    }
}

/// What `complete_task` does: the task with id `id` is marked completed;
/// `NotFound`, with the store as it was, when there is none.
pub open spec fn complete_post(
    old: StoreView,
    new: StoreView,
    id: u32,
    r: Result<(), TaskError>,
) -> bool {
    &&& new.next_id == old.next_id
    &&& has_id(old.tasks, id) ==> {
        let i = index_of(old.tasks, id);
        &&& r is Ok
        &&& new.tasks == old.tasks.update(i, new.tasks[i])
        &&& new.tasks[i] == (Task { completed: true, ..old.tasks[i] })
    }
    &&& !has_id(old.tasks, id) ==> (r matches Err(TaskError::NotFound) && new == old)
}

/// The tasks that a listing shows at the instant `now`: those in the due
/// bucket, then of those the ones with the status; a filter left out keeps all.
pub open spec fn selected(
    tasks: Seq<Task>,
    due: Option<DueFilter>,
    status: Option<CompletionFilter>,
    now: Timestamp,
) -> Seq<Task> {
    let d = match due {
        Some(f) => f,
        None => DueFilter::All,
    };
    let c = match status {
        Some(f) => f,
        None => CompletionFilter::All,
    };
    completion_filtered(c, due_filtered(d, tasks, now))
}

/// The lines that show the tasks, one after the other, each ended by a newline.
pub open spec fn lines_text(tasks: Seq<Task>) -> Seq<char>
    decreases tasks.len(),
{
    if tasks.len() == 0 {
        Seq::empty()
    } else {
        lines_text(tasks.drop_last()) + task_line(tasks.last()) + "\n"@
    }
}

/// In a store, the task with a given id sits at one place only.
proof fn lemma_index_of(tasks: Seq<Task>, id: u32, i: int)
    requires
        ids_distinct(tasks),
        0 <= i < tasks.len(),
        tasks[i].id == id,
    ensures
        has_id(tasks, id),
        index_of(tasks, id) == i,
{
}

/// Ids handed out by `add_task` grow and never repeat. After an add that
/// returned `first`, a later add on a store whose next id has not gone down
/// meanwhile (no operation lowers it) returns an id above `first`, which no
/// task of that store holds, and the store it leaves keeps its ids distinct.
pub proof fn lemma_add_ids_increase(
    before_first: StoreView,
    after_first: StoreView,
    first: u32,
    before_second: StoreView,
    after_second: StoreView,
    second: u32,
)
    requires
        id_allocated(before_first, after_first, first),
        after_first.next_id <= before_second.next_id,
        before_second.wf(),
        id_allocated(before_second, after_second, second),
    ensures
        first < second,
        !has_id(before_second.tasks, second),
        ids_distinct(after_second.tasks),
{
    let old = before_second.tasks;
    let new = after_second.tasks;
    assert forall|i: int| 0 <= i < new.len() - 1 implies new[i] == old[i] by {
        assert(new.drop_last()[i] == new[i]);
    }
}

/// The tasks of any store, read back as they were saved, make a store again:
/// `from_tasks` accepts them and keeps them, in their order.
pub proof fn lemma_store_tasks_restorable(s: StoreView)
    requires
        s.wf(),
    ensures
        restorable(s.tasks),
{
}

/// Writes the text, as UTF-8, at the end of `writer`.
pub(crate) fn write_text(writer: &mut Vec<u8>, text: &str)
    ensures
        final(writer)@ == old(writer)@ + encode_utf8(text@),
{
    let bytes = text.as_bytes();
    let mut i: usize = 0;
    while i < bytes.len()
        invariant
            i <= bytes@.len(),
            bytes@ == encode_utf8(text@),
            writer@ == old(writer)@ + bytes@.subrange(0, i as int),
        decreases bytes@.len() - i,
    {
        writer.push(bytes[i]);
        i += 1;
        proof {
            assert(old(writer)@ + bytes@.subrange(0, i as int) =~= old(writer)@ + bytes@.subrange(
                0,
                i - 1,
            ) + seq![bytes@[i - 1]]);
        }
    }
    proof {
        assert(bytes@.subrange(0, bytes@.len() as int) =~= bytes@);
    }
}

/// The lines that show the tasks.
fn lines(tasks: &[Task]) -> (r: String)
    ensures
        r@ == lines_text(tasks@),
{
    let mut text = String::new();
    let mut i: usize = 0;
    while i < tasks.len()
        invariant
            i <= tasks@.len(),
            text@ == lines_text(tasks@.subrange(0, i as int)),
        decreases tasks@.len() - i,
    {
        let line = tasks[i].to_text();
        text.append(line.as_str());
        text.append("\n");
        proof {
            assert(tasks@.subrange(0, i + 1).drop_last() =~= tasks@.subrange(0, i as int));
            assert(tasks@.subrange(0, i + 1).last() == tasks@[i as int]);
        }
        i += 1;
    }
    proof {
        assert(tasks@.subrange(0, tasks@.len() as int) =~= tasks@);
    }
    text
}

impl View for Tasks {
    type V = StoreView;

    closed spec fn view(&self) -> StoreView {
        StoreView { tasks: self.tasks@, next_id: self.next_id }
    }
}

impl Tasks {
    /// An empty store, whose first task gets the id 1.
    pub fn new() -> (r: Self)
        ensures
            r@.wf(),
            r@.tasks == Seq::<Task>::empty(),
            r@.next_id == 1,
    {
        Tasks { tasks: Vec::new(), next_id: 1 }
    }

    /// A store that holds these tasks, in this order, and hands out ids
    /// above all of theirs; `InvalidTaskId` when two tasks share an id, or an
    /// id is 0 or the largest `u32`.
    pub fn from_tasks(tasks: Vec<Task>) -> (r: Result<Tasks, TaskError>)
        ensures
            r is Ok <==> restorable(tasks@),
            r matches Ok(s) ==> s@.wf() && s@.tasks == tasks@ && next_after(tasks@, s@.next_id),
            r matches Err(e) ==> e is InvalidTaskId,
    {
        let mut next: u32 = 1;
        let mut i: usize = 0;
        while i < tasks.len()
            invariant
                i <= tasks@.len(),
                restorable(tasks@.subrange(0, i as int)),
                next_after(tasks@.subrange(0, i as int), next),
            decreases tasks@.len() - i,
        {
            let id = tasks[i].id;
            if id == 0 || id == u32::MAX {
                proof {
                    assert(tasks@[i as int].id == id);
                }
                return Err(TaskError::InvalidTaskId);
            }
            let mut j: usize = 0;
            while j < i
                invariant
                    j <= i < tasks@.len(),
                    id == tasks@[i as int].id,
                    forall|k: int| 0 <= k < j ==> tasks@[k].id != id,
                decreases i - j,
            {
                if tasks[j].id == id {
                    return Err(TaskError::InvalidTaskId);
                }
                j += 1;
            }
            let ghost prev = tasks@.subrange(0, i as int);
            let ghost cur = tasks@.subrange(0, i + 1);
            proof {
                assert forall|k: int| 0 <= k < i implies cur[k] == prev[k] by {}
                if id >= next {
                    assert(cur[i as int].id + 1 == id + 1);
                } else if i > 0 {
                    let w = choose|k: int| 0 <= k < prev.len() && prev[k].id + 1 == next;
                    assert(cur[w].id + 1 == next);
                }
            }
            if id >= next {
                next = id + 1;
            }
            i += 1;
        }
        proof {
            assert(tasks@.subrange(0, tasks@.len() as int) =~= tasks@);
        }
        Ok(Tasks { tasks, next_id: next })
    }

    /// The tasks, in their order.
    pub fn get_tasks(&self) -> (r: &[Task])
        ensures
            r@ == self@.tasks,
    {
        self.tasks.as_slice()
    }

    /// The id that the next added task receives.
    pub fn next_id(&self) -> (r: u32)
        ensures
            r == self@.next_id,
    {
        self.next_id
    }

    /// Adds a task under the next id and returns that id. The store is left
    /// as it was, with `InvalidDueDateFormat` when the due date does not
    /// parse, and with `InvalidTaskId` when the ids are used up.
    pub fn add_task(&mut self, name: String, description: String, due_date: String) -> (r: Result<
        u32,
        TaskError,
    >)
        requires
            old(self)@.wf(),
        ensures
            final(self)@.wf(),
            add_post(old(self)@, final(self)@, name, description, due_date@, r),
    {
        let id = self.next_id;
        let task = match Task::new(id, name, description, due_date) {
            Ok(t) => t,
            Err(e) => {
                return Err(e);
            },
        };
        if id == u32::MAX {
            return Err(TaskError::InvalidTaskId);
        }
        let ghost old_tasks = self.tasks@;
        self.tasks.push(task);
        self.next_id = id + 1;
        proof {
            assert(self.tasks@.drop_last() =~= old_tasks);
        }
        Ok(id)
    }

    /// The place of the task with id `id`, if there is one.
    fn position(&self, id: u32) -> (r: Option<usize>)
        requires
            self@.wf(),
        ensures
            r is Some <==> has_id(self@.tasks, id),
            r matches Some(i) ==> i == index_of(self@.tasks, id) && i < self@.tasks.len(),
    {
        let mut i: usize = 0;
        while i < self.tasks.len()
            invariant
                i <= self.tasks@.len(),
                ids_distinct(self.tasks@),
                forall|k: int| 0 <= k < i ==> self.tasks@[k].id != id,
            decreases self.tasks@.len() - i,
        {
            if self.tasks[i].id == id {
                proof {
                    lemma_index_of(self.tasks@, id, i as int);
                }
                return Some(i);
            }
            i += 1;
        }
        None
    }

    /// Removes the task with id `id` and tells whether there was one; the
    /// store is left as it was when there was none.
    pub fn delete_task(&mut self, id: u32) -> (r: bool)
        requires
            old(self)@.wf(),
        ensures
            final(self)@.wf(),
            delete_post(old(self)@, final(self)@, id, r),
    {
        match self.position(id) {
            Some(i) => {
                let ghost old_tasks = self.tasks@;
                self.tasks.remove(i);
                proof {
                    assert forall|a: int, b: int|
                        0 <= a < self.tasks@.len() && 0 <= b < self.tasks@.len() && a
                            != b implies self.tasks@[a].id != self.tasks@[b].id by {
                        let oa = if a < i { a } else { a + 1 };
                        let ob = if b < i { b } else { b + 1 };
                        assert(self.tasks@[a] == old_tasks[oa]);
                        assert(self.tasks@[b] == old_tasks[ob]);
                    }
                    assert forall|a: int| 0 <= a < self.tasks@.len() implies 0
                        < #[trigger] self.tasks@[a].id < self.next_id by {
                        let oa = if a < i { a } else { a + 1 };
                        assert(self.tasks@[a] == old_tasks[oa]);
                    }
                }
                true
            },
            None => false,
        }
    }

    /// The place and the task with id `id`, if there is one.
    pub fn find_task_by_id(&self, id: u32) -> (r: Option<(usize, &Task)>)
        requires
            self@.wf(),
        ensures
            r is Some <==> has_id(self@.tasks, id),
            r matches Some(found) ==> found.0 == index_of(self@.tasks, id) && *found.1
                == self@.tasks[found.0 as int],
    {
        match self.position(id) {
            Some(i) => Some((i, &self.tasks[i])),
            None => None,
        }
    }

    /// Replaces, in the task with id `id`, the fields that `fields` sets.
    /// `NotFound` when there is no such task; `ParseBoolError` when the
    /// completion flag is neither `true` nor `false`; `InvalidDueDateFormat`
    /// when the due date does not parse. On an error the store is unchanged.
    pub fn update_task(&mut self, id: u32, fields: UpdateFields) -> (r: Result<(), TaskError>)
        requires
            old(self)@.wf(),
        ensures
            final(self)@.wf(),
            update_post(old(self)@, final(self)@, id, fields@, r),
            has_id(old(self)@.tasks, id) && fields@ == empty_patch() ==> r is Ok && final(self)@
                == old(self)@,
            fields@.completed matches Some(c) && !completed_format_ok(c) ==> r is Err
                && final(self)@ == old(self)@,
    {
        let i = match self.position(id) {
            Some(i) => i,
            None => {
                return Err(TaskError::NotFound);
            },
        };
        let completed = match &fields.completed {
            Some(c) => {
                if same_text(c.as_str(), "true") {
                    true
                } else if same_text(c.as_str(), "false") {
                    false
                } else {
                    return Err(TaskError::ParseBoolError);
                }
            },
            None => self.tasks[i].completed,
        };
        let due_date = match &fields.due_date {
            Some(d) => match Timestamp::parse(d.as_str()) {
                Some(t) => t,
                None => {
                    return Err(TaskError::InvalidDueDateFormat);
                },
            },
            None => self.tasks[i].due_date,
        };
        let ghost old_tasks = self.tasks@;
        let name = match fields.name {
            Some(n) => n,
            None => self.tasks[i].name.clone(),
        };
        let description = match fields.description {
            Some(d) => d,
            None => self.tasks[i].description.clone(),
        };
        let updated = Task { id: self.tasks[i].id, name, description, due_date, completed };
        self.tasks[i] = updated;
        proof {
            assert(self.tasks@ =~= old_tasks.update(i as int, self.tasks@[i as int]));
            assert forall|a: int, b: int|
                0 <= a < self.tasks@.len() && 0 <= b < self.tasks@.len() && a
                    != b implies self.tasks@[a].id != self.tasks@[b].id by {
                assert(self.tasks@[a].id == old_tasks[a].id);
                assert(self.tasks@[b].id == old_tasks[b].id);
            }
            assert forall|a: int| 0 <= a < self.tasks@.len() implies 0
                < #[trigger] self.tasks@[a].id < self.next_id by {
                assert(self.tasks@[a].id == old_tasks[a].id);
            }
            if fields@ == empty_patch() {
                assert(self.tasks@[i as int] == old_tasks[i as int]);
                assert(self.tasks@ =~= old_tasks);
            }
        }
        Ok(())
    }

    /// Writes the line that shows the task with id `id`, and a newline;
    /// `NotFound`, with nothing written, when there is no such task.
    pub fn show_task(&self, id: u32, writer: &mut Vec<u8>) -> (r: Result<(), TaskError>)
        requires
            self@.wf(),
        ensures
            has_id(self@.tasks, id) ==> r is Ok && final(writer)@ == old(writer)@ + encode_utf8(
                task_line(self@.tasks[index_of(self@.tasks, id)]) + "\n"@,
            ),
            !has_id(self@.tasks, id) ==> (r matches Err(TaskError::NotFound) && final(writer)@
                == old(writer)@),
    {
        match self.position(id) {
            Some(i) => {
                let mut line = self.tasks[i].to_text();
                line.append("\n");
                write_text(writer, line.as_str());
                Ok(())
            },
            None => Err(TaskError::NotFound),
        }
    }

    /// Marks the task with id `id` completed; `NotFound`, with the store
    /// unchanged, when there is no such task.
    pub fn complete_task(&mut self, id: u32) -> (r: Result<(), TaskError>)
        requires
            old(self)@.wf(),
        ensures
            final(self)@.wf(),
            complete_post(old(self)@, final(self)@, id, r),
    {
        match self.position(id) {
            Some(i) => {
                let ghost old_tasks = self.tasks@;
                let mut task = self.tasks[i].clone();
                task.completed = true;
                self.tasks[i] = task;
                proof {
                    assert(self.tasks@ =~= old_tasks.update(i as int, self.tasks@[i as int]));
                    assert forall|a: int, b: int|
                        0 <= a < self.tasks@.len() && 0 <= b < self.tasks@.len() && a
                            != b implies self.tasks@[a].id != self.tasks@[b].id by {
                        assert(self.tasks@[a].id == old_tasks[a].id);
                        assert(self.tasks@[b].id == old_tasks[b].id);
                    }
                    assert forall|a: int| 0 <= a < self.tasks@.len() implies 0
                        < #[trigger] self.tasks@[a].id < self.next_id by {
                        assert(self.tasks@[a].id == old_tasks[a].id);
                    }
                }
                Ok(())
            },
            None => Err(TaskError::NotFound),
        }
    }

    /// The tasks in the due bucket now, then of those the ones with the
    /// status, in their order.
    pub fn filter_tasks(tasks: &[Task], due_filter: DueFilter, completion_filter: CompletionFilter) -> (r: Vec<Task>)
        ensures
            exists|now: Timestamp|
                r@ == #[trigger] completion_filtered(
                    completion_filter,
                    due_filtered(due_filter, tasks@, now),
                ),
            due_filter == DueFilter::All && completion_filter == CompletionFilter::All ==> r@
                == tasks@,
    {
        let by_due = due_filter.filter(tasks);
        let r = completion_filter.filter(by_due.as_slice());
        proof {
            let now = choose|now: Timestamp| by_due@ == #[trigger] due_filtered(due_filter, tasks@, now);
            assert(r@ == completion_filtered(completion_filter, due_filtered(due_filter, tasks@, now)));
            if due_filter == DueFilter::All && completion_filter == CompletionFilter::All {
                crate::filtering::lemma_all_filters_keep_input(tasks@, now);
            }
        }
        r
    }

    /// Writes, one line each, the tasks in the due bucket now and with the
    /// status; a filter left out keeps every task.
    pub fn list_tasks(
        &self,
        writer: &mut Vec<u8>,
        due: &Option<DueFilter>,
        status: &Option<CompletionFilter>,
    )
        ensures
            exists|now: Timestamp|
                final(writer)@ == old(writer)@ + encode_utf8(
                    lines_text(#[trigger] selected(self@.tasks, *due, *status, now)),
                ),
            due is None && status is None ==> final(writer)@ == old(writer)@ + encode_utf8(
                lines_text(self@.tasks),
            ),
    {
        let due_filter = match due {
            Some(f) => *f,
            None => DueFilter::All,
        };
        let status_filter = match status {
            Some(f) => *f,
            None => CompletionFilter::All,
        };
        let listed = Tasks::filter_tasks(self.tasks.as_slice(), due_filter, status_filter);
        let text = lines(listed.as_slice());
        write_text(writer, text.as_str());
        proof {
            let now = choose|now: Timestamp|
                listed@ == #[trigger] completion_filtered(
                    status_filter,
                    due_filtered(due_filter, self@.tasks, now),
                );
            assert(listed@ == selected(self@.tasks, *due, *status, now));
        }
    }

    /// The counts over all tasks of the store.
    pub fn stats(&self) -> (r: Stats)
        ensures
            r.total == self@.tasks.len(),
            r.completed == completed_count(self@.tasks),
            r.percent_completed == percent_of(completed_count(self@.tasks), self@.tasks.len()),
    {
        Stats::new(self.tasks.as_slice())
    }
}

} // verus!
