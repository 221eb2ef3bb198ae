use vstd::prelude::*;

use crate::task::Task;
use crate::text::same_text;
use crate::time::{day_of, earlier, within_week, Timestamp};

verus! {

/// A due-date bucket.
#[derive(Clone, Copy, PartialEq, Eq, Debug)]
pub enum DueFilter {
    PastDue,
    DueToday,
    DueThisWeek,
    All,
}

/// A completion status.
#[derive(Clone, Copy, PartialEq, Eq, Debug)]
pub enum CompletionFilter {
    All,
    Complete,
    Incomplete,
}

/// A task due at `due` falls in the bucket `f`, seen at the instant `now`:
/// past due is strictly before now, due today is on now's calendar day in
/// UTC, due this week is from now to seven days on, both ends included.
pub open spec fn due_matches(f: DueFilter, due: Timestamp, now: Timestamp) -> bool {
    match f {
        DueFilter::PastDue => earlier(due@, now@),
        DueFilter::DueToday => day_of(due@.0 as int) == day_of(now@.0 as int),
        DueFilter::DueThisWeek => within_week(due@, now@),
        DueFilter::All => true,
    }
}

/// A task of completion `completed` has the status `f`.
pub open spec fn completion_matches(f: CompletionFilter, completed: bool) -> bool {
    match f {
        CompletionFilter::All => true,
        CompletionFilter::Complete => completed,
        CompletionFilter::Incomplete => !completed,
    }
}

pub open spec fn due_pred(f: DueFilter, now: Timestamp) -> spec_fn(Task) -> bool {
    |t: Task| due_matches(f, t.due_date, now)
}

pub open spec fn completion_pred(f: CompletionFilter) -> spec_fn(Task) -> bool {
    |t: Task| completion_matches(f, t.completed)
}

/// The tasks due in the bucket `f` at the instant `now`, in their order.
pub open spec fn due_filtered(f: DueFilter, tasks: Seq<Task>, now: Timestamp) -> Seq<Task> {
    tasks.filter(due_pred(f, now))
}

/// The tasks of status `f`, in their order.
pub open spec fn completion_filtered(f: CompletionFilter, tasks: Seq<Task>) -> Seq<Task> {
    tasks.filter(completion_pred(f))
}

/// The filter that a flag value names: `today`, `week` or `past`.
pub open spec fn due_filter_named(s: Seq<char>) -> Option<DueFilter> {
    if s == "today"@ {
        Some(DueFilter::DueToday)
    } else if s == "week"@ {
        Some(DueFilter::DueThisWeek)
    } else if s == "past"@ {
        Some(DueFilter::PastDue)
    } else {
        None
    }
}

/// The filter that a flag value names: `all`, `complete` or `incomplete`.
pub open spec fn completion_filter_named(s: Seq<char>) -> Option<CompletionFilter> {
    if s == "all"@ {
        Some(CompletionFilter::All)
    } else if s == "complete"@ {
        Some(CompletionFilter::Complete)
    } else if s == "incomplete"@ {
        Some(CompletionFilter::Incomplete)
    } else {
        None
    }
}

pub open spec fn flag_error_message() -> Seq<char> {
    "Error parsing flag from string"@
}

/// A filter that keeps every element returns its input.
pub proof fn lemma_filter_keep_all(tasks: Seq<Task>, pred: spec_fn(Task) -> bool)
    requires
        forall|t: Task| #[trigger] pred(t),
    ensures
        tasks.filter(pred) == tasks,
    decreases tasks.len(),
{
    reveal(Seq::filter);
    if tasks.len() > 0 {
        lemma_filter_keep_all(tasks.drop_last(), pred);
        assert(tasks.drop_last().push(tasks.last()) =~= tasks);
    }
}

/// The bucket `All` and the status `All`, one after the other, return their
/// input unchanged, in length and in order.
pub proof fn lemma_all_filters_keep_input(tasks: Seq<Task>, now: Timestamp)
    ensures
        completion_filtered(CompletionFilter::All, due_filtered(DueFilter::All, tasks, now))
            == tasks,
{
    lemma_filter_keep_all(tasks, due_pred(DueFilter::All, now));
    lemma_filter_keep_all(tasks, completion_pred(CompletionFilter::All));
}

impl DueFilter {
    /// A task due at `due` falls in this bucket at the instant `now`.
    pub fn matches(&self, due: &Timestamp, now: &Timestamp) -> (r: bool)
        ensures
            r == due_matches(*self, *due, *now),
    {
        match self {
            DueFilter::PastDue => due.is_before(now),
            DueFilter::DueToday => due.day() == now.day(),
            DueFilter::DueThisWeek => due.is_within_week_of(now),
            DueFilter::All => true,
        }
    }

    /// The tasks in this bucket at the instant `now`, in their order.
    pub fn filter_at(&self, tasks: &[Task], now: &Timestamp) -> (r: Vec<Task>)
        ensures
            r@ == due_filtered(*self, tasks@, *now),
    {
        let ghost pred = due_pred(*self, *now);
        let mut out: Vec<Task> = Vec::new();
        let mut i: usize = 0;
        while i < tasks.len()
            invariant
                i <= tasks@.len(),
                pred == due_pred(*self, *now),
                out@ == tasks@.subrange(0, i as int).filter(pred),
            decreases tasks@.len() - i,
        {
            proof {
                reveal(Seq::filter);
                assert(tasks@.subrange(0, i + 1).drop_last() =~= tasks@.subrange(0, i as int));
            }
            let keep = self.matches(&tasks[i].due_date, now);
            proof {
                assert(pred(tasks@[i as int]) == keep);
                assert(tasks@.subrange(0, i + 1).last() == tasks@[i as int]);
            }
            if keep {
                out.push(tasks[i].clone());
            }
            i += 1;
        }
        proof {
            assert(tasks@.subrange(0, tasks@.len() as int) =~= tasks@);
        }
        out
    }

    /// The tasks in this bucket now, in their order; `All` returns them all.
    pub fn filter(&self, tasks: &[Task]) -> (r: Vec<Task>)
        ensures
            exists|now: Timestamp| r@ == #[trigger] due_filtered(*self, tasks@, now),
            *self == DueFilter::All ==> r@ == tasks@,
    {
        let now = Timestamp::now();
        let r = self.filter_at(tasks, &now);
        proof {
            if *self == DueFilter::All {
                lemma_filter_keep_all(tasks@, due_pred(*self, now));
            }
        }
        r
    }

    /// The bucket that a flag value names; an error message for any other
    /// value.
    pub fn from_str(s: &str) -> (r: Result<DueFilter, String>)
        ensures
            match due_filter_named(s@) {
                Some(f) => r == Ok::<DueFilter, String>(f),
                None => r matches Err(m) && m@ == flag_error_message(),
            },
    {
        if same_text(s, "today") {
            Ok(DueFilter::DueToday)
        } else if same_text(s, "week") {
            Ok(DueFilter::DueThisWeek)
        } else if same_text(s, "past") {
            Ok(DueFilter::PastDue)
        } else {
            Err(String::from_str("Error parsing flag from string"))
        }
    }

    /// The name of the bucket.
    pub fn to_text(&self) -> (r: String)
        ensures
            r@ == match *self {
                DueFilter::PastDue => "past_due"@,
                DueFilter::DueToday => "due_today"@,
                DueFilter::DueThisWeek => "due_this_week"@,
                DueFilter::All => "all"@,
            },
    {
        match self {
            DueFilter::PastDue => String::from_str("past_due"),
            DueFilter::DueToday => String::from_str("due_today"),
            DueFilter::DueThisWeek => String::from_str("due_this_week"),
            DueFilter::All => String::from_str("all"),
        }
    }
}

impl CompletionFilter {
    /// A task of completion `completed` has this status.
    pub fn matches(&self, completed: bool) -> (r: bool)
        ensures
            r == completion_matches(*self, completed),
    {
        match self {
            CompletionFilter::All => true,
            CompletionFilter::Complete => completed,
            CompletionFilter::Incomplete => !completed,
        }
    }

    /// The tasks of this status, in their order; `All` returns them all.
    pub fn filter(&self, tasks: &[Task]) -> (r: Vec<Task>)
        ensures
            r@ == completion_filtered(*self, tasks@),
    {
        let ghost pred = completion_pred(*self);
        let mut out: Vec<Task> = Vec::new();
        let mut i: usize = 0;
        while i < tasks.len()
            invariant
                i <= tasks@.len(),
                pred == completion_pred(*self),
                out@ == tasks@.subrange(0, i as int).filter(pred),
            decreases tasks@.len() - i,
        {
            proof {
                reveal(Seq::filter);
                assert(tasks@.subrange(0, i + 1).drop_last() =~= tasks@.subrange(0, i as int));
            }
            let keep = self.matches(tasks[i].completed);
            proof {
                assert(pred(tasks@[i as int]) == keep);
                assert(tasks@.subrange(0, i + 1).last() == tasks@[i as int]);
            }
            if keep {
                out.push(tasks[i].clone());
            }
            i += 1;
        }
        proof {
            assert(tasks@.subrange(0, tasks@.len() as int) =~= tasks@);
        }
        out
    }

    /// The status that a flag value names; an error message for any other
    /// value.
    pub fn from_str(s: &str) -> (r: Result<CompletionFilter, String>)
        ensures
            match completion_filter_named(s@) {
                Some(f) => r == Ok::<CompletionFilter, String>(f),
                None => r matches Err(m) && m@ == flag_error_message(),
            },
    {
        if same_text(s, "all") {
            Ok(CompletionFilter::All)
        } else if same_text(s, "complete") {
            Ok(CompletionFilter::Complete)
        } else if same_text(s, "incomplete") {
            Ok(CompletionFilter::Incomplete)
        } else {
            Err(String::from_str("Error parsing flag from string"))
        }
    }

    /// The name of the status.
    pub fn to_text(&self) -> (r: String)
        ensures
            r@ == match *self {
                CompletionFilter::All => "all"@,
                CompletionFilter::Complete => "complete"@,
                CompletionFilter::Incomplete => "incomplete"@,
            },
    {
        match self {
            CompletionFilter::All => String::from_str("all"),
            CompletionFilter::Complete => String::from_str("complete"),
            CompletionFilter::Incomplete => String::from_str("incomplete"),
        }
    }
}

impl std::str::FromStr for DueFilter {
    type Err = String;

    fn from_str(s: &str) -> Result<DueFilter, String> {
        DueFilter::from_str(s)
    }
}

impl std::str::FromStr for CompletionFilter {
    type Err = String;

    fn from_str(s: &str) -> Result<CompletionFilter, String> {
        CompletionFilter::from_str(s)
    }
}

} // verus!
