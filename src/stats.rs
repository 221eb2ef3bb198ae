use vstd::prelude::*;

use crate::filtering::{completion_pred, CompletionFilter};
use crate::task::Task;
use crate::text::{decimal, decimal_text};

verus! {

/// Counts over a snapshot of tasks.
#[derive(Debug)]
pub struct Stats {
    pub total: usize,
    pub completed: usize,
    pub percent_completed: usize,
}

/// How many of the tasks are completed.
pub open spec fn completed_count(tasks: Seq<Task>) -> nat {
    tasks.filter(completion_pred(CompletionFilter::Complete)).len()
}

/// The share of `completed` in `total` in percent, rounded down; 0 when
/// there is nothing to count.
pub open spec fn percent_of(completed: nat, total: nat) -> nat {
    if total == 0 {
        0
    } else {
        (100 * completed / total) as nat
    }
}

/// The text that shows the counts, one per line.
pub open spec fn stats_text(s: Stats) -> Seq<char> {
    "Total: "@ + decimal(s.total as nat) + "\nCompleted: "@ + decimal(s.completed as nat)
        + "\nPercent completed: "@ + decimal(s.percent_completed as nat) + "\n"@
}

impl Stats {
    /// The number of tasks, of completed ones, and the percentage completed.
    pub fn new(tasks: &[Task]) -> (r: Stats)
        ensures
            r.total == tasks@.len(),
            r.completed == completed_count(tasks@),
            r.percent_completed == percent_of(completed_count(tasks@), tasks@.len()),
    {
        let ghost pred = completion_pred(CompletionFilter::Complete);
        let total = tasks.len();
        let mut completed: usize = 0;
        let mut i: usize = 0;
        while i < total
            invariant
                total == tasks@.len(),
                i <= total,
                pred == completion_pred(CompletionFilter::Complete),
                completed == tasks@.subrange(0, i as int).filter(pred).len(),
                completed <= i,
            decreases total - i,
        {
            proof {
                reveal(Seq::filter);
                assert(tasks@.subrange(0, i + 1).drop_last() =~= tasks@.subrange(0, i as int));
                assert(tasks@.subrange(0, i + 1).last() == tasks@[i as int]);
            }
            if tasks[i].completed {
                completed += 1;
            }
            i += 1;
        }
        proof {
            assert(tasks@.subrange(0, total as int) =~= tasks@);
        }
        let percent: usize = if total == 0 {
            0
        } else {
            let p = (completed as u128 * 100) / (total as u128);
            assert(p <= 100) by (nonlinear_arith)
                requires
                    p as int == (completed as int * 100) / (total as int),
                    completed <= total,
                    total > 0,
            ;
            p as usize
        };
        Stats { total, completed, percent_completed: percent }
    }

    /// The counts as text: `Total: 3`, `Completed: 2` and
    /// `Percent completed: 66`, each on a line of its own.
    pub fn to_text(&self) -> (r: String)
        ensures
            r@ == stats_text(*self),
    {
        let mut text = String::from_str("Total: ");
        let total = decimal_text(self.total as u64);
        text.append(total.as_str());
        text.append("\nCompleted: ");
        let completed = decimal_text(self.completed as u64);
        text.append(completed.as_str());
        text.append("\nPercent completed: ");
        let percent = decimal_text(self.percent_completed as u64);
        text.append(percent.as_str());
        text.append("\n");
        text
    }
}

} // verus!
