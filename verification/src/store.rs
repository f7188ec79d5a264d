//! The record store: the authoritative task list and label list. It
//! enforces the referential rules between tasks and labels: removing a
//! label clears every reference to it in the same step.

use vstd::prelude::*;
use crate::date::DueDate;
use crate::label;
use crate::label::TaskLabel;
use crate::sorting;
use crate::task::Task;
use crate::text;

verus! {

/// The instant a task is due for ordering purposes: its own due date, or
/// `now` when it has none (an unscheduled task sorts as due immediately).
pub open spec fn eff_due(now: DueDate, t: Task) -> DueDate {
    match t.due_date {
        Option::Some(d) => d,
        Option::None => now,
    }
}

/// The store's task order: incomplete before complete, then ascending by
/// due date, an absent due date reading as `now`.
pub open spec fn task_leq(now: DueDate) -> spec_fn(Task, Task) -> bool {
    |a: Task, b: Task|
        if a.done != b.done {
            !a.done
        } else {
            eff_due(now, a).spec_le(eff_due(now, b))
        }
}

/// The task order is a total preorder, as the sort requires.
pub proof fn lemma_task_leq_total(now: DueDate)
    ensures
        sorting::total_leq(task_leq(now)),
{
}

/// Executable comparison matching `task_leq`.
pub fn task_le(now: &DueDate, a: &Task, b: &Task) -> (r: bool)
    ensures
        r == task_leq(*now)(*a, *b),
{
    if a.done != b.done {
        !a.done
    } else {
        let da = match &a.due_date {
            Some(d) => *d,
            None => *now,
        };
        let db = match &b.due_date {
            Some(d) => *d,
            None => *now,
        };
        da.le(&db)
    }
}

/// `t` with its label reference cleared, all else equal.
pub open spec fn label_cleared(t: Task) -> Task {
    Task { label: Option::None, ..t }
}

/// Keeps the labels whose code is not `code` (the removal predicate).
pub open spec fn keeps_code(code: Seq<char>) -> spec_fn(TaskLabel) -> bool {
    |l: TaskLabel| l.spec_short_name() != code
}

/// The store.
#[derive(Debug)]
pub struct TaskDB {
    pub tasks: Vec<Task>,
    pub labels: Vec<TaskLabel>,
}

impl TaskDB {
    /// Every record is well-formed.
    pub open spec fn wf(&self) -> bool {
        &&& forall|i: int| 0 <= i < self.tasks@.len() ==> (#[trigger] self.tasks@[i]).wf()
        &&& forall|i: int| 0 <= i < self.labels@.len() ==> (#[trigger] self.labels@[i]).wf()
    }

    /// There is a label with this code.
    pub open spec fn has_label_code(&self, code: Seq<char>) -> bool {
        exists|i: int|
            0 <= i < self.labels@.len() && (#[trigger] self.labels@[i]).spec_short_name() == code
    }

    /// Every task's label reference resolves to a label in the store.
    pub open spec fn labels_resolved(&self) -> bool {
        forall|i: int|
            0 <= i < self.tasks@.len() ==> match (#[trigger] self.tasks@[i]).spec_label_code() {
                Option::Some(code) => self.has_label_code(code),
                Option::None => true,
            }
    }

    pub fn new() -> (db: Self)
        ensures
            db.wf(),
            db.tasks@.len() == 0,
            db.labels@.len() == 0,
    {
        TaskDB { tasks: Vec::new(), labels: Vec::new() }
    }

    pub fn tasks(&self) -> (r: &Vec<Task>)
        ensures
            r == self.tasks,
    {
        &self.tasks
    }

    pub fn tasks_mut(&mut self) -> (r: &mut Vec<Task>)
        ensures
            *r == old(self).tasks,
            final(self).tasks == *final(r),
            final(self).labels == old(self).labels,
    {
        &mut self.tasks
    }

    pub fn labels(&self) -> (r: &Vec<TaskLabel>)
        ensures
            r == self.labels,
    {
        &self.labels
    }

    pub fn labels_mut(&mut self) -> (r: &mut Vec<TaskLabel>)
        ensures
            *r == old(self).labels,
            final(self).labels == *final(r),
            final(self).tasks == old(self).tasks,
    {
        &mut self.labels
    }

    pub fn num_tasks(&self) -> (r: usize)
        ensures
            r == self.tasks@.len(),
    {
        self.tasks.len()
    }

    pub fn len(&self) -> (r: usize)
        ensures
            r == self.tasks@.len(),
    {
        self.tasks.len()
    }

    pub fn has_no_tasks(&self) -> (r: bool)
        ensures
            r == (self.tasks@.len() == 0),
    {
        self.tasks.is_empty()
    }

    pub fn has_tasks(&self) -> (r: bool)
        ensures
            r == (self.tasks@.len() > 0),
    {
        !self.has_no_tasks()
    }

    pub fn is_empty(&self) -> (r: bool)
        ensures
            r == (self.tasks@.len() == 0),
    {
        self.tasks.is_empty()
    }

    /// Appends a task; its position is the returned handle.
    pub fn add_task(&mut self, task: Task) -> (idx: usize)
        ensures
            final(self).tasks@ == old(self).tasks@.push(task),
            final(self).labels == old(self).labels,
            idx == old(self).tasks@.len(),
    {
        let idx = self.tasks.len();
        self.tasks.push(task);
        idx
    }

    /// Appends a blank task.
    pub fn add_default(&mut self) -> (idx: usize)
        ensures
            final(self).tasks@.len() == old(self).tasks@.len() + 1,
            final(self).tasks@.take(old(self).tasks@.len() as int) == old(self).tasks@,
            final(self).tasks@.last().wf(),
            final(self).tasks@.last().title@ == Seq::<char>::empty(),
            final(self).tasks@.last().notes@ == Seq::<char>::empty(),
            final(self).tasks@.last().priority == crate::task::Priority::Unset,
            final(self).tasks@.last().due_date is None,
            final(self).tasks@.last().label is None,
            !final(self).tasks@.last().done,
            final(self).labels == old(self).labels,
            idx == old(self).tasks@.len(),
    {
        let t = Task::default();
        let idx = self.tasks.len();
        self.tasks.push(t);
        proof {
            assert(self.tasks@.take(old(self).tasks@.len() as int) =~= old(self).tasks@);
        }
        idx
    }

    /// Appends a label; its position is the returned handle.
    pub fn add_label(&mut self, label: TaskLabel) -> (idx: usize)
        ensures
            final(self).labels@ == old(self).labels@.push(label),
            final(self).tasks == old(self).tasks,
            idx == old(self).labels@.len(),
    {
        let idx = self.labels.len();
        self.labels.push(label);
        idx
    }

    /// The task at a handle, if the handle is still valid.
    pub fn task(&self, idx: usize) -> (r: Option<&Task>)
        ensures
            idx < self.tasks@.len() ==> r == Some(&self.tasks@[idx as int]),
            idx >= self.tasks@.len() ==> r is None,
    {
        if idx < self.tasks.len() {
            Some(&self.tasks[idx])
        } else {
            None
        }
    }

    /// Removes the task at a handle; out-of-range handles are ignored.
    pub fn remove_task(&mut self, idx: usize)
        ensures
            idx < old(self).tasks@.len() ==> final(self).tasks@ == old(self).tasks@.remove(
                idx as int,
            ),
            idx >= old(self).tasks@.len() ==> final(self).tasks@ == old(self).tasks@,
            final(self).labels == old(self).labels,
    {
        if idx < self.tasks.len() {
            self.tasks.remove(idx);
        }
    }

    /// The position of the first label whose code is `tag` (padded to the
    /// code width), or `None` when no label carries that code.
    pub fn label_by_tag(&self, tag: &str) -> (r: Option<usize>)
        ensures
            match r {
                Option::Some(i) => {
                    &&& i < self.labels@.len()
                    &&& self.labels@[i as int].spec_short_name() == label::short_code(tag@)
                    &&& forall|k: int|
                        0 <= k < i ==> (#[trigger] self.labels@[k]).spec_short_name()
                            != label::short_code(tag@)
                },
                Option::None => forall|k: int|
                    0 <= k < self.labels@.len() ==> (#[trigger] self.labels@[k]).spec_short_name()
                        != label::short_code(tag@),
            },
            r is Some <==> self.has_label_code(label::short_code(tag@)),
    {
        let code = TaskLabel::generate_short_name(tag);
        let n = self.labels.len();
        let mut i: usize = 0;
        while i < n
            invariant
                0 <= i <= n,
                n == self.labels@.len(),
                code@ == label::short_code(tag@),
                forall|k: int|
                    0 <= k < i ==> (#[trigger] self.labels@[k]).spec_short_name() != code@,
            decreases n - i,
        {
            if self.labels[i].has_code(code.as_str()) {
                return Some(i);
            }
            i = i + 1;
        }
        None
    }

    /// Removes every label carrying this code and, in the same step,
    /// clears the label reference of every task that pointed at it.
    /// Afterwards no task references the code.
    pub fn remove_label(&mut self, tag: &str)
        ensures
            final(self).labels@ == old(self).labels@.filter(keeps_code(label::short_code(tag@))),
            final(self).tasks@.len() == old(self).tasks@.len(),
            forall|i: int|
                0 <= i < old(self).tasks@.len() ==> final(self).tasks@[i] == (
                if old(self).tasks@[i].spec_label_code() == Some(label::short_code(tag@)) {
                    label_cleared(old(self).tasks@[i])
                } else {
                    old(self).tasks@[i]
                }),
            forall|i: int|
                0 <= i < final(self).tasks@.len()
                    ==> (#[trigger] final(self).tasks@[i]).spec_label_code() != Some(
                    label::short_code(tag@),
                ),
            old(self).wf() ==> final(self).wf(),
    {
        let code = TaskLabel::generate_short_name(tag);
        let ghost pred = keeps_code(label::short_code(tag@));
        let ghost old_labels = self.labels@;
        let ghost was_wf = old(self).wf();

        let mut kept: Vec<TaskLabel> = Vec::new();
        let mut i: usize = 0;
        let n = self.labels.len();
        proof {
            reveal(Seq::filter);
            assert(old_labels.take(0) =~= Seq::<TaskLabel>::empty());
            assert(kept@ == old_labels.take(0).filter(pred));
        }
        while i < n
            invariant
                0 <= i <= n,
                n == self.labels@.len(),
                self.labels@ == old_labels,
                self.tasks@ == old(self).tasks@,
                was_wf == old(self).wf(),
                code@ == label::short_code(tag@),
                pred == keeps_code(label::short_code(tag@)),
                kept@ == old_labels.take(i as int).filter(pred),
                was_wf ==> forall|k: int| 0 <= k < kept@.len() ==> (#[trigger] kept@[k]).wf(),
            decreases n - i,
        {
            let keep = !self.labels[i].has_code(code.as_str());
            proof {
                reveal(Seq::filter);
                assert(old_labels.take(i + 1).drop_last() =~= old_labels.take(i as int));
                assert(old_labels.take(i + 1).last() == old_labels[i as int]);
            }
            if keep {
                let l = self.labels[i].duplicate();
                kept.push(l);
            }
            i = i + 1;
        }
        proof {
            assert(old_labels.take(n as int) =~= old_labels);
        }
        self.labels = kept;

        let mut j: usize = 0;
        let ghost old_tasks = self.tasks@;
        while j < self.tasks.len()
            invariant
                0 <= j <= self.tasks@.len(),
                self.tasks@.len() == old_tasks.len(),
                code@ == label::short_code(tag@),
                pred == keeps_code(label::short_code(tag@)),
                self.labels@ == old_labels.filter(pred),
                was_wf ==> forall|k: int|
                    0 <= k < self.labels@.len() ==> (#[trigger] self.labels@[k]).wf(),
                was_wf ==> forall|k: int|
                    0 <= k < old_tasks.len() ==> (#[trigger] old_tasks[k]).wf(),
                forall|k: int| j <= k < old_tasks.len() ==> self.tasks@[k] == old_tasks[k],
                forall|k: int|
                    0 <= k < j ==> self.tasks@[k] == (
                    if old_tasks[k].spec_label_code() == Some(label::short_code(tag@)) {
                        label_cleared(old_tasks[k])
                    } else {
                        old_tasks[k]
                    }),
            decreases self.tasks@.len() - j,
        {
            let matches_code = match self.tasks[j].label() {
                Some(c) => text::str_eq(c.as_str(), code.as_str()),
                None => false,
            };
            if matches_code {
                self.tasks[j].remove_label();
                proof {
                    assert(self.tasks@[j as int] =~= label_cleared(old_tasks[j as int]));
                }
            }
            j = j + 1;
        }
        proof {
            if was_wf {
                assert forall|k: int| 0 <= k < self.tasks@.len() implies (#[trigger] self
                    .tasks@[k]).wf() by {
                    assert(old_tasks[k].wf());
                }
            }
        }
    }

    /// Sorts the task list: incomplete tasks first, each group ascending
    /// by due date, tasks without one reading as due `now`. The sort is
    /// stable: tasks that compare equal keep their relative order.
    pub fn sort_by_date(&mut self, now: DueDate)
        ensures
            final(self).tasks@ == sorting::sort_by_insertion(old(self).tasks@, task_leq(now)),
            final(self).labels == old(self).labels,
            old(self).wf() ==> final(self).wf(),
    {
        let ghost leq = task_leq(now);
        let ghost input = self.tasks@;
        let mut sorted: Vec<Task> = Vec::new();
        let mut i: usize = 0;
        let n = self.tasks.len();
        proof {
            assert(input.take(0) =~= Seq::<Task>::empty());
        }
        while i < n
            invariant
                0 <= i <= n,
                n == input.len(),
                self.tasks@ == input,
                leq == task_leq(now),
                sorted@ == sorting::sort_by_insertion(input.take(i as int), leq),
            decreases n - i,
        {
            let t = self.tasks[i].duplicate();
            let mut idx: usize = sorted.len();
            while idx > 0 && !task_le(&now, &sorted[idx - 1], &t)
                invariant
                    0 <= idx <= sorted@.len(),
                    leq == task_leq(now),
                    forall|k: int| idx <= k < sorted@.len() ==> !leq(#[trigger] sorted@[k], t),
                decreases idx,
            {
                idx = idx - 1;
            }
            proof {
                sorting::lemma_insert_by_at(sorted@, t, leq, idx as int);
                assert(input.take(i + 1).drop_last() =~= input.take(i as int));
                assert(input.take(i + 1).last() == input[i as int]);
            }
            sorted.insert(idx, t);
            proof {
                assert(sorted@ =~= sorting::insert_by(
                    sorting::sort_by_insertion(input.take(i as int), leq),
                    t,
                    leq,
                ));
            }
            i = i + 1;
        }
        proof {
            assert(input.take(n as int) =~= input);
        }
        self.tasks = sorted;
        proof {
            if old(self).wf() {
                sorting::lemma_sort_by_insertion_multiset(input, leq);
                assert forall|k: int|
                    0 <= k < self.tasks@.len() implies (#[trigger] self.tasks@[k]).wf() by {
                    broadcast use vstd::seq_lib::group_to_multiset_ensures;

                    assert(self.tasks@.to_multiset().contains(self.tasks@[k]));
                    assert(input.to_multiset().contains(self.tasks@[k]));
                    let w = choose|w: int| 0 <= w < input.len() && input[w] == self.tasks@[k];
                    assert(input[w].wf());
                }
            }
        }
    }
}

/// Sorting the task list is idempotent: a second `sort_by_date` with the
/// same reading of `now`, and no mutation in between, leaves the list
/// bit-for-bit unchanged.
pub proof fn lemma_sort_tasks_idempotent(tasks: Seq<Task>, now: DueDate)
    ensures
        sorting::sort_by_insertion(
            sorting::sort_by_insertion(tasks, task_leq(now)),
            task_leq(now),
        ) == sorting::sort_by_insertion(tasks, task_leq(now)),
{
    lemma_task_leq_total(now);
    sorting::lemma_sort_by_insertion_idempotent(tasks, task_leq(now));
}

impl Default for TaskDB {
    /// An empty store.
    fn default() -> (db: Self)
        ensures
            db.wf(),
            db.tasks@.len() == 0,
            db.labels@.len() == 0,
    {
        TaskDB::new()
    }
}

} // verus!
