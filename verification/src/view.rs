//! The view engine: derives the filtered, sorted, display-ordered list of
//! task handles (positions in the store) for the active policy and label
//! filter. It never mutates store content.

use vstd::prelude::*;
use crate::date::DueDate;
use crate::label::TaskLabel;
use crate::sorting;
use crate::store::eff_due;
use crate::store::TaskDB;
use crate::task::Task;

verus! {

/// Completion-visibility policy, in its fixed cycle order.
#[derive(Clone, Copy, PartialEq, Eq, Structural, Debug)]
pub enum CompletionPolicy {
    /// Incomplete tasks first, completed tasks below them.
    SeparateCompletedToBottom,
    ShowAll,
    HideCompleted,
}

impl Default for CompletionPolicy {
    fn default() -> (p: Self)
        ensures
            p == CompletionPolicy::SeparateCompletedToBottom,
    {
        CompletionPolicy::SeparateCompletedToBottom
    }
}

impl CompletionPolicy {
    /// The next policy in the cycle.
    pub open spec fn spec_next(self) -> Self {
        match self {
            CompletionPolicy::SeparateCompletedToBottom => CompletionPolicy::ShowAll,
            CompletionPolicy::ShowAll => CompletionPolicy::HideCompleted,
            CompletionPolicy::HideCompleted => CompletionPolicy::SeparateCompletedToBottom,
        }
    }
}

/// The sort rule for the derived list. Due date is the only rule.
#[derive(Clone, Copy, PartialEq, Eq, Structural, Debug)]
pub enum SortOption {
    DueDate,
}

impl Default for SortOption {
    fn default() -> (s: Self)
        ensures
            s == SortOption::DueDate,
    {
        SortOption::DueDate
    }
}

/// Whether the policy keeps a task in the view.
pub open spec fn policy_keeps(policy: CompletionPolicy, t: Task) -> bool {
    !(policy is HideCompleted && t.done)
}

/// Whether the label filter keeps a task: no filter keeps all; a filter
/// keeps the tasks whose label code equals the filter's code.
pub open spec fn filter_keeps(filter: Option<Seq<char>>, t: Task) -> bool {
    match filter {
        Option::None => true,
        Option::Some(code) => t.spec_label_code() == Some(code),
    }
}

/// The positions `0..n`, as handles.
pub open spec fn index_seq(n: int) -> Seq<usize> {
    Seq::new(n as nat, |i: int| i as usize)
}

/// Handle order: ascending by due date, an absent date reading as `now`.
pub open spec fn view_idx_leq(tasks: Seq<Task>, now: DueDate) -> spec_fn(usize, usize) -> bool {
    |a: usize, b: usize| eff_due(now, tasks[a as int]).spec_le(eff_due(now, tasks[b as int]))
}

/// The predicate a handle passes to stay in the view.
pub open spec fn view_keeps(
    tasks: Seq<Task>,
    policy: CompletionPolicy,
    filter: Option<Seq<char>>,
) -> spec_fn(usize) -> bool {
    |i: usize| policy_keeps(policy, tasks[i as int]) && filter_keeps(filter, tasks[i as int])
}

/// Handles of incomplete tasks.
pub open spec fn idx_not_done(tasks: Seq<Task>) -> spec_fn(usize) -> bool {
    |i: usize| !tasks[i as int].done
}

/// Handles of completed tasks.
pub open spec fn idx_done(tasks: Seq<Task>) -> spec_fn(usize) -> bool {
    |i: usize| tasks[i as int].done
}

/// The derived view: every store position, kept by policy and filter,
/// sorted ascending by due date, and, under the separating policy,
/// stably partitioned incomplete-first.
pub open spec fn derived_view(
    tasks: Seq<Task>,
    policy: CompletionPolicy,
    filter: Option<Seq<char>>,
    now: DueDate,
) -> Seq<usize> {
    let base = index_seq(tasks.len() as int).filter(view_keeps(tasks, policy, filter));
    let sorted = sorting::sort_by_insertion(base, view_idx_leq(tasks, now));
    if policy is SeparateCompletedToBottom {
        sorted.filter(idx_not_done(tasks)) + sorted.filter(idx_done(tasks))
    } else {
        sorted
    }
}

/// The view engine's state.
#[derive(Debug)]
pub struct TaskView {
    pub completed_task_view: CompletionPolicy,
    pub sort_option: SortOption,
    pub current_label: Option<String>,
    pub labels: Vec<TaskLabel>,
    pub displayed_tasks: Vec<usize>,
}

impl Default for TaskView {
    /// The separating policy, no filter, nothing derived yet.
    fn default() -> (v: Self)
        ensures
            v.completed_task_view == CompletionPolicy::SeparateCompletedToBottom,
            v.sort_option == SortOption::DueDate,
            v.current_label is None,
            v.labels@.len() == 0,
            v.displayed_tasks@.len() == 0,
            v.wf(),
    {
        TaskView {
            completed_task_view: CompletionPolicy::SeparateCompletedToBottom,
            sort_option: SortOption::DueDate,
            current_label: None,
            labels: Vec::new(),
            displayed_tasks: Vec::new(),
        }
    }
}

/// The first position in `labels` carrying code `c`, from `i` on.
pub open spec fn find_code_from(labels: Seq<TaskLabel>, c: Seq<char>, i: int) -> Option<int>
    decreases labels.len() - i,
{
    if i < 0 || i >= labels.len() {
        Option::None
    } else if labels[i].spec_short_name() == c {
        Some(i)
    } else {
        find_code_from(labels, c, i + 1)
    }
}

/// What the label filter advances to: no filter goes to the first label;
/// a filter on the last label (or on a code that is gone) goes back to no
/// filter; otherwise the filter moves to the next label in the list.
pub open spec fn next_label_filter(
    labels: Seq<TaskLabel>,
    cur: Option<Seq<char>>,
) -> Option<Seq<char>> {
    match cur {
        Option::None => if labels.len() == 0 {
            Option::None
        } else {
            Some(labels[0].spec_short_name())
        },
        Option::Some(c) => match find_code_from(labels, c, 0) {
            Option::None => Option::None,
            Option::Some(idx) => if idx < labels.len() - 1 {
                Some(labels[idx + 1].spec_short_name())
            } else {
                Option::None
            },
        },
    }
}

impl TaskView {
    /// The label snapshot is well-formed and the filter code, when set,
    /// has the code width.
    pub open spec fn wf(&self) -> bool {
        &&& forall|i: int| 0 <= i < self.labels@.len() ==> (#[trigger] self.labels@[i]).wf()
        &&& match self.current_label {
            Option::Some(c) => c@.len() == crate::label::LABEL_LEN,
            Option::None => true,
        }
    }

    /// The active filter code, if any.
    pub open spec fn spec_current_code(&self) -> Option<Seq<char>> {
        match self.current_label {
            Option::Some(c) => Some(c@),
            Option::None => Option::None,
        }
    }

    pub fn num_tasks(&self) -> (r: usize)
        ensures
            r == self.displayed_tasks@.len(),
    {
        self.displayed_tasks.len()
    }

    pub fn tasks(&self) -> (r: &Vec<usize>)
        ensures
            r == self.displayed_tasks,
    {
        &self.displayed_tasks
    }

    pub fn labels(&self) -> (r: &Vec<TaskLabel>)
        ensures
            r == self.labels,
    {
        &self.labels
    }

    pub fn has_no_tasks(&self) -> (r: bool)
        ensures
            r == (self.displayed_tasks@.len() == 0),
    {
        self.displayed_tasks.is_empty()
    }

    /// Rotates the completion policy one step through its fixed cycle.
    pub fn toggle_completed_tasks(&mut self)
        ensures
            final(self).completed_task_view == old(self).completed_task_view.spec_next(),
            final(self).sort_option == old(self).sort_option,
            final(self).current_label == old(self).current_label,
            final(self).labels == old(self).labels,
            final(self).displayed_tasks == old(self).displayed_tasks,
    {
        self.completed_task_view = match self.completed_task_view {
            CompletionPolicy::SeparateCompletedToBottom => CompletionPolicy::ShowAll,
            CompletionPolicy::ShowAll => CompletionPolicy::HideCompleted,
            CompletionPolicy::HideCompleted => CompletionPolicy::SeparateCompletedToBottom,
        };
    }

    /// Advances the label filter: none, then each label of the snapshot
    /// in order, then none again.
    pub fn toggle_selected_label(&mut self)
        requires
            old(self).wf(),
        ensures
            final(self).spec_current_code() == next_label_filter(
                old(self).labels@,
                old(self).spec_current_code(),
            ),
            final(self).completed_task_view == old(self).completed_task_view,
            final(self).sort_option == old(self).sort_option,
            final(self).labels == old(self).labels,
            final(self).displayed_tasks == old(self).displayed_tasks,
            final(self).wf(),
    {
        let next: Option<String> = match &self.current_label {
            None => {
                if self.labels.len() > 0 {
                    Some(self.labels[0].short_name_string())
                } else {
                    None
                }
            },
            Some(c) => {
                let n = self.labels.len();
                let mut j: usize = 0;
                let mut found: Option<usize> = None;
                while j < n && found.is_none()
                    invariant
                        0 <= j <= n,
                        n == self.labels@.len(),
                        found is None ==> find_code_from(self.labels@, c@, 0) == find_code_from(
                            self.labels@,
                            c@,
                            j as int,
                        ),
                        match found {
                            Option::Some(i) => find_code_from(self.labels@, c@, 0) == Some(
                                i as int,
                            ) && i < n,
                            Option::None => true,
                        },
                    decreases n - j, (if found is None {
                        1int
                    } else {
                        0int
                    }),
                {
                    if self.labels[j].has_code(c.as_str()) {
                        found = Some(j);
                    } else {
                        j = j + 1;
                    }
                }
                match found {
                    None => None,
                    Some(idx) => {
                        if idx < self.labels.len() - 1 {
                            Some(self.labels[idx + 1].short_name_string())
                        } else {
                            None
                        }
                    },
                }
            },
        };
        self.current_label = next;
    }

    /// Rebuilds the derived list from the store: re-resolves the label
    /// filter (clearing it when its label is gone), keeps the tasks the
    /// policy and filter allow, sorts them ascending by due date (`now`
    /// standing in for an absent date), and, under the separating policy,
    /// moves completed tasks to the bottom in stable order. Also renews
    /// the label snapshot.
    pub fn generate_displayed_list(&mut self, db: &TaskDB, now: DueDate)
        requires
            old(self).wf(),
            db.wf(),
        ensures
            final(self).completed_task_view == old(self).completed_task_view,
            final(self).sort_option == old(self).sort_option,
            final(self).labels@ == db.labels@,
            final(self).spec_current_code() == (match old(self).spec_current_code() {
                Option::Some(c) => if db.has_label_code(c) {
                    Some(c)
                } else {
                    Option::<Seq<char>>::None
                },
                Option::None => Option::<Seq<char>>::None,
            }),
            final(self).displayed_tasks@ == derived_view(
                db.tasks@,
                old(self).completed_task_view,
                final(self).spec_current_code(),
                now,
            ),
            forall|k: int|
                0 <= k < final(self).displayed_tasks@.len()
                    ==> #[trigger] final(self).displayed_tasks@[k] < db.tasks@.len(),
            final(self).wf(),
    {
        // Re-resolve the label filter against the store.
        let resolved: Option<String> = match &self.current_label {
            Some(c) => {
                proof {
                    assert(crate::label::short_code(c@) =~= c@);
                }
                if db.label_by_tag(c.as_str()).is_some() {
                    Some(c.clone())
                } else {
                    None
                }
            },
            None => None,
        };
        self.current_label = resolved;

        // Renew the label snapshot.
        let mut snap: Vec<TaskLabel> = Vec::new();
        let nl = db.labels().len();
        let mut li: usize = 0;
        while li < nl
            invariant
                0 <= li <= nl,
                nl == db.labels@.len(),
                snap@ == db.labels@.take(li as int),
            decreases nl - li,
        {
            snap.push(db.labels()[li].duplicate());
            proof {
                assert(snap@ =~= db.labels@.take(li + 1));
            }
            li = li + 1;
        }
        proof {
            assert(db.labels@.take(nl as int) =~= db.labels@);
        }
        self.labels = snap;

        // Keep the handles the policy and the filter allow.
        let ghost pred = view_keeps(db.tasks@, self.completed_task_view, self.spec_current_code());
        let n = db.tasks().len();
        let mut base: Vec<usize> = Vec::new();
        proof {
            reveal(Seq::filter);
            assert(index_seq(0) =~= Seq::<usize>::empty());
        }
        let mut i: usize = 0;
        while i < n
            invariant
                0 <= i <= n,
                n == db.tasks@.len(),
                db.wf(),
                pred == view_keeps(
                    db.tasks@,
                    self.completed_task_view,
                    self.spec_current_code(),
                ),
                base@ == index_seq(i as int).filter(pred),
                forall|k: int| 0 <= k < base@.len() ==> #[trigger] base@[k] < n,
            decreases n - i,
        {
            let t = &db.tasks()[i];
            let pk = match self.completed_task_view {
                CompletionPolicy::HideCompleted => !t.is_done(),
                _ => true,
            };
            let fk = match &self.current_label {
                None => true,
                Some(code) => match t.label() {
                    Some(tc) => crate::text::str_eq(tc.as_str(), code.as_str()),
                    None => false,
                },
            };
            proof {
                reveal(Seq::filter);
                assert(index_seq(i + 1).drop_last() =~= index_seq(i as int));
                assert(index_seq(i + 1).last() == i as usize);
                assert(pred(i as usize) == (pk && fk));
            }
            if pk && fk {
                base.push(i);
            }
            i = i + 1;
        }

        // Sort the kept handles by due date.
        let ghost ileq = view_idx_leq(db.tasks@, now);
        let ghost base_seq = base@;
        let mut sorted: Vec<usize> = Vec::new();
        let nb = base.len();
        let mut bi: usize = 0;
        proof {
            assert(base_seq.take(0) =~= Seq::<usize>::empty());
        }
        while bi < nb
            invariant
                0 <= bi <= nb,
                nb == base@.len(),
                base@ == base_seq,
                n == db.tasks@.len(),
                db.wf(),
                ileq == view_idx_leq(db.tasks@, now),
                forall|k: int| 0 <= k < base@.len() ==> #[trigger] base@[k] < n,
                sorted@ == sorting::sort_by_insertion(base_seq.take(bi as int), ileq),
                forall|k: int| 0 <= k < sorted@.len() ==> #[trigger] sorted@[k] < n,
            decreases nb - bi,
        {
            let h = base[bi];
            let mut idx: usize = sorted.len();
            while idx > 0 && !idx_le(db, &now, sorted[idx - 1], h)
                invariant
                    0 <= idx <= sorted@.len(),
                    n == db.tasks@.len(),
                    h < n,
                    ileq == view_idx_leq(db.tasks@, now),
                    forall|k: int| 0 <= k < sorted@.len() ==> #[trigger] sorted@[k] < n,
                    forall|k: int| idx <= k < sorted@.len() ==> !ileq(#[trigger] sorted@[k], h),
                decreases idx,
            {
                idx = idx - 1;
            }
            proof {
                sorting::lemma_insert_by_at(sorted@, h, ileq, idx as int);
                assert(base_seq.take(bi + 1).drop_last() =~= base_seq.take(bi as int));
                assert(base_seq.take(bi + 1).last() == base_seq[bi as int]);
            }
            sorted.insert(idx, h);
            proof {
                assert(sorted@ =~= sorting::insert_by(
                    sorting::sort_by_insertion(base_seq.take(bi as int), ileq),
                    h,
                    ileq,
                ));
            }
            bi = bi + 1;
        }
        proof {
            assert(base_seq.take(nb as int) =~= base_seq);
        }

        // Under the separating policy, move completed tasks to the bottom,
        // keeping each group's order.
        let is_separate = match self.completed_task_view {
            CompletionPolicy::SeparateCompletedToBottom => true,
            _ => false,
        };
        if is_separate {
            let ghost sorted_seq = sorted@;
            let mut front: Vec<usize> = Vec::new();
            let mut back: Vec<usize> = Vec::new();
            let ns = sorted.len();
            let mut si: usize = 0;
            proof {
                reveal(Seq::filter);
                assert(sorted_seq.take(0) =~= Seq::<usize>::empty());
            }
            while si < ns
                invariant
                    0 <= si <= ns,
                    ns == sorted@.len(),
                    sorted@ == sorted_seq,
                    n == db.tasks@.len(),
                    forall|k: int| 0 <= k < sorted@.len() ==> #[trigger] sorted@[k] < n,
                    front@ == sorted_seq.take(si as int).filter(idx_not_done(db.tasks@)),
                    back@ == sorted_seq.take(si as int).filter(idx_done(db.tasks@)),
                decreases ns - si,
            {
                let h = sorted[si];
                proof {
                    reveal(Seq::filter);
                    assert(sorted_seq.take(si + 1).drop_last() =~= sorted_seq.take(si as int));
                    assert(sorted_seq.take(si + 1).last() == sorted_seq[si as int]);
                }
                if db.tasks()[h].is_done() {
                    back.push(h);
                } else {
                    front.push(h);
                }
                si = si + 1;
            }
            proof {
                assert(sorted_seq.take(ns as int) =~= sorted_seq);
            }
            front.append(&mut back);
            self.displayed_tasks = front;
            proof {
                assert(self.displayed_tasks@ == derived_view(
                    db.tasks@,
                    old(self).completed_task_view,
                    self.spec_current_code(),
                    now,
                ));
                assert forall|k: int|
                    0 <= k < self.displayed_tasks@.len() implies #[trigger] self
                    .displayed_tasks@[k] < db.tasks@.len() by {
                    broadcast use vstd::seq_lib::group_filter_ensures;

                    let dv = self.displayed_tasks@;
                    let sf = sorted_seq.filter(idx_not_done(db.tasks@));
                    let sb = sorted_seq.filter(idx_done(db.tasks@));
                    if k < sf.len() {
                        seq_filter_element_of(sorted_seq, idx_not_done(db.tasks@), k);
                    } else {
                        seq_filter_element_of(sorted_seq, idx_done(db.tasks@), k - sf.len());
                    }
                }
            }
        } else {
            self.displayed_tasks = sorted;
        }
    }
}

/// Every element of a filtered sequence is an element of the original.
pub proof fn seq_filter_element_of<A>(s: Seq<A>, pred: spec_fn(A) -> bool, i: int)
    requires
        0 <= i < s.filter(pred).len(),
    ensures
        exists|j: int| 0 <= j < s.len() && s[j] == #[trigger] s.filter(pred)[i],
    decreases s.len(),
{
    reveal(Seq::filter);
    if s.len() > 0 {
        let sub = s.drop_last().filter(pred);
        if pred(s.last()) && i == sub.len() {
            assert(s[s.len() - 1] == s.filter(pred)[i]);
        } else {
            seq_filter_element_of(s.drop_last(), pred, i);
            let j = choose|j: int| 0 <= j < s.drop_last().len() && s.drop_last()[j] == s.filter(
                pred,
            )[i];
            assert(s[j] == s.filter(pred)[i]);
        }
    }
}

/// Handle comparison by effective due date.
pub fn idx_le(db: &TaskDB, now: &DueDate, a: usize, b: usize) -> (r: bool)
    requires
        a < db.tasks@.len(),
        b < db.tasks@.len(),
    ensures
        r == view_idx_leq(db.tasks@, *now)(a, b),
{
    let da = match &db.tasks()[a].due_date {
        Some(d) => *d,
        None => *now,
    };
    let dbd = match &db.tasks()[b].due_date {
        Some(d) => *d,
        None => *now,
    };
    da.le(&dbd)
}

} // verus!
