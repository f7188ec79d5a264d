//! The edit session: the application state (store, view, selection,
//! focus) and the state machine that turns abstract commands into store
//! mutations, view regenerations and popup transitions.

use vstd::prelude::*;
use crate::date::DueDate;
use crate::label::TaskLabel;
use crate::labels_text;
use crate::store::TaskDB;
use crate::task::EditableTaskProperty;
use crate::task::Task;
use crate::view::TaskView;

verus! {

/// Which half of the task-edit popup has focus.
#[derive(Clone, Copy, PartialEq, Eq, Structural, Debug)]
pub enum EditTaskFocus {
    Fields,
    Edit,
}

impl Default for EditTaskFocus {
    fn default() -> (f: Self)
        ensures
            f == EditTaskFocus::Fields,
    {
        EditTaskFocus::Fields
    }
}

/// Popup state for editing one task field by field. The buffer holds the
/// text most recently loaded for the cursor's property; while the user
/// types, the live text lives in the host's text-editor component and is
/// handed back on commit.
#[derive(Debug)]
pub struct EditTaskPopup {
    pub property: EditableTaskProperty,
    pub focus: EditTaskFocus,
    pub buffer: String,
    pub target_idx: usize,
}

impl EditTaskPopup {
    pub fn new(target_idx: usize) -> (p: Self)
        ensures
            p.property == EditableTaskProperty::Title,
            p.focus == EditTaskFocus::Fields,
            p.buffer@ == Seq::<char>::empty(),
            p.target_idx == target_idx,
    {
        EditTaskPopup {
            property: EditableTaskProperty::Title,
            focus: EditTaskFocus::Fields,
            buffer: String::new(),
            target_idx,
        }
    }

    pub fn property(&self) -> (r: EditableTaskProperty)
        ensures
            r == self.property,
    {
        self.property
    }

    pub fn focus(&self) -> (r: EditTaskFocus)
        ensures
            r == self.focus,
    {
        self.focus
    }

    pub fn set_focus(&mut self, focus: EditTaskFocus)
        ensures
            final(self).focus == focus,
            final(self).property == old(self).property,
            final(self).buffer == old(self).buffer,
            final(self).target_idx == old(self).target_idx,
    {
        self.focus = focus;
    }

    pub fn set_property(&mut self, property: EditableTaskProperty)
        ensures
            final(self).property == property,
            final(self).focus == old(self).focus,
            final(self).buffer == old(self).buffer,
            final(self).target_idx == old(self).target_idx,
    {
        self.property = property;
    }

    /// Moves the property cursor forward in its cycle.
    pub fn increment_property(&mut self)
        ensures
            final(self).property == old(self).property.spec_next(),
            final(self).focus == old(self).focus,
            final(self).buffer == old(self).buffer,
            final(self).target_idx == old(self).target_idx,
    {
        self.property = self.property.next();
    }

    /// Moves the property cursor backward in its cycle.
    pub fn decrement_property(&mut self)
        ensures
            final(self).property == old(self).property.spec_prev(),
            final(self).focus == old(self).focus,
            final(self).buffer == old(self).buffer,
            final(self).target_idx == old(self).target_idx,
    {
        self.property = self.property.prev();
    }

    pub fn load_text(&mut self, text: &str)
        ensures
            final(self).buffer@ == text@,
            final(self).property == old(self).property,
            final(self).focus == old(self).focus,
            final(self).target_idx == old(self).target_idx,
    {
        self.buffer = text.to_owned();
    }

    pub fn text(&self) -> (r: &str)
        ensures
            r@ == self.buffer@,
    {
        self.buffer.as_str()
    }
}

/// Popup state for editing the whole label set as one buffer.
#[derive(Debug)]
pub struct EditLabelsPopup {
    pub buffer: String,
}

impl EditLabelsPopup {
    pub fn new() -> (p: Self)
        ensures
            p.buffer@ == Seq::<char>::empty(),
    {
        EditLabelsPopup { buffer: String::new() }
    }

    pub fn load_text(&mut self, text: &str)
        ensures
            final(self).buffer@ == text@,
    {
        self.buffer = text.to_owned();
    }

    /// Loads the encoded label set into the buffer.
    pub fn load_labels(&mut self, labels: &Vec<TaskLabel>)
        ensures
            final(self).buffer@ == labels_text::spec_encode_labels(
                crate::label::labels_view(labels@),
            ),
    {
        self.buffer = labels_text::encode_labels(labels);
    }

    pub fn text(&self) -> (r: &str)
        ensures
            r@ == self.buffer@,
    {
        self.buffer.as_str()
    }
}

impl Default for EditLabelsPopup {
    fn default() -> (p: Self)
        ensures
            p.buffer@ == Seq::<char>::empty(),
    {
        EditLabelsPopup::new()
    }
}

/// What the session is focused on.
#[derive(Debug)]
pub enum VenomFocus {
    MainView,
    EditTaskPopup(EditTaskPopup),
    EditLabelsPopup(EditLabelsPopup),
}

impl Default for VenomFocus {
    fn default() -> (f: Self)
        ensures
            f is MainView,
    {
        VenomFocus::MainView
    }
}

/// The global session state.
#[derive(Debug)]
pub struct Venom {
    pub should_quit: bool,
    pub task_db: TaskDB,
    pub selected_task_idx: usize,
    pub focus: VenomFocus,
    pub hide_completed: bool,
    pub task_view: TaskView,
}

impl Venom {
    /// The session's running invariant: store and view well-formed, every
    /// displayed handle valid, and the selection inside the view (or 0
    /// when the view is empty).
    pub open spec fn wf(&self) -> bool {
        &&& self.task_db.wf()
        &&& self.task_view.wf()
        &&& forall|k: int|
            0 <= k < self.task_view.displayed_tasks@.len()
                ==> #[trigger] self.task_view.displayed_tasks@[k] < self.task_db.tasks@.len()
        &&& (self.selected_task_idx < self.task_view.displayed_tasks@.len() || (
        self.selected_task_idx == 0 && self.task_view.displayed_tasks@.len() == 0))
        &&& match self.focus {
            VenomFocus::EditTaskPopup(p) => p.target_idx < self.task_db.tasks@.len(),
            _ => true,
        }
    }

    /// A fresh session: empty store, empty view, main view focused.
    pub fn new() -> (app: Self)
        ensures
            app.wf(),
            !app.should_quit,
            app.task_db.tasks@.len() == 0,
            app.task_db.labels@.len() == 0,
            app.selected_task_idx == 0,
            app.focus is MainView,
            app.task_view.displayed_tasks@.len() == 0,
    {
        Venom {
            should_quit: false,
            task_db: TaskDB::new(),
            selected_task_idx: 0,
            focus: VenomFocus::MainView,
            hide_completed: false,
            task_view: TaskView::default(),
        }
    }

    pub fn tick(&self) {
    }

    pub fn quit(&mut self)
        ensures
            final(self).should_quit,
            final(self).task_db == old(self).task_db,
            final(self).selected_task_idx == old(self).selected_task_idx,
            final(self).focus == old(self).focus,
            final(self).hide_completed == old(self).hide_completed,
            final(self).task_view == old(self).task_view,
    {
        self.should_quit = true;
    }

    pub fn should_quit(&self) -> (r: bool)
        ensures
            r == self.should_quit,
    {
        self.should_quit
    }

    pub fn hide_completed(&self) -> (r: bool)
        ensures
            r == self.hide_completed,
    {
        self.hide_completed
    }

    pub fn set_hide_completed(&mut self, hide_completed: bool)
        ensures
            final(self).hide_completed == hide_completed,
            final(self).task_db == old(self).task_db,
            final(self).task_view == old(self).task_view,
            final(self).selected_task_idx == old(self).selected_task_idx,
            final(self).focus == old(self).focus,
            final(self).should_quit == old(self).should_quit,
    {
        self.hide_completed = hide_completed;
    }

    pub fn toggle_hide_completed(&mut self)
        ensures
            final(self).hide_completed == !old(self).hide_completed,
            final(self).task_db == old(self).task_db,
            final(self).task_view == old(self).task_view,
            final(self).selected_task_idx == old(self).selected_task_idx,
            final(self).focus == old(self).focus,
            final(self).should_quit == old(self).should_quit,
    {
        self.hide_completed = !self.hide_completed;
    }

    pub fn task_db(&self) -> (r: &TaskDB)
        ensures
            r == self.task_db,
    {
        &self.task_db
    }

    pub fn task_db_mut(&mut self) -> (r: &mut TaskDB)
        ensures
            *r == old(self).task_db,
            final(self).task_db == *final(r),
            final(self).task_view == old(self).task_view,
            final(self).selected_task_idx == old(self).selected_task_idx,
            final(self).focus == old(self).focus,
            final(self).should_quit == old(self).should_quit,
            final(self).hide_completed == old(self).hide_completed,
    {
        &mut self.task_db
    }

    pub fn task_view(&self) -> (r: &TaskView)
        ensures
            r == self.task_view,
    {
        &self.task_view
    }

    pub fn task_view_mut(&mut self) -> (r: &mut TaskView)
        ensures
            *r == old(self).task_view,
            final(self).task_view == *final(r),
            final(self).task_db == old(self).task_db,
            final(self).selected_task_idx == old(self).selected_task_idx,
            final(self).focus == old(self).focus,
            final(self).should_quit == old(self).should_quit,
            final(self).hide_completed == old(self).hide_completed,
    {
        &mut self.task_view
    }

    pub fn selected_task_idx(&self) -> (r: usize)
        ensures
            r == self.selected_task_idx,
    {
        self.selected_task_idx
    }

    pub fn focus(&self) -> (r: &VenomFocus)
        ensures
            r == self.focus,
    {
        &self.focus
    }

    pub fn set_focus(&mut self, mode: VenomFocus)
        ensures
            final(self).focus == mode,
            final(self).task_db == old(self).task_db,
            final(self).task_view == old(self).task_view,
            final(self).selected_task_idx == old(self).selected_task_idx,
            final(self).should_quit == old(self).should_quit,
            final(self).hide_completed == old(self).hide_completed,
    {
        self.focus = mode;
    }

    /// Sets the focus of the application; a popup held by the old focus
    /// is dropped and replaced.
    pub fn set_mode(&mut self, mode: VenomFocus)
        ensures
            final(self).focus == mode,
            final(self).task_db == old(self).task_db,
            final(self).task_view == old(self).task_view,
            final(self).selected_task_idx == old(self).selected_task_idx,
            final(self).should_quit == old(self).should_quit,
            final(self).hide_completed == old(self).hide_completed,
    {
        self.set_focus(mode);
    }

    /// The store handle of the task the selection points at.
    pub fn selected_task(&self) -> (r: usize)
        requires
            self.wf(),
            self.task_view.displayed_tasks@.len() > 0,
        ensures
            r == self.task_view.displayed_tasks@[self.selected_task_idx as int],
            r < self.task_db.tasks@.len(),
    {
        self.task_view.tasks()[self.selected_task_idx]
    }

    /// Moves the selection down the view, wrapping to the top.
    pub fn increment_task_idx(&mut self)
        requires
            old(self).wf(),
        ensures
            final(self).selected_task_idx == (if old(self).task_view.displayed_tasks@.len() == 0 {
                0usize
            } else if old(self).selected_task_idx + 1 == old(self).task_view.displayed_tasks@.len() {
                0usize
            } else {
                (old(self).selected_task_idx + 1) as usize
            }),
            final(self).task_db == old(self).task_db,
            final(self).task_view == old(self).task_view,
            final(self).focus == old(self).focus,
            final(self).should_quit == old(self).should_quit,
            final(self).hide_completed == old(self).hide_completed,
            final(self).wf(),
    {
        let n = self.task_view.num_tasks();
        if n == 0 {
            self.selected_task_idx = 0;
            return;
        }
        assert(self.selected_task_idx < n);
        let overflow = self.selected_task_idx + 1 == n;
        self.selected_task_idx = if overflow {
            0
        } else {
            self.selected_task_idx + 1
        };
    }

    /// Moves the selection up the view, wrapping to the bottom.
    pub fn decrement_task_idx(&mut self)
        requires
            old(self).wf(),
        ensures
            final(self).selected_task_idx == (if old(self).task_view.displayed_tasks@.len() == 0 {
                0usize
            } else if old(self).selected_task_idx == 0 {
                (old(self).task_view.displayed_tasks@.len() - 1) as usize
            } else {
                (old(self).selected_task_idx - 1) as usize
            }),
            final(self).task_db == old(self).task_db,
            final(self).task_view == old(self).task_view,
            final(self).focus == old(self).focus,
            final(self).should_quit == old(self).should_quit,
            final(self).hide_completed == old(self).hide_completed,
            final(self).wf(),
    {
        let n = self.task_view.num_tasks();
        if n == 0 {
            self.selected_task_idx = 0;
            return;
        }
        let underflow = self.selected_task_idx == 0;
        self.selected_task_idx = if underflow {
            n - 1
        } else {
            self.selected_task_idx - 1
        };
    }

    /// Regenerates the view from the store and re-clamps the selection:
    /// afterwards the selection is a valid view index, or 0 on an empty
    /// view.
    pub fn update_view(&mut self, now: DueDate)
        requires
            old(self).task_db.wf(),
            old(self).task_view.wf(),
            match old(self).focus {
                VenomFocus::EditTaskPopup(p) => p.target_idx < old(self).task_db.tasks@.len(),
                _ => true,
            },
        ensures
            final(self).task_db == old(self).task_db,
            final(self).focus == old(self).focus,
            final(self).should_quit == old(self).should_quit,
            final(self).hide_completed == old(self).hide_completed,
            final(self).task_view.completed_task_view == old(self).task_view.completed_task_view,
            final(self).task_view.labels@ == old(self).task_db.labels@,
            final(self).task_view.spec_current_code() == (match old(self).task_view.spec_current_code() {
                Option::Some(c) => if old(self).task_db.has_label_code(c) {
                    Option::Some(c)
                } else {
                    Option::<Seq<char>>::None
                },
                Option::None => Option::<Seq<char>>::None,
            }),
            final(self).task_view.displayed_tasks@ == crate::view::derived_view(
                old(self).task_db.tasks@,
                old(self).task_view.completed_task_view,
                final(self).task_view.spec_current_code(),
                now,
            ),
            final(self).selected_task_idx == (if final(self).task_view.displayed_tasks@.len()
                == 0 {
                0int
            } else if old(self).selected_task_idx < final(self).task_view.displayed_tasks@.len() {
                old(self).selected_task_idx as int
            } else {
                final(self).task_view.displayed_tasks@.len() - 1
            }),
            final(self).selected_task_idx < final(self).task_view.displayed_tasks@.len() || (
            final(self).selected_task_idx == 0 && final(self).task_view.displayed_tasks@.len()
                == 0),
            final(self).wf(),
    {
        self.task_view.generate_displayed_list(&self.task_db, now);
        let num_in_view = self.task_view.num_tasks();
        self.selected_task_idx = if num_in_view == 0 {
            0
        } else if self.selected_task_idx < num_in_view {
            self.selected_task_idx
        } else {
            num_in_view - 1
        };
    }

    /// Rotates the completion policy and regenerates the view.
    pub fn toggle_completed_task_view(&mut self, now: DueDate)
        requires
            old(self).wf(),
        ensures
            final(self).task_db == old(self).task_db,
            final(self).focus == old(self).focus,
            final(self).should_quit == old(self).should_quit,
            final(self).task_view.completed_task_view == old(self).task_view.completed_task_view.spec_next(),
            final(self).task_view.displayed_tasks@ == crate::view::derived_view(
                old(self).task_db.tasks@,
                old(self).task_view.completed_task_view.spec_next(),
                final(self).task_view.spec_current_code(),
                now,
            ),
            final(self).selected_task_idx < final(self).task_view.displayed_tasks@.len() || (
            final(self).selected_task_idx == 0 && final(self).task_view.displayed_tasks@.len()
                == 0),
            final(self).wf(),
    {
        self.task_view.toggle_completed_tasks();
        self.update_view(now);
    }

    /// Advances the label filter and regenerates the view.
    pub fn toggle_selected_label(&mut self, now: DueDate)
        requires
            old(self).wf(),
        ensures
            final(self).task_db == old(self).task_db,
            final(self).focus == old(self).focus,
            final(self).should_quit == old(self).should_quit,
            final(self).task_view.completed_task_view == old(self).task_view.completed_task_view,
            final(self).task_view.displayed_tasks@ == crate::view::derived_view(
                old(self).task_db.tasks@,
                old(self).task_view.completed_task_view,
                final(self).task_view.spec_current_code(),
                now,
            ),
            final(self).task_view.spec_current_code() == (match crate::view::next_label_filter(
                old(self).task_view.labels@,
                old(self).task_view.spec_current_code(),
            ) {
                Option::Some(c) => if old(self).task_db.has_label_code(c) {
                    Option::Some(c)
                } else {
                    Option::<Seq<char>>::None
                },
                Option::None => Option::<Seq<char>>::None,
            }),
            final(self).selected_task_idx < final(self).task_view.displayed_tasks@.len() || (
            final(self).selected_task_idx == 0 && final(self).task_view.displayed_tasks@.len()
                == 0),
            final(self).wf(),
    {
        self.task_view.toggle_selected_label();
        self.update_view(now);
    }

    /// Toggles the done flag of the selected task.
    pub fn toggle_selected_task(&mut self)
        requires
            old(self).wf(),
            old(self).task_view.displayed_tasks@.len() > 0,
        ensures
            ({
                let h = old(self).task_view.displayed_tasks@[old(self).selected_task_idx as int];
                &&& final(self).task_db.tasks@.len() == old(self).task_db.tasks@.len()
                &&& final(self).task_db.tasks@[h as int].done == !old(self).task_db.tasks@[h as int].done
                &&& final(self).task_db.tasks@[h as int].title == old(self).task_db.tasks@[h as int].title
                &&& final(self).task_db.tasks@[h as int].notes == old(self).task_db.tasks@[h as int].notes
                &&& final(self).task_db.tasks@[h as int].priority == old(self).task_db.tasks@[h as int].priority
                &&& final(self).task_db.tasks@[h as int].due_date == old(self).task_db.tasks@[h as int].due_date
                &&& final(self).task_db.tasks@[h as int].label == old(self).task_db.tasks@[h as int].label
                &&& forall|i: int|
                    0 <= i < old(self).task_db.tasks@.len() && i != h
                        ==> final(self).task_db.tasks@[i] == old(self).task_db.tasks@[i]
            }),
            final(self).task_db.labels == old(self).task_db.labels,
            final(self).task_view == old(self).task_view,
            final(self).selected_task_idx == old(self).selected_task_idx,
            final(self).focus == old(self).focus,
            final(self).should_quit == old(self).should_quit,
            final(self).wf(),
    {
        let h = self.selected_task();
        self.task_db.tasks[h].toggle_done();
    }

    /// Sorts the store's task list and regenerates the view.
    pub fn sort_and_refresh(&mut self, now: DueDate)
        requires
            old(self).wf(),
            old(self).focus is MainView,
        ensures
            final(self).task_db.tasks@ == crate::sorting::sort_by_insertion(
                old(self).task_db.tasks@,
                crate::store::task_leq(now),
            ),
            final(self).task_db.labels == old(self).task_db.labels,
            final(self).focus == old(self).focus,
            final(self).should_quit == old(self).should_quit,
            final(self).task_view.completed_task_view == old(self).task_view.completed_task_view,
            final(self).task_view.displayed_tasks@ == crate::view::derived_view(
                final(self).task_db.tasks@,
                old(self).task_view.completed_task_view,
                final(self).task_view.spec_current_code(),
                now,
            ),
            final(self).wf(),
    {
        self.task_db.sort_by_date(now);
        proof {
            broadcast use vstd::seq_lib::group_to_multiset_ensures;

            crate::sorting::lemma_sort_by_insertion_multiset(
                old(self).task_db.tasks@,
                crate::store::task_leq(now),
            );
            assert(self.task_db.tasks@.to_multiset() == old(self).task_db.tasks@.to_multiset());
            assert(self.task_db.tasks@.to_multiset().len() == self.task_db.tasks@.len());
            assert(self.task_db.tasks@.len() == old(self).task_db.tasks@.len());
        }
        self.update_view(now);
    }

    /// Removes the selected task from the store and regenerates the view.
    /// With an empty view nothing changes.
    pub fn remove_selected_task(&mut self, now: DueDate)
        requires
            old(self).wf(),
            old(self).focus is MainView,
        ensures
            old(self).task_view.displayed_tasks@.len() > 0 ==> final(self).task_db.tasks@ == old(self).task_db.tasks@.remove(
                old(self).task_view.displayed_tasks@[old(self).selected_task_idx as int] as int,
            ),
            old(self).task_view.displayed_tasks@.len() == 0 ==> final(self).task_db.tasks@ == old(self).task_db.tasks@,
            final(self).task_db.labels == old(self).task_db.labels,
            final(self).focus == old(self).focus,
            final(self).should_quit == old(self).should_quit,
            final(self).task_view.displayed_tasks@ == crate::view::derived_view(
                final(self).task_db.tasks@,
                old(self).task_view.completed_task_view,
                final(self).task_view.spec_current_code(),
                now,
            ),
            final(self).wf(),
    {
        if !self.task_view.has_no_tasks() {
            let h = self.selected_task();
            self.task_db.remove_task(h);
        }
        self.update_view(now);
    }

    /// Opens the task-edit popup on the task at a store handle, with the
    /// property cursor on the title and its text loaded.
    pub fn edit_task(&mut self, idx: usize)
        requires
            old(self).wf(),
            idx < old(self).task_db.tasks@.len(),
        ensures
            final(self).focus is EditTaskPopup,
            final(self).focus->EditTaskPopup_0.target_idx == idx,
            final(self).focus->EditTaskPopup_0.property == EditableTaskProperty::Title,
            final(self).focus->EditTaskPopup_0.focus == EditTaskFocus::Fields,
            final(self).focus->EditTaskPopup_0.buffer@ == old(self).task_db.tasks@[idx as int].spec_text_to_edit(EditableTaskProperty::Title),
            final(self).task_db == old(self).task_db,
            final(self).task_view == old(self).task_view,
            final(self).selected_task_idx == old(self).selected_task_idx,
            final(self).should_quit == old(self).should_quit,
            final(self).wf(),
    {
        let mut popup = EditTaskPopup::new(idx);
        let text = self.task_db.tasks()[idx].text_to_edit(EditableTaskProperty::Title);
        popup.load_text(text.as_str());
        self.focus = VenomFocus::EditTaskPopup(popup);
    }

    /// Opens the task-edit popup on the selected task.
    pub fn edit_current_task(&mut self)
        requires
            old(self).wf(),
            old(self).task_view.displayed_tasks@.len() > 0,
        ensures
            final(self).focus is EditTaskPopup,
            final(self).focus->EditTaskPopup_0.target_idx == old(self).task_view.displayed_tasks@[old(self).selected_task_idx as int],
            final(self).focus->EditTaskPopup_0.property == EditableTaskProperty::Title,
            final(self).focus->EditTaskPopup_0.focus == EditTaskFocus::Fields,
            final(self).focus->EditTaskPopup_0.buffer@ == old(self).task_db.tasks@[old(self).task_view.displayed_tasks@[old(self).selected_task_idx as int] as int].spec_text_to_edit(
                EditableTaskProperty::Title,
            ),
            final(self).task_db == old(self).task_db,
            final(self).task_view == old(self).task_view,
            final(self).selected_task_idx == old(self).selected_task_idx,
            final(self).should_quit == old(self).should_quit,
            final(self).wf(),
    {
        let h = self.selected_task();
        self.edit_task(h);
    }

    /// Appends a blank task, regenerates the view, and opens the edit
    /// popup on the new task.
    pub fn add_task(&mut self, now: DueDate)
        requires
            old(self).wf(),
            old(self).focus is MainView,
        ensures
            final(self).task_db.tasks@.len() == old(self).task_db.tasks@.len() + 1,
            final(self).task_db.tasks@.take(old(self).task_db.tasks@.len() as int) == old(self).task_db.tasks@,
            final(self).task_db.tasks@.last().title@ == Seq::<char>::empty(),
            final(self).task_db.tasks@.last().notes@ == Seq::<char>::empty(),
            final(self).task_db.tasks@.last().priority == crate::task::Priority::Unset,
            final(self).task_db.tasks@.last().due_date is None,
            final(self).task_db.tasks@.last().label is None,
            !final(self).task_db.tasks@.last().done,
            final(self).task_db.labels == old(self).task_db.labels,
            final(self).focus is EditTaskPopup,
            final(self).focus->EditTaskPopup_0.target_idx == old(self).task_db.tasks@.len(),
            final(self).focus->EditTaskPopup_0.property == EditableTaskProperty::Title,
            final(self).focus->EditTaskPopup_0.focus == EditTaskFocus::Fields,
            final(self).focus->EditTaskPopup_0.buffer@ == Seq::<char>::empty(),
            final(self).task_view.displayed_tasks@ == crate::view::derived_view(
                final(self).task_db.tasks@,
                old(self).task_view.completed_task_view,
                final(self).task_view.spec_current_code(),
                now,
            ),
            final(self).should_quit == old(self).should_quit,
            final(self).wf(),
    {
        let idx = self.task_db.add_default();
        proof {
            assert forall|i: int|
                0 <= i < self.task_db.tasks@.len() implies (#[trigger] self
                .task_db.tasks@[i]).wf() by {
                if i < old(self).task_db.tasks@.len() {
                    assert(self.task_db.tasks@.take(old(self).task_db.tasks@.len() as int)[i]
                        == self.task_db.tasks@[i]);
                    assert(old(self).task_db.tasks@[i].wf());
                } else {
                    assert(self.task_db.tasks@[i] == self.task_db.tasks@.last());
                }
            }
        }
        self.update_view(now);
        self.edit_task(idx);
        proof {
            assert(final(self).task_db.tasks@[idx as int] == final(self).task_db.tasks@.last());
        }
    }

    /// Appends a copy of the selected task (title, notes, due date and
    /// label; priority and done flag start fresh), regenerates the view,
    /// and opens the edit popup on the copy.
    pub fn add_task_based_on_current(&mut self, now: DueDate)
        requires
            old(self).wf(),
            old(self).focus is MainView,
            old(self).task_view.displayed_tasks@.len() > 0,
        ensures
            ({
                let h = old(self).task_view.displayed_tasks@[old(self).selected_task_idx as int];
                let src = old(self).task_db.tasks@[h as int];
                &&& final(self).task_db.tasks@.len() == old(self).task_db.tasks@.len() + 1
                &&& final(self).task_db.tasks@.take(old(self).task_db.tasks@.len() as int) == old(self).task_db.tasks@
                &&& final(self).task_db.tasks@.last().title@ == src.title@
                &&& final(self).task_db.tasks@.last().notes@ == src.notes@
                &&& final(self).task_db.tasks@.last().due_date == src.due_date
                &&& final(self).task_db.tasks@.last().spec_label_code() == src.spec_label_code()
                &&& final(self).task_db.tasks@.last().priority == crate::task::Priority::Unset
                &&& !final(self).task_db.tasks@.last().done
            }),
            final(self).task_db.labels == old(self).task_db.labels,
            final(self).focus is EditTaskPopup,
            final(self).focus->EditTaskPopup_0.target_idx == old(self).task_db.tasks@.len(),
            final(self).focus->EditTaskPopup_0.property == EditableTaskProperty::Title,
            final(self).focus->EditTaskPopup_0.focus == EditTaskFocus::Fields,
            final(self).task_view.displayed_tasks@ == crate::view::derived_view(
                final(self).task_db.tasks@,
                old(self).task_view.completed_task_view,
                final(self).task_view.spec_current_code(),
                now,
            ),
            final(self).should_quit == old(self).should_quit,
            final(self).wf(),
    {
        let h = self.selected_task();
        let clone: Task;
        {
            let src = &self.task_db.tasks()[h];
            let label_copy: Option<String> = match src.label() {
                Some(c) => Some(c.clone()),
                None => None,
            };
            clone = Task::builder().with_title(src.title()).with_notes(src.notes()).with_due_date(
                src.due_date(),
            ).with_label(label_copy).build();
        }
        let idx = self.task_db.add_task(clone);
        proof {
            assert forall|i: int|
                0 <= i < self.task_db.tasks@.len() implies (#[trigger] self
                .task_db.tasks@[i]).wf() by {
                if i < old(self).task_db.tasks@.len() {
                    assert(old(self).task_db.tasks@[i].wf());
                } else {
                    assert(self.task_db.tasks@[i] == clone);
                    assert(old(self).task_db.tasks@[h as int].wf());
                }
            }
        }
        self.update_view(now);
        self.edit_task(idx);
    }

    /// Opens the bulk label editor, its buffer loaded with the encoded
    /// label set.
    pub fn edit_labels(&mut self)
        requires
            old(self).wf(),
        ensures
            final(self).focus is EditLabelsPopup,
            final(self).focus->EditLabelsPopup_0.buffer@ == labels_text::spec_encode_labels(
                crate::label::labels_view(old(self).task_db.labels@),
            ),
            final(self).task_db == old(self).task_db,
            final(self).task_view == old(self).task_view,
            final(self).selected_task_idx == old(self).selected_task_idx,
            final(self).should_quit == old(self).should_quit,
            final(self).wf(),
    {
        let mut popup = EditLabelsPopup::new();
        popup.load_labels(self.task_db.labels());
        self.focus = VenomFocus::EditLabelsPopup(popup);
    }
}

/// The abstract commands the session consumes. Key decoding belongs to
/// the host; the session sees only these.
#[derive(Clone, Copy, PartialEq, Eq, Structural, Debug)]
pub enum Command {
    Quit,
    MoveSelectionUp,
    MoveSelectionDown,
    AddTask,
    AddTaskFromCurrent,
    EditCurrentTask,
    EditLabels,
    DeleteSelectedTask,
    ToggleSelectedDone,
    CycleCompletionPolicy,
    CycleLabelFilter,
    CyclePropertyUp,
    CyclePropertyDown,
    ConfirmIntoEdit,
    CancelOneLevel,
    TextBufferKeystroke,
}

/// What the host must do after a command was processed.
#[derive(Clone, Copy, PartialEq, Eq, Structural, Debug)]
pub enum UpdateEffect {
    /// Nothing beyond redrawing.
    Nothing,
    /// The store changed at a commit point: persist it.
    Persist,
    /// The cancel was absorbed: step the text editor back to its base mode.
    EditorToBase,
    /// Hand the raw keystroke to the text editor.
    ForwardKeystroke,
    /// A popup buffer was (re)loaded: load it into the text editor.
    LoadBuffer,
}

/// Commits the live buffer into the popup's target task: the label
/// property resolves through the store (an unknown code clears the
/// label); every other property decodes by the field codec.
fn escape_task_edit(app: &mut Venom, edited_text: &str)
    requires
        old(app).wf(),
        old(app).focus is EditTaskPopup,
        old(app).focus->EditTaskPopup_0.focus == EditTaskFocus::Edit,
    ensures
        ({
            let p = old(app).focus->EditTaskPopup_0;
            let h = p.target_idx as int;
            let t0 = old(app).task_db.tasks@[h];
            let t1 = final(app).task_db.tasks@[h];
            &&& final(app).focus is EditTaskPopup
            &&& final(app).focus->EditTaskPopup_0.property == p.property
            &&& final(app).focus->EditTaskPopup_0.target_idx == p.target_idx
            &&& final(app).focus->EditTaskPopup_0.buffer == p.buffer
            &&& final(app).focus->EditTaskPopup_0.focus == EditTaskFocus::Fields
            &&& final(app).task_db.tasks@.len() == old(app).task_db.tasks@.len()
            &&& forall|i: int|
                0 <= i < old(app).task_db.tasks@.len() && i != h ==> final(app).task_db.tasks@[i]
                    == old(app).task_db.tasks@[i]
            &&& t1.title@ == (if p.property is Title {
                edited_text@
            } else {
                t0.title@
            })
            &&& t1.notes@ == (if p.property is Notes {
                edited_text@
            } else {
                t0.notes@
            })
            &&& t1.priority == (if p.property is Priority {
                match crate::task::Priority::spec_from_name(edited_text@) {
                    Option::Some(pr) => pr,
                    Option::None => t0.priority,
                }
            } else {
                t0.priority
            })
            &&& t1.due_date == (if p.property is DueDate {
                crate::task::decoded_due(t0.due_date, edited_text@)
            } else {
                t0.due_date
            })
            &&& t1.spec_label_code() == (if p.property is Label {
                if old(app).task_db.has_label_code(crate::label::short_code(edited_text@)) {
                    Option::Some(crate::label::short_code(edited_text@))
                } else {
                    Option::<Seq<char>>::None
                }
            } else {
                t0.spec_label_code()
            })
            &&& t1.done == t0.done
        }),
        final(app).task_db.labels == old(app).task_db.labels,
        final(app).task_view == old(app).task_view,
        final(app).selected_task_idx == old(app).selected_task_idx,
        final(app).should_quit == old(app).should_quit,
        final(app).wf(),
{
    let (property, target) = match &app.focus {
        VenomFocus::EditTaskPopup(p) => (p.property, p.target_idx),
        _ => {
            proof {
                assert(false);
            }
            (EditableTaskProperty::Title, 0)
        },
    };
    match &mut app.focus {
        VenomFocus::EditTaskPopup(p) => {
            p.set_focus(EditTaskFocus::Fields);
        },
        _ => {},
    };
    match property {
        EditableTaskProperty::Label => {
            let code: Option<String> = match app.task_db.label_by_tag(edited_text) {
                Some(i) => Some(app.task_db.labels()[i].short_name_string()),
                None => None,
            };
            app.task_db.tasks[target].set_label(code);
        },
        _ => {
            app.task_db.tasks[target].set_property_from_str(property, edited_text);
        },
    }
}

/// Commits the live label buffer: reconciles it against the store, leaves
/// the popup, and regenerates the view.
fn escape_label_popup(app: &mut Venom, edited_text: &str, now: DueDate)
    requires
        old(app).wf(),
        old(app).focus is EditLabelsPopup,
    ensures
        crate::label::labels_view(final(app).task_db.labels@) == labels_text::reconciled_labels(
            crate::label::labels_view(old(app).task_db.labels@),
            labels_text::buffer_entries(edited_text@),
        ),
        final(app).task_db.tasks@.len() == old(app).task_db.tasks@.len(),
        forall|i: int|
            0 <= i < old(app).task_db.tasks@.len() ==> final(app).task_db.tasks@[i] == (
            match old(app).task_db.tasks@[i].spec_label_code() {
                Option::Some(c) => if labels_text::model_has_code(
                    labels_text::reconciled_labels(
                        crate::label::labels_view(old(app).task_db.labels@),
                        labels_text::buffer_entries(edited_text@),
                    ),
                    c,
                ) {
                    old(app).task_db.tasks@[i]
                } else {
                    crate::store::label_cleared(old(app).task_db.tasks@[i])
                },
                Option::None => old(app).task_db.tasks@[i],
            }),
        final(app).task_db.labels_resolved(),
        final(app).focus is MainView,
        final(app).task_view.displayed_tasks@ == crate::view::derived_view(
            final(app).task_db.tasks@,
            old(app).task_view.completed_task_view,
            final(app).task_view.spec_current_code(),
            now,
        ),
        final(app).should_quit == old(app).should_quit,
        final(app).wf(),
{
    labels_text::reconcile_labels(&mut app.task_db, edited_text);
    app.focus = VenomFocus::MainView;
    app.update_view(now);
}

/// Nothing about the session changed.
pub open spec fn session_unchanged(a: Venom, b: Venom) -> bool {
    &&& a.task_db == b.task_db
    &&& a.task_view == b.task_view
    &&& a.selected_task_idx == b.selected_task_idx
    &&& a.focus == b.focus
    &&& a.should_quit == b.should_quit
}

/// Processes one abstract command against the session. `editor_at_base`
/// says whether the host's text editor is in its base (navigation) mode:
/// in an editing sub-focus a cancel is absorbed to step that mode back
/// before the focus itself changes. `edited_text` is the live buffer
/// content, read on commits. `now` stands in for absent due dates while
/// sorting. The returned effect says what the host must do.
pub fn update(
    app: &mut Venom,
    cmd: Command,
    editor_at_base: bool,
    edited_text: &str,
    now: DueDate,
) -> (eff: UpdateEffect)
    requires
        old(app).wf(),
    ensures
        final(app).wf(),
        final(app).should_quit == (old(app).should_quit || (old(app).focus is MainView && (
        cmd is Quit || cmd is CancelOneLevel))),
        // Main view: selection movement.
        old(app).focus is MainView && cmd is MoveSelectionDown ==> {
            &&& final(app).task_db == old(app).task_db
            &&& final(app).task_view == old(app).task_view
            &&& final(app).focus == old(app).focus
            &&& final(app).selected_task_idx == (
            if old(app).task_view.displayed_tasks@.len() == 0 {
                0usize
            } else if old(app).selected_task_idx + 1 == old(app).task_view.displayed_tasks@.len() {
                0usize
            } else {
                (old(app).selected_task_idx + 1) as usize
            })
            &&& eff is Nothing
        },
        old(app).focus is MainView && cmd is MoveSelectionUp ==> {
            &&& final(app).task_db == old(app).task_db
            &&& final(app).task_view == old(app).task_view
            &&& final(app).focus == old(app).focus
            &&& final(app).selected_task_idx == (
            if old(app).task_view.displayed_tasks@.len() == 0 {
                0usize
            } else if old(app).selected_task_idx == 0 {
                (old(app).task_view.displayed_tasks@.len() - 1) as usize
            } else {
                (old(app).selected_task_idx - 1) as usize
            })
            &&& eff is Nothing
        },
        // Main view: quitting changes nothing else.
        old(app).focus is MainView && (cmd is Quit || cmd is CancelOneLevel) ==> {
            &&& final(app).task_db == old(app).task_db
            &&& final(app).task_view == old(app).task_view
            &&& final(app).selected_task_idx == old(app).selected_task_idx
            &&& final(app).focus == old(app).focus
            &&& eff is Nothing
        },
        // Main view: opening popups.
        old(app).focus is MainView && cmd is AddTask ==> {
            &&& final(app).task_db.tasks@.len() == old(app).task_db.tasks@.len() + 1
            &&& final(app).task_db.tasks@.take(old(app).task_db.tasks@.len() as int) == old(app).task_db.tasks@
            &&& final(app).task_db.tasks@.last().title@ == Seq::<char>::empty()
            &&& !final(app).task_db.tasks@.last().done
            &&& final(app).task_db.labels == old(app).task_db.labels
            &&& final(app).focus is EditTaskPopup
            &&& final(app).focus->EditTaskPopup_0.target_idx == old(app).task_db.tasks@.len()
            &&& final(app).focus->EditTaskPopup_0.property == EditableTaskProperty::Title
            &&& final(app).focus->EditTaskPopup_0.focus == EditTaskFocus::Fields
            &&& final(app).task_view.displayed_tasks@ == crate::view::derived_view(
                final(app).task_db.tasks@,
                old(app).task_view.completed_task_view,
                final(app).task_view.spec_current_code(),
                now,
            )
            &&& eff is LoadBuffer
        },
        old(app).focus is MainView && cmd is AddTaskFromCurrent && old(app).task_view.displayed_tasks@.len() > 0 ==> {
            let h = old(app).task_view.displayed_tasks@[old(app).selected_task_idx as int];
            let src = old(app).task_db.tasks@[h as int];
            &&& final(app).task_db.tasks@.len() == old(app).task_db.tasks@.len() + 1
            &&& final(app).task_db.tasks@.take(old(app).task_db.tasks@.len() as int) == old(app).task_db.tasks@
            &&& final(app).task_db.tasks@.last().title@ == src.title@
            &&& final(app).task_db.tasks@.last().notes@ == src.notes@
            &&& final(app).task_db.tasks@.last().due_date == src.due_date
            &&& final(app).task_db.tasks@.last().spec_label_code() == src.spec_label_code()
            &&& !final(app).task_db.tasks@.last().done
            &&& final(app).task_db.labels == old(app).task_db.labels
            &&& final(app).focus is EditTaskPopup
            &&& final(app).focus->EditTaskPopup_0.target_idx == old(app).task_db.tasks@.len()
            &&& eff is LoadBuffer
        },
        old(app).focus is MainView && cmd is EditCurrentTask && old(app).task_view.displayed_tasks@.len() > 0 ==> {
            let h = old(app).task_view.displayed_tasks@[old(app).selected_task_idx as int];
            &&& final(app).task_db == old(app).task_db
            &&& final(app).task_view == old(app).task_view
            &&& final(app).selected_task_idx == old(app).selected_task_idx
            &&& final(app).focus is EditTaskPopup
            &&& final(app).focus->EditTaskPopup_0.target_idx == h
            &&& final(app).focus->EditTaskPopup_0.property == EditableTaskProperty::Title
            &&& final(app).focus->EditTaskPopup_0.buffer@ == old(app).task_db.tasks@[h as int].spec_text_to_edit(EditableTaskProperty::Title)
            &&& eff is LoadBuffer
        },
        old(app).focus is MainView && cmd is EditLabels ==> {
            &&& final(app).task_db == old(app).task_db
            &&& final(app).task_view == old(app).task_view
            &&& final(app).selected_task_idx == old(app).selected_task_idx
            &&& final(app).focus is EditLabelsPopup
            &&& final(app).focus->EditLabelsPopup_0.buffer@ == labels_text::spec_encode_labels(
                crate::label::labels_view(old(app).task_db.labels@),
            )
            &&& eff is LoadBuffer
        },
        // Main view: store mutations.
        old(app).focus is MainView && cmd is DeleteSelectedTask ==> {
            &&& (old(app).task_view.displayed_tasks@.len() > 0 ==> final(app).task_db.tasks@ == old(app).task_db.tasks@.remove(
                old(app).task_view.displayed_tasks@[old(app).selected_task_idx as int] as int,
            ) && eff is Persist)
            &&& (old(app).task_view.displayed_tasks@.len() == 0 ==> final(app).task_db.tasks@
                == old(app).task_db.tasks@ && eff is Nothing)
            &&& final(app).task_db.labels == old(app).task_db.labels
            &&& final(app).focus == old(app).focus
            &&& final(app).task_view.displayed_tasks@ == crate::view::derived_view(
                final(app).task_db.tasks@,
                old(app).task_view.completed_task_view,
                final(app).task_view.spec_current_code(),
                now,
            )
        },
        old(app).focus is MainView && cmd is ToggleSelectedDone && old(app).task_view.displayed_tasks@.len() > 0 ==> {
            let h = old(app).task_view.displayed_tasks@[old(app).selected_task_idx as int];
            let t0 = old(app).task_db.tasks@[h as int];
            let toggled = old(app).task_db.tasks@.update(h as int, Task { done: !t0.done, ..t0 });
            &&& final(app).task_db.tasks@ == crate::sorting::sort_by_insertion(
                toggled,
                crate::store::task_leq(now),
            )
            &&& final(app).task_db.labels == old(app).task_db.labels
            &&& final(app).focus == old(app).focus
            &&& final(app).task_view.displayed_tasks@ == crate::view::derived_view(
                final(app).task_db.tasks@,
                old(app).task_view.completed_task_view,
                final(app).task_view.spec_current_code(),
                now,
            )
            &&& eff is Persist
        },
        old(app).focus is MainView && cmd is CycleCompletionPolicy ==> {
            &&& final(app).task_db == old(app).task_db
            &&& final(app).focus == old(app).focus
            &&& final(app).task_view.completed_task_view == old(app).task_view.completed_task_view.spec_next()
            &&& final(app).task_view.displayed_tasks@ == crate::view::derived_view(
                old(app).task_db.tasks@,
                old(app).task_view.completed_task_view.spec_next(),
                final(app).task_view.spec_current_code(),
                now,
            )
            &&& eff is Nothing
        },
        old(app).focus is MainView && cmd is CycleLabelFilter ==> {
            &&& final(app).task_db == old(app).task_db
            &&& final(app).focus == old(app).focus
            &&& final(app).task_view.completed_task_view == old(app).task_view.completed_task_view
            &&& final(app).task_view.spec_current_code() == (match crate::view::next_label_filter(
                old(app).task_view.labels@,
                old(app).task_view.spec_current_code(),
            ) {
                Option::Some(c) => if old(app).task_db.has_label_code(c) {
                    Option::Some(c)
                } else {
                    Option::<Seq<char>>::None
                },
                Option::None => Option::<Seq<char>>::None,
            })
            &&& final(app).task_view.displayed_tasks@ == crate::view::derived_view(
                old(app).task_db.tasks@,
                old(app).task_view.completed_task_view,
                final(app).task_view.spec_current_code(),
                now,
            )
            &&& eff is Nothing
        },
        // Main view: commands that have no meaning there change nothing.
        old(app).focus is MainView && !(cmd is Quit || cmd is CancelOneLevel
            || cmd is MoveSelectionDown || cmd is MoveSelectionUp || cmd is AddTask
            || cmd is AddTaskFromCurrent || cmd is EditCurrentTask || cmd is EditLabels
            || cmd is DeleteSelectedTask || cmd is ToggleSelectedDone
            || cmd is CycleCompletionPolicy || cmd is CycleLabelFilter) ==> session_unchanged(
            *old(app),
            *final(app),
        ) && eff is Nothing,
        old(app).focus is MainView && (cmd is AddTaskFromCurrent || cmd is EditCurrentTask
            || cmd is ToggleSelectedDone) && old(app).task_view.displayed_tasks@.len() == 0
            ==> session_unchanged(*old(app), *final(app)) && eff is Nothing,
        // Task popup, property cursor focused.
        old(app).focus is EditTaskPopup && old(app).focus->EditTaskPopup_0.focus
            == EditTaskFocus::Fields ==> {
            let p = old(app).focus->EditTaskPopup_0;
            &&& (cmd is CancelOneLevel ==> final(app).task_db.tasks@
                == crate::sorting::sort_by_insertion(
                old(app).task_db.tasks@,
                crate::store::task_leq(now),
            ) && final(app).focus is MainView && final(app).task_view.displayed_tasks@
                == crate::view::derived_view(
                final(app).task_db.tasks@,
                old(app).task_view.completed_task_view,
                final(app).task_view.spec_current_code(),
                now,
            ) && eff is Nothing)
            &&& (cmd is CyclePropertyDown ==> final(app).task_db == old(app).task_db && final(app).task_view == old(app).task_view && final(app).selected_task_idx == old(app).selected_task_idx && final(app).focus is EditTaskPopup && final(app).focus->EditTaskPopup_0.property
                == p.property.spec_next() && final(app).focus->EditTaskPopup_0.focus
                == EditTaskFocus::Fields && final(app).focus->EditTaskPopup_0.target_idx
                == p.target_idx && final(app).focus->EditTaskPopup_0.buffer@ == old(app).task_db.tasks@[p.target_idx as int].spec_text_to_edit(p.property.spec_next())
                && eff is LoadBuffer)
            &&& (cmd is CyclePropertyUp ==> final(app).task_db == old(app).task_db && final(app).task_view == old(app).task_view && final(app).selected_task_idx == old(app).selected_task_idx && final(app).focus is EditTaskPopup && final(app).focus->EditTaskPopup_0.property
                == p.property.spec_prev() && final(app).focus->EditTaskPopup_0.focus
                == EditTaskFocus::Fields && final(app).focus->EditTaskPopup_0.target_idx
                == p.target_idx && final(app).focus->EditTaskPopup_0.buffer@ == old(app).task_db.tasks@[p.target_idx as int].spec_text_to_edit(p.property.spec_prev())
                && eff is LoadBuffer)
            &&& (cmd is ConfirmIntoEdit ==> final(app).task_db == old(app).task_db && final(app).task_view == old(app).task_view && final(app).focus is EditTaskPopup && final(app).focus->EditTaskPopup_0.focus == EditTaskFocus::Edit && final(app).focus->EditTaskPopup_0.property == p.property && final(app).focus->EditTaskPopup_0.target_idx == p.target_idx && eff is Nothing)
            &&& (!(cmd is CancelOneLevel || cmd is CyclePropertyDown || cmd is CyclePropertyUp
                || cmd is ConfirmIntoEdit) ==> session_unchanged(*old(app), *final(app))
                && eff is Nothing)
        },
        // Task popup, text editor focused.
        old(app).focus is EditTaskPopup && old(app).focus->EditTaskPopup_0.focus
            == EditTaskFocus::Edit ==> {
            let p = old(app).focus->EditTaskPopup_0;
            let h = p.target_idx as int;
            let t0 = old(app).task_db.tasks@[h];
            &&& (cmd is CancelOneLevel && !editor_at_base ==> session_unchanged(
                *old(app),
                *final(app),
            ) && eff is EditorToBase)
            &&& (cmd is CancelOneLevel && editor_at_base ==> {
                let t1 = final(app).task_db.tasks@[h];
                &&& final(app).task_view == old(app).task_view
                &&& final(app).selected_task_idx == old(app).selected_task_idx
                &&& final(app).focus is EditTaskPopup
                &&& final(app).focus->EditTaskPopup_0.focus == EditTaskFocus::Fields
                &&& final(app).focus->EditTaskPopup_0.property == p.property
                &&& final(app).focus->EditTaskPopup_0.target_idx == p.target_idx
                &&& final(app).task_db.tasks@.len() == old(app).task_db.tasks@.len()
                &&& forall|i: int|
                    0 <= i < old(app).task_db.tasks@.len() && i != h ==> final(app).task_db.tasks@[i] == old(app).task_db.tasks@[i]
                &&& t1.title@ == (if p.property is Title {
                    edited_text@
                } else {
                    t0.title@
                })
                &&& t1.notes@ == (if p.property is Notes {
                    edited_text@
                } else {
                    t0.notes@
                })
                &&& t1.priority == (if p.property is Priority {
                    match crate::task::Priority::spec_from_name(edited_text@) {
                        Option::Some(pr) => pr,
                        Option::None => t0.priority,
                    }
                } else {
                    t0.priority
                })
                &&& t1.due_date == (if p.property is DueDate {
                    crate::task::decoded_due(t0.due_date, edited_text@)
                } else {
                    t0.due_date
                })
                &&& t1.spec_label_code() == (if p.property is Label {
                    if old(app).task_db.has_label_code(crate::label::short_code(edited_text@)) {
                        Option::Some(crate::label::short_code(edited_text@))
                    } else {
                        Option::<Seq<char>>::None
                    }
                } else {
                    t0.spec_label_code()
                })
                &&& t1.done == t0.done
                &&& final(app).task_db.labels == old(app).task_db.labels
                &&& eff is Persist
            })
            &&& (!(cmd is CancelOneLevel) ==> session_unchanged(*old(app), *final(app))
                && eff is ForwardKeystroke)
        },
        // Label popup.
        old(app).focus is EditLabelsPopup ==> {
            &&& (cmd is CancelOneLevel && !editor_at_base ==> session_unchanged(
                *old(app),
                *final(app),
            ) && eff is EditorToBase)
            &&& (cmd is CancelOneLevel && editor_at_base ==> {
                let rec = labels_text::reconciled_labels(
                    crate::label::labels_view(old(app).task_db.labels@),
                    labels_text::buffer_entries(edited_text@),
                );
                &&& crate::label::labels_view(final(app).task_db.labels@) == rec
                &&& final(app).task_db.tasks@.len() == old(app).task_db.tasks@.len()
                &&& forall|i: int|
                    0 <= i < old(app).task_db.tasks@.len() ==> final(app).task_db.tasks@[i] == (
                    match old(app).task_db.tasks@[i].spec_label_code() {
                        Option::Some(c) => if labels_text::model_has_code(rec, c) {
                            old(app).task_db.tasks@[i]
                        } else {
                            crate::store::label_cleared(old(app).task_db.tasks@[i])
                        },
                        Option::None => old(app).task_db.tasks@[i],
                    })
                &&& final(app).task_db.labels_resolved()
                &&& final(app).focus is MainView
                &&& final(app).task_view.displayed_tasks@ == crate::view::derived_view(
                    final(app).task_db.tasks@,
                    old(app).task_view.completed_task_view,
                    final(app).task_view.spec_current_code(),
                    now,
                )
                &&& eff is Persist
            })
            &&& (!(cmd is CancelOneLevel) ==> session_unchanged(*old(app), *final(app))
                && eff is ForwardKeystroke)
        },
{
    let state: u8 = match &app.focus {
        VenomFocus::MainView => 0,
        VenomFocus::EditTaskPopup(p) => {
            if p.focus() == EditTaskFocus::Fields {
                1
            } else {
                2
            }
        },
        VenomFocus::EditLabelsPopup(_) => 3,
    };
    if state == 0 {
        match cmd {
            Command::Quit | Command::CancelOneLevel => {
                app.quit();
                UpdateEffect::Nothing
            },
            Command::MoveSelectionDown => {
                app.increment_task_idx();
                UpdateEffect::Nothing
            },
            Command::MoveSelectionUp => {
                app.decrement_task_idx();
                UpdateEffect::Nothing
            },
            Command::AddTask => {
                app.add_task(now);
                UpdateEffect::LoadBuffer
            },
            Command::AddTaskFromCurrent => {
                if app.task_view.has_no_tasks() {
                    UpdateEffect::Nothing
                } else {
                    app.add_task_based_on_current(now);
                    UpdateEffect::LoadBuffer
                }
            },
            Command::EditCurrentTask => {
                if app.task_view.has_no_tasks() {
                    UpdateEffect::Nothing
                } else {
                    app.edit_current_task();
                    UpdateEffect::LoadBuffer
                }
            },
            Command::EditLabels => {
                app.edit_labels();
                UpdateEffect::LoadBuffer
            },
            Command::DeleteSelectedTask => {
                let had_tasks = !app.task_view.has_no_tasks();
                app.remove_selected_task(now);
                if had_tasks {
                    UpdateEffect::Persist
                } else {
                    UpdateEffect::Nothing
                }
            },
            Command::ToggleSelectedDone => {
                if app.task_view.has_no_tasks() {
                    UpdateEffect::Nothing
                } else {
                    app.toggle_selected_task();
                    proof {
                        let h = old(app).task_view.displayed_tasks@[old(
                            app,
                        ).selected_task_idx as int];
                        let t0 = old(app).task_db.tasks@[h as int];
                        assert(app.task_db.tasks@[h as int] == Task { done: !t0.done, ..t0 });
                        assert(app.task_db.tasks@ =~= old(app).task_db.tasks@.update(
                            h as int,
                            Task { done: !t0.done, ..t0 },
                        ));
                    }
                    app.sort_and_refresh(now);
                    UpdateEffect::Persist
                }
            },
            Command::CycleCompletionPolicy => {
                app.toggle_completed_task_view(now);
                UpdateEffect::Nothing
            },
            Command::CycleLabelFilter => {
                app.toggle_selected_label(now);
                UpdateEffect::Nothing
            },
            _ => UpdateEffect::Nothing,
        }
    } else if state == 1 {
        match cmd {
            Command::CancelOneLevel => {
                app.focus = VenomFocus::MainView;
                app.sort_and_refresh(now);
                UpdateEffect::Nothing
            },
            Command::CyclePropertyDown => {
                let (tgt, next_prop) = match &app.focus {
                    VenomFocus::EditTaskPopup(p) => (p.target_idx, p.property().next()),
                    _ => (0, EditableTaskProperty::Title),
                };
                let text = app.task_db.tasks()[tgt].text_to_edit(next_prop);
                match &mut app.focus {
                    VenomFocus::EditTaskPopup(p) => {
                        p.set_property(next_prop);
                        p.load_text(text.as_str());
                    },
                    _ => {},
                };
                UpdateEffect::LoadBuffer
            },
            Command::CyclePropertyUp => {
                let (tgt, prev_prop) = match &app.focus {
                    VenomFocus::EditTaskPopup(p) => (p.target_idx, p.property().prev()),
                    _ => (0, EditableTaskProperty::Title),
                };
                let text = app.task_db.tasks()[tgt].text_to_edit(prev_prop);
                match &mut app.focus {
                    VenomFocus::EditTaskPopup(p) => {
                        p.set_property(prev_prop);
                        p.load_text(text.as_str());
                    },
                    _ => {},
                };
                UpdateEffect::LoadBuffer
            },
            Command::ConfirmIntoEdit => {
                match &mut app.focus {
                    VenomFocus::EditTaskPopup(p) => {
                        p.set_focus(EditTaskFocus::Edit);
                    },
                    _ => {},
                };
                UpdateEffect::Nothing
            },
            _ => UpdateEffect::Nothing,
        }
    } else if state == 2 {
        match cmd {
            Command::CancelOneLevel => {
                if !editor_at_base {
                    UpdateEffect::EditorToBase
                } else {
                    escape_task_edit(app, edited_text);
                    UpdateEffect::Persist
                }
            },
            _ => UpdateEffect::ForwardKeystroke,
        }
    } else {
        match cmd {
            Command::CancelOneLevel => {
                if !editor_at_base {
                    UpdateEffect::EditorToBase
                } else {
                    escape_label_popup(app, edited_text, now);
                    UpdateEffect::Persist
                }
            },
            _ => UpdateEffect::ForwardKeystroke,
        }
    }
}

} // verus!
