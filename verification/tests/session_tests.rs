use venom::date::DueDate;
use venom::label::TaskLabel;
use venom::session::{update, Command, EditTaskFocus, UpdateEffect, Venom, VenomFocus};
use venom::task::{EditableTaskProperty, Priority, Task};
use venom::view::CompletionPolicy;

fn due(year: i32, month: u8, day: u8, hour: u8, minute: u8) -> DueDate {
    DueDate { year, month, day, hour, minute }
}

fn now() -> DueDate {
    due(2024, 6, 15, 12, 0)
}

fn task_due(title: &str, d: DueDate) -> Task {
    let mut t = Task::new(title, Priority::Unset);
    t.set_date(&d);
    t
}

fn app_with_three_tasks() -> Venom {
    let mut app = Venom::new();
    {
        let db = app.task_db_mut();
        db.add_task(task_due("a", due(2024, 1, 1, 0, 0)));
        db.add_task(task_due("b", due(2024, 2, 1, 0, 0)));
        let mut done = task_due("c", due(2024, 3, 1, 0, 0));
        done.toggle_done();
        db.add_task(done);
    }
    app.update_view(now());
    app
}

#[test]
fn hide_completed_policy_filters_done_tasks() {
    // Three tasks, one done: the hidden view has length two, only the
    // incomplete tasks, ordered by due date.
    let mut app = app_with_three_tasks();
    assert_eq!(app.task_view().num_tasks(), 3);
    let _ = update(&mut app, Command::CycleCompletionPolicy, true, "", now()); // ShowAll
    let _ = update(&mut app, Command::CycleCompletionPolicy, true, "", now()); // HideCompleted
    assert!(matches!(app.task_view().completed_task_view, CompletionPolicy::HideCompleted));
    assert_eq!(app.task_view().num_tasks(), 2);
    let titles: Vec<&str> = app
        .task_view()
        .tasks()
        .iter()
        .map(|&h| app.task_db().tasks()[h].title())
        .collect();
    assert_eq!(titles, vec!["a", "b"]);
}

#[test]
fn separate_policy_moves_done_to_bottom() {
    let mut app = Venom::new();
    {
        let db = app.task_db_mut();
        let mut done_early = task_due("done-early", due(2024, 1, 1, 0, 0));
        done_early.toggle_done();
        db.add_task(done_early);
        db.add_task(task_due("open-late", due(2024, 5, 1, 0, 0)));
        db.add_task(task_due("open-early", due(2024, 2, 1, 0, 0)));
    }
    app.update_view(now());
    let titles: Vec<&str> = app
        .task_view()
        .tasks()
        .iter()
        .map(|&h| app.task_db().tasks()[h].title())
        .collect();
    assert_eq!(titles, vec!["open-early", "open-late", "done-early"]);
}

#[test]
fn selection_is_clamped_after_regeneration() {
    let mut app = app_with_three_tasks();
    let _ = update(&mut app, Command::MoveSelectionDown, true, "", now());
    let _ = update(&mut app, Command::MoveSelectionDown, true, "", now());
    assert_eq!(app.selected_task_idx(), 2);
    // Hiding the completed task shrinks the view; the selection re-clamps.
    let _ = update(&mut app, Command::CycleCompletionPolicy, true, "", now());
    let _ = update(&mut app, Command::CycleCompletionPolicy, true, "", now());
    assert_eq!(app.task_view().num_tasks(), 2);
    assert!(app.selected_task_idx() < 2);
}

#[test]
fn selection_wraps_both_ways() {
    let mut app = app_with_three_tasks();
    assert_eq!(app.selected_task_idx(), 0);
    let _ = update(&mut app, Command::MoveSelectionUp, true, "", now());
    assert_eq!(app.selected_task_idx(), 2);
    let _ = update(&mut app, Command::MoveSelectionDown, true, "", now());
    assert_eq!(app.selected_task_idx(), 0);
}

#[test]
fn selection_on_empty_view_stays_zero() {
    let mut app = Venom::new();
    let _ = update(&mut app, Command::MoveSelectionDown, true, "", now());
    assert_eq!(app.selected_task_idx(), 0);
    let _ = update(&mut app, Command::MoveSelectionUp, true, "", now());
    assert_eq!(app.selected_task_idx(), 0);
}

#[test]
fn quit_flag() {
    let mut app = Venom::new();
    assert!(!app.should_quit());
    let eff = update(&mut app, Command::Quit, true, "", now());
    assert!(matches!(eff, UpdateEffect::Nothing));
    assert!(app.should_quit());
}

#[test]
fn add_task_opens_popup_on_blank_task() {
    let mut app = Venom::new();
    let eff = update(&mut app, Command::AddTask, true, "", now());
    assert!(matches!(eff, UpdateEffect::LoadBuffer));
    assert_eq!(app.task_db().num_tasks(), 1);
    match app.focus() {
        VenomFocus::EditTaskPopup(p) => {
            assert!(matches!(p.property(), EditableTaskProperty::Title));
            assert!(matches!(p.focus(), EditTaskFocus::Fields));
            assert_eq!(p.text(), "");
            assert_eq!(p.target_idx, 0);
        },
        _ => panic!("expected the task popup"),
    }
}

#[test]
fn edit_commit_writes_title_and_persists() {
    let mut app = Venom::new();
    let _ = update(&mut app, Command::AddTask, true, "", now());
    let eff = update(&mut app, Command::ConfirmIntoEdit, true, "", now());
    assert!(matches!(eff, UpdateEffect::Nothing));
    // The host hands back the edited buffer on the committing cancel.
    let eff = update(&mut app, Command::CancelOneLevel, true, "Buy milk", now());
    assert!(matches!(eff, UpdateEffect::Persist));
    assert_eq!(app.task_db().tasks()[0].title(), "Buy milk");
    match app.focus() {
        VenomFocus::EditTaskPopup(p) => assert!(matches!(p.focus(), EditTaskFocus::Fields)),
        _ => panic!("expected to stay in the popup"),
    }
}

#[test]
fn cancel_is_absorbed_while_editor_not_at_base() {
    let mut app = Venom::new();
    let _ = update(&mut app, Command::AddTask, true, "", now());
    let _ = update(&mut app, Command::ConfirmIntoEdit, true, "", now());
    let eff = update(&mut app, Command::CancelOneLevel, false, "ignored", now());
    assert!(matches!(eff, UpdateEffect::EditorToBase));
    // Nothing was committed.
    assert_eq!(app.task_db().tasks()[0].title(), "");
}

#[test]
fn property_cycle_reloads_buffer() {
    let mut app = Venom::new();
    {
        let db = app.task_db_mut();
        db.add_task(Task::new("hello", Priority::High));
    }
    app.update_view(now());
    let _ = update(&mut app, Command::EditCurrentTask, true, "", now());
    let eff = update(&mut app, Command::CyclePropertyDown, true, "", now());
    assert!(matches!(eff, UpdateEffect::LoadBuffer));
    match app.focus() {
        VenomFocus::EditTaskPopup(p) => {
            assert!(matches!(p.property(), EditableTaskProperty::Label));
            assert_eq!(p.text(), "");
        },
        _ => panic!("expected the task popup"),
    }
    let _ = update(&mut app, Command::CyclePropertyUp, true, "", now());
    match app.focus() {
        VenomFocus::EditTaskPopup(p) => {
            assert!(matches!(p.property(), EditableTaskProperty::Title));
            assert_eq!(p.text(), "hello");
        },
        _ => panic!("expected the task popup"),
    }
}

#[test]
fn label_commit_resolves_through_store() {
    let mut app = Venom::new();
    {
        let db = app.task_db_mut();
        db.add_label(TaskLabel::new("Personal", "PSNL", "Blue"));
        db.add_task(Task::new("a", Priority::Unset));
    }
    app.update_view(now());
    let _ = update(&mut app, Command::EditCurrentTask, true, "", now());
    let _ = update(&mut app, Command::CyclePropertyDown, true, "", now()); // Label
    let _ = update(&mut app, Command::ConfirmIntoEdit, true, "", now());
    let _ = update(&mut app, Command::CancelOneLevel, true, "PSNL", now());
    assert_eq!(app.task_db().tasks()[0].label().as_deref(), Some("PSNL"));
    // An unknown code clears the reference instead of erroring.
    let _ = update(&mut app, Command::ConfirmIntoEdit, true, "", now());
    let _ = update(&mut app, Command::CancelOneLevel, true, "XXXX", now());
    assert!(app.task_db().tasks()[0].label().is_none());
}

#[test]
fn labels_popup_round_trip() {
    let mut app = Venom::new();
    {
        let db = app.task_db_mut();
        db.add_label(TaskLabel::new("Personal", "PSNL", "Blue"));
        db.add_label(TaskLabel::new("Work", "WORK", "Red"));
    }
    app.update_view(now());
    let eff = update(&mut app, Command::EditLabels, true, "", now());
    assert!(matches!(eff, UpdateEffect::LoadBuffer));
    let buf = match app.focus() {
        VenomFocus::EditLabelsPopup(p) => p.text().to_string(),
        _ => panic!("expected the labels popup"),
    };
    assert_eq!(buf, "PSNL Blue Personal\nWORK Red Work");
    let eff = update(&mut app, Command::CancelOneLevel, true, &buf, now());
    assert!(matches!(eff, UpdateEffect::Persist));
    assert!(matches!(app.focus(), VenomFocus::MainView));
    assert_eq!(app.task_db().labels().len(), 2);
    assert_eq!(app.task_db().labels()[0].long_name(), "Personal");
}

#[test]
fn delete_selected_task_persists() {
    let mut app = app_with_three_tasks();
    let eff = update(&mut app, Command::DeleteSelectedTask, true, "", now());
    assert!(matches!(eff, UpdateEffect::Persist));
    assert_eq!(app.task_db().num_tasks(), 2);
    let mut empty = Venom::new();
    let eff = update(&mut empty, Command::DeleteSelectedTask, true, "", now());
    assert!(matches!(eff, UpdateEffect::Nothing));
}

#[test]
fn toggle_done_sorts_and_persists() {
    let mut app = app_with_three_tasks();
    let eff = update(&mut app, Command::ToggleSelectedDone, true, "", now());
    assert!(matches!(eff, UpdateEffect::Persist));
    // "a" was selected and is now done: it sorts below the open tasks.
    let last = app.task_db().tasks().last().unwrap();
    assert_eq!(last.title(), "c");
    assert!(app.task_db().tasks()[0].title() == "b");
}

#[test]
fn label_filter_cycles_through_labels_and_back() {
    let mut app = Venom::new();
    {
        let db = app.task_db_mut();
        db.add_label(TaskLabel::new("Personal", "PSNL", "Blue"));
        db.add_label(TaskLabel::new("Work", "WORK", "Red"));
        let mut t = Task::new("a", Priority::Unset);
        t.set_label(Some("WORK".to_string()));
        db.add_task(t);
        db.add_task(Task::new("b", Priority::Unset));
    }
    app.update_view(now());
    assert_eq!(app.task_view().num_tasks(), 2);
    let _ = update(&mut app, Command::CycleLabelFilter, true, "", now());
    assert_eq!(app.task_view().current_label.as_deref(), Some("PSNL"));
    assert_eq!(app.task_view().num_tasks(), 0);
    let _ = update(&mut app, Command::CycleLabelFilter, true, "", now());
    assert_eq!(app.task_view().current_label.as_deref(), Some("WORK"));
    assert_eq!(app.task_view().num_tasks(), 1);
    let _ = update(&mut app, Command::CycleLabelFilter, true, "", now());
    assert!(app.task_view().current_label.is_none());
    assert_eq!(app.task_view().num_tasks(), 2);
}

#[test]
fn add_task_from_current_copies_fields() {
    let mut app = Venom::new();
    {
        let db = app.task_db_mut();
        let mut t = Task::new("orig", Priority::High);
        t.set_notes("keep");
        t.set_date(&due(2024, 8, 1, 9, 0));
        db.add_task(t);
    }
    app.update_view(now());
    let eff = update(&mut app, Command::AddTaskFromCurrent, true, "", now());
    assert!(matches!(eff, UpdateEffect::LoadBuffer));
    assert_eq!(app.task_db().num_tasks(), 2);
    let copy = &app.task_db().tasks()[1];
    assert_eq!(copy.title(), "orig");
    assert_eq!(copy.notes(), "keep");
    assert_eq!(copy.due_date(), Some(due(2024, 8, 1, 9, 0)));
    // Priority and the done flag start fresh on the copy.
    assert!(matches!(copy.priority(), Priority::Unset));
    assert!(!copy.is_done());
}

#[test]
fn keystrokes_are_forwarded_in_edit_focus() {
    let mut app = Venom::new();
    let _ = update(&mut app, Command::AddTask, true, "", now());
    let _ = update(&mut app, Command::ConfirmIntoEdit, true, "", now());
    let eff = update(&mut app, Command::TextBufferKeystroke, true, "", now());
    assert!(matches!(eff, UpdateEffect::ForwardKeystroke));
}

#[test]
fn stale_label_filter_is_cleared_on_regeneration() {
    let mut app = Venom::new();
    {
        let db = app.task_db_mut();
        db.add_label(TaskLabel::new("Personal", "PSNL", "Blue"));
        db.add_task(Task::new("a", Priority::Unset));
    }
    app.update_view(now());
    let _ = update(&mut app, Command::CycleLabelFilter, true, "", now());
    assert_eq!(app.task_view().current_label.as_deref(), Some("PSNL"));
    // Removing every label through the bulk editor leaves the filter
    // pointing at a gone code; the regeneration resets it to "no filter".
    let _ = update(&mut app, Command::EditLabels, true, "", now());
    let _ = update(&mut app, Command::CancelOneLevel, true, "", now());
    assert!(app.task_view().current_label.is_none());
    assert_eq!(app.task_view().num_tasks(), 1);
}

#[test]
fn fields_cancel_returns_to_main_view_sorted() {
    let mut app = app_with_three_tasks();
    let _ = update(&mut app, Command::EditCurrentTask, true, "", now());
    let eff = update(&mut app, Command::CancelOneLevel, true, "", now());
    assert!(matches!(eff, UpdateEffect::Nothing));
    assert!(matches!(app.focus(), VenomFocus::MainView));
    assert!(!app.should_quit());
}
