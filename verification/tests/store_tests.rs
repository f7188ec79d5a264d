use venom::date::DueDate;
use venom::label::{TaskLabel, RGB};
use venom::store::TaskDB;
use venom::task::{Priority, Task};

fn due(year: i32, month: u8, day: u8, hour: u8, minute: u8) -> DueDate {
    DueDate { year, month, day, hour, minute }
}

fn now() -> DueDate {
    due(2024, 6, 15, 12, 0)
}

fn task_due(title: &str, d: DueDate) -> Task {
    let mut t = Task::new(title, Priority::Unset);
    t.set_date(&d);
    t
}

#[test]
fn rgb_new_and_default() {
    let c = RGB::new(1, 2, 3);
    assert_eq!((c.r, c.g, c.b), (1, 2, 3));
    let d = RGB::default();
    assert_eq!((d.r, d.g, d.b), (200, 200, 200));
}

#[test]
fn label_short_code_padding_and_truncation() {
    assert_eq!(TaskLabel::generate_short_name("AB"), "AB  ");
    assert_eq!(TaskLabel::generate_short_name("ABCDE"), "ABCD");
    assert_eq!(TaskLabel::generate_short_name(""), "    ");
    let l = TaskLabel::new("Personal", "PSNL", "Blue");
    assert_eq!(l.short_name(), "PSNL");
    assert_eq!(l.long_name(), "Personal");
    assert_eq!(l.color_string(), "Blue");
    assert_eq!(l.short_name_string(), "PSNL");
}

#[test]
fn label_setters() {
    let mut l = TaskLabel::default();
    l.set_tag("WK");
    l.set_name("Work");
    l.set_color("Red");
    assert_eq!(l.short_name(), "WK  ");
    assert_eq!(l.long_name(), "Work");
    assert_eq!(l.color_string(), "Red");
}

#[test]
fn label_lookup_by_tag() {
    let mut db = TaskDB::new();
    db.add_label(TaskLabel::new("Personal", "PSNL", "Blue"));
    db.add_label(TaskLabel::new("Work", "WORK", "Red"));
    assert_eq!(db.label_by_tag("PSNL"), Some(0));
    assert_eq!(db.label_by_tag("WORK"), Some(1));
    assert_eq!(db.label_by_tag("NOPE"), None);
    // Longer input is truncated to the code width; shorter is padded.
    assert_eq!(db.label_by_tag("PSNLX"), Some(0));
    db.add_label(TaskLabel::new("Short", "AB", "Green"));
    assert_eq!(db.label_by_tag("AB"), Some(2));
}

#[test]
fn remove_task_is_idempotent_on_missing_handles() {
    let mut db = TaskDB::new();
    db.add_task(Task::new("a", Priority::Unset));
    db.remove_task(5);
    assert_eq!(db.num_tasks(), 1);
    db.remove_task(0);
    assert_eq!(db.num_tasks(), 0);
    db.remove_task(0);
    assert_eq!(db.num_tasks(), 0);
}

#[test]
fn remove_label_cascades_to_tasks() {
    let mut db = TaskDB::new();
    db.add_label(TaskLabel::new("Personal", "PSNL", "Blue"));
    let mut t = Task::new("a", Priority::Unset);
    t.set_label(Some("PSNL".to_string()));
    db.add_task(t);
    db.add_task(Task::new("b", Priority::Unset));

    db.remove_label("PSNL");
    assert_eq!(db.labels().len(), 0);
    // No task still carries the removed code.
    for t in db.tasks().iter() {
        assert!(t.label().is_none());
    }
}

#[test]
fn remove_label_leaves_other_references() {
    let mut db = TaskDB::new();
    db.add_label(TaskLabel::new("Personal", "PSNL", "Blue"));
    db.add_label(TaskLabel::new("Work", "WORK", "Red"));
    let mut t = Task::new("a", Priority::Unset);
    t.set_label(Some("WORK".to_string()));
    db.add_task(t);
    db.remove_label("PSNL");
    assert_eq!(db.labels().len(), 1);
    assert_eq!(db.tasks()[0].label().as_deref(), Some("WORK"));
}

#[test]
fn sort_puts_incomplete_first_then_by_date() {
    let mut db = TaskDB::new();
    let mut done_early = task_due("done-early", due(2024, 1, 1, 0, 0));
    done_early.toggle_done();
    db.add_task(done_early);
    db.add_task(task_due("late", due(2025, 1, 1, 0, 0)));
    db.add_task(task_due("early", due(2024, 1, 1, 0, 0)));
    let undated = Task::new("undated", Priority::Unset);
    assert!(undated.due_date().is_none());
    db.add_task(undated);

    db.sort_by_date(now());
    let titles: Vec<&str> = db.tasks().iter().map(|t| t.title()).collect();
    // The undated task reads as due "now" (mid-2024): after "early",
    // before "late"; the completed task sinks to the bottom.
    assert_eq!(titles, vec!["early", "undated", "late", "done-early"]);
}

#[test]
fn sort_is_idempotent() {
    let mut db = TaskDB::new();
    db.add_task(task_due("b", due(2025, 1, 1, 0, 0)));
    db.add_task(task_due("a", due(2024, 1, 1, 0, 0)));
    let mut c = task_due("c", due(2024, 1, 1, 0, 0));
    c.toggle_done();
    db.add_task(c);

    db.sort_by_date(now());
    let first: Vec<String> = db.tasks().iter().map(|t| t.title().to_string()).collect();
    db.sort_by_date(now());
    let second: Vec<String> = db.tasks().iter().map(|t| t.title().to_string()).collect();
    assert_eq!(first, second);
}

#[test]
fn sort_is_stable_for_equal_keys() {
    let mut db = TaskDB::new();
    let d = due(2024, 1, 1, 0, 0);
    db.add_task(task_due("first", d));
    db.add_task(task_due("second", d));
    db.add_task(task_due("third", d));
    db.sort_by_date(now());
    let titles: Vec<&str> = db.tasks().iter().map(|t| t.title()).collect();
    assert_eq!(titles, vec!["first", "second", "third"]);
}

#[test]
fn builder_builds_field_by_field() {
    let t = Task::builder()
        .with_title("t")
        .with_notes("n")
        .with_priority(Priority::Medium)
        .with_due_date(Some(due(2024, 5, 1, 10, 0)))
        .with_label(Some("PSNL".to_string()))
        .build();
    assert_eq!(t.title(), "t");
    assert_eq!(t.notes(), "n");
    assert!(matches!(t.priority(), Priority::Medium));
    assert_eq!(t.due_date(), Some(due(2024, 5, 1, 10, 0)));
    assert_eq!(t.label().as_deref(), Some("PSNL"));
    assert!(!t.is_done());
}
