use venom::label::TaskLabel;
use venom::labels_text::{encode_labels, reconcile_labels};
use venom::store::TaskDB;
use venom::task::{Priority, Task};

#[test]
fn encode_one_line_per_label() {
    let labels = vec![
        TaskLabel::new("Personal", "PSNL", "Blue"),
        TaskLabel::new("Work", "WORK", "Red"),
    ];
    assert_eq!(encode_labels(&labels), "PSNL Blue Personal\nWORK Red Work");
    assert_eq!(encode_labels(&Vec::new()), "");
}

#[test]
fn reconcile_updates_creates_and_removes() {
    // Scenario: PSNL is updated in place, WORK is removed (clearing the
    // task that pointed at it), TRIP is created.
    let mut db = TaskDB::new();
    db.add_label(TaskLabel::new("Personal", "PSNL", "Blue"));
    db.add_label(TaskLabel::new("Work", "WORK", "Red"));
    let mut t = Task::new("report", Priority::Unset);
    t.set_label(Some("WORK".to_string()));
    db.add_task(t);

    reconcile_labels(&mut db, "PSNL Green Home\nTRIP Blue Travel");

    assert_eq!(db.labels().len(), 2);
    assert_eq!(db.labels()[0].short_name(), "PSNL");
    assert_eq!(db.labels()[0].color_string(), "Green");
    assert_eq!(db.labels()[0].long_name(), "Home");
    assert_eq!(db.labels()[1].short_name(), "TRIP");
    assert_eq!(db.labels()[1].color_string(), "Blue");
    assert_eq!(db.labels()[1].long_name(), "Travel");
    assert!(db.tasks()[0].label().is_none());
}

#[test]
fn reconcile_preserves_position_of_updated_label() {
    let mut db = TaskDB::new();
    db.add_label(TaskLabel::new("Personal", "PSNL", "Blue"));
    db.add_label(TaskLabel::new("Work", "WORK", "Red"));
    reconcile_labels(&mut db, "PSNL Blue Personal\nWORK Red Work");
    assert_eq!(db.labels().len(), 2);
    assert_eq!(db.labels()[0].short_name(), "PSNL");
    assert_eq!(db.labels()[1].short_name(), "WORK");
}

#[test]
fn reconcile_single_label_round_trip() {
    let mut db = TaskDB::new();
    db.add_label(TaskLabel::new("Personal", "PSNL", "Blue"));
    let buf = encode_labels(db.labels());
    reconcile_labels(&mut db, &buf);
    assert_eq!(db.labels().len(), 1);
    assert_eq!(db.labels()[0].short_name(), "PSNL");
    assert_eq!(db.labels()[0].long_name(), "Personal");
    assert_eq!(db.labels()[0].color_string(), "Blue");
}

#[test]
fn reconcile_ignores_short_lines() {
    let mut db = TaskDB::new();
    db.add_label(TaskLabel::new("Personal", "PSNL", "Blue"));
    // Both lines have fewer than three tokens, so they are dropped; with
    // no surviving entry, every label is removed.
    reconcile_labels(&mut db, "PSNL Blue\n\nX");
    assert_eq!(db.labels().len(), 0);
}

#[test]
fn reconcile_multi_word_name_joined_with_single_spaces() {
    let mut db = TaskDB::new();
    reconcile_labels(&mut db, "HOME Cyan My   Sweet Home");
    assert_eq!(db.labels().len(), 1);
    assert_eq!(db.labels()[0].long_name(), "My Sweet Home");
}

#[test]
fn reconcile_keeps_task_reference_to_surviving_code() {
    let mut db = TaskDB::new();
    db.add_label(TaskLabel::new("Personal", "PSNL", "Blue"));
    let mut t = Task::new("a", Priority::Unset);
    t.set_label(Some("PSNL".to_string()));
    db.add_task(t);
    reconcile_labels(&mut db, "PSNL Green Personal");
    assert_eq!(db.tasks()[0].label().as_deref(), Some("PSNL"));
}

#[test]
fn reconcile_pads_short_codes() {
    let mut db = TaskDB::new();
    reconcile_labels(&mut db, "AB Red Short code");
    assert_eq!(db.labels().len(), 1);
    assert_eq!(db.labels()[0].short_name(), "AB  ");
    // A second pass with the same buffer updates rather than duplicates.
    reconcile_labels(&mut db, "AB Red Short code");
    assert_eq!(db.labels().len(), 1);
}

#[test]
fn reconcile_last_line_wins_for_duplicate_codes() {
    let mut db = TaskDB::new();
    reconcile_labels(&mut db, "AAAA Red First\nAAAA Blue Second");
    assert_eq!(db.labels().len(), 1);
    assert_eq!(db.labels()[0].color_string(), "Blue");
    assert_eq!(db.labels()[0].long_name(), "Second");
}

#[test]
fn reconcile_empty_buffer_clears_labels() {
    let mut db = TaskDB::new();
    db.add_label(TaskLabel::new("Personal", "PSNL", "Blue"));
    let mut t = Task::new("a", Priority::Unset);
    t.set_label(Some("PSNL".to_string()));
    db.add_task(t);
    reconcile_labels(&mut db, "");
    assert_eq!(db.labels().len(), 0);
    assert!(db.tasks()[0].label().is_none());
}
