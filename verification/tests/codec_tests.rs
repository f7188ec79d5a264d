use venom::date::{month_from_name, month_name, DueDate};
use venom::task::{EditableTaskProperty, Priority, Task};

fn due(year: i32, month: u8, day: u8, hour: u8, minute: u8) -> DueDate {
    DueDate { year, month, day, hour, minute }
}

#[test]
fn month_names_round() {
    assert_eq!(month_name(1), "Jan");
    assert_eq!(month_name(12), "Dec");
    assert_eq!(month_from_name("Mar"), Some(3));
    assert_eq!(month_from_name("mar"), None);
    assert_eq!(month_from_name("March"), None);
    assert_eq!(month_from_name(""), None);
}

#[test]
fn calendar_validity_through_decode() {
    // The codec only accepts real calendar days and wall-clock times; on
    // a fresh task an invalid buffer leaves the date unset.
    let mut t = Task::default();
    t.set_date_str("29 Feb 2024 10:00");
    assert_eq!(t.due_date(), Some(due(2024, 2, 29, 10, 0)));

    let mut t = Task::default();
    t.set_date_str("29 Feb 2023 10:00");
    assert_eq!(t.due_date(), None);
    t.set_date_str("29 Feb 2100 10:00");
    assert_eq!(t.due_date(), None);
    t.set_date_str("29 Feb 2000 10:00");
    assert_eq!(t.due_date(), Some(due(2000, 2, 29, 10, 0)));

    let mut t = Task::default();
    t.set_date_str("31 Apr 2024 10:00");
    assert_eq!(t.due_date(), None);
    t.set_date_str("0 Jan 2024 10:00");
    assert_eq!(t.due_date(), None);
    t.set_date_str("1 Jan 400000 10:00");
    assert_eq!(t.due_date(), None);
    t.set_date_str("1 Jan -400000 10:00");
    assert_eq!(t.due_date(), None);
    t.set_date_str("1 Jan -2024 10:00");
    assert_eq!(t.due_date(), Some(due(-2024, 1, 1, 10, 0)));

    let mut t = Task::default();
    t.set_date_str("1 Jan 2024 24:00");
    assert_eq!(t.due_date(), None);
    t.set_date_str("1 Jan 2024 23:60");
    assert_eq!(t.due_date(), None);
    t.set_date_str("1 Jan 2024 23:59");
    assert_eq!(t.due_date(), Some(due(2024, 1, 1, 23, 59)));
    t.set_date_str("1 Jan 2024 0:00");
    assert_eq!(t.due_date(), Some(due(2024, 1, 1, 0, 0)));
}

#[test]
fn date_and_time_strings() {
    let mut t = Task::default();
    t.set_date(&due(2024, 3, 5, 8, 7));
    assert_eq!(t.date_string(), " 5 Mar 2024");
    assert_eq!(t.time_string(), "08:07");
    t.set_date(&due(2024, 12, 25, 23, 45));
    assert_eq!(t.date_string(), "25 Dec 2024");
    assert_eq!(t.time_string(), "23:45");
    t.set_no_date();
    assert_eq!(t.date_string(), "");
    assert_eq!(t.time_string(), "");
}

#[test]
fn text_to_edit_each_property() {
    let mut t = Task::new("Buy milk", Priority::High);
    t.set_notes("two\nlines");
    t.set_date(&due(2025, 1, 2, 9, 30));
    assert_eq!(t.text_to_edit(EditableTaskProperty::Title), "Buy milk");
    assert_eq!(t.text_to_edit(EditableTaskProperty::Notes), "two\nlines");
    assert_eq!(t.text_to_edit(EditableTaskProperty::Priority), "High");
    assert_eq!(t.text_to_edit(EditableTaskProperty::DueDate), " 2 Jan 2025 09:30");
    assert_eq!(t.text_to_edit(EditableTaskProperty::Label), "");
}

#[test]
fn text_to_edit_unset_date_is_one_space() {
    let t = Task::default();
    assert_eq!(t.text_to_edit(EditableTaskProperty::DueDate), " ");
}

#[test]
fn priority_names() {
    assert_eq!(Priority::Unset.name_string(), "None");
    assert_eq!(Priority::Low.name_string(), "Low");
    assert_eq!(Priority::Medium.name_string(), "Medium");
    assert_eq!(Priority::High.name_string(), "High");
    assert_eq!(Priority::from_name("Medium"), Some(Priority::Medium));
    assert_eq!(Priority::from_name("medium"), None);
}

#[test]
fn decode_priority_silent_ignore() {
    // A valid name sets the priority; an unknown one keeps the old value.
    let mut t = Task::default();
    assert!(matches!(t.priority(), Priority::Unset));
    t.set_property_from_str(EditableTaskProperty::Priority, "High");
    assert!(matches!(t.priority(), Priority::High));
    t.set_property_from_str(EditableTaskProperty::Priority, "Urgent");
    assert!(matches!(t.priority(), Priority::High));
}

#[test]
fn decode_priority_from_unset() {
    let mut t = Task::default();
    t.set_property_from_str(EditableTaskProperty::Priority, "Urgent");
    assert!(matches!(t.priority(), Priority::Unset));
    t.set_property_from_str(EditableTaskProperty::Priority, "High");
    assert!(matches!(t.priority(), Priority::High));
}

#[test]
fn decode_title_and_notes_verbatim() {
    let mut t = Task::new("old", Priority::Low);
    t.set_property_from_str(EditableTaskProperty::Title, "new title");
    assert_eq!(t.title(), "new title");
    t.set_property_from_str(EditableTaskProperty::Title, "");
    assert_eq!(t.title(), "");
    t.set_property_from_str(EditableTaskProperty::Notes, "a\nb");
    assert_eq!(t.notes(), "a\nb");
}

#[test]
fn decode_due_date_full() {
    let mut t = Task::default();
    t.set_date_str("12 Mar 2024 08:30");
    assert_eq!(t.due_date(), Some(due(2024, 3, 12, 8, 30)));
}

#[test]
fn decode_due_date_clear_on_empty() {
    let mut t = Task::default();
    t.set_date(&due(2024, 3, 12, 8, 30));
    t.set_date_str("");
    assert_eq!(t.due_date(), None);
    t.set_date(&due(2024, 3, 12, 8, 30));
    t.set_date_str("   ");
    assert_eq!(t.due_date(), None);
}

#[test]
fn decode_due_date_wrong_token_count_unchanged() {
    let mut t = Task::default();
    t.set_date(&due(2024, 3, 12, 8, 30));
    t.set_date_str("12 Mar 2024");
    assert_eq!(t.due_date(), Some(due(2024, 3, 12, 8, 30)));
    t.set_date_str("12 Mar 2024 08:30 extra");
    assert_eq!(t.due_date(), Some(due(2024, 3, 12, 8, 30)));
}

#[test]
fn decode_due_date_bad_date_falls_back_to_old_date() {
    let mut t = Task::default();
    t.set_date(&due(2024, 3, 12, 8, 30));
    // The date tokens fail to parse; the time still applies.
    t.set_date_str("xx Zzz 2024 10:15");
    assert_eq!(t.due_date(), Some(due(2024, 3, 12, 10, 15)));
}

#[test]
fn decode_due_date_bad_time_falls_back_to_old_time() {
    let mut t = Task::default();
    t.set_date(&due(2024, 3, 12, 8, 30));
    t.set_date_str("25 Dec 2025 nope");
    assert_eq!(t.due_date(), Some(due(2025, 12, 25, 8, 30)));
    t.set_date_str("26 Dec 2025 9:xx");
    assert_eq!(t.due_date(), Some(due(2025, 12, 26, 8, 30)));
    // "9:61" parses as two integers but is no wall-clock time: the whole
    // field stays untouched rather than falling back.
    t.set_date_str("27 Dec 2025 9:61");
    assert_eq!(t.due_date(), Some(due(2025, 12, 26, 8, 30)));
}

#[test]
fn decode_due_date_invalid_calendar_day_leaves_unchanged() {
    // Tokens parse but name no real day: nothing is written.
    let mut t = Task::default();
    t.set_date(&due(2024, 3, 12, 8, 30));
    t.set_date_str("31 Feb 2024 10:00");
    assert_eq!(t.due_date(), Some(due(2024, 3, 12, 8, 30)));
}

#[test]
fn decode_due_date_no_prior_value_needs_full_parse() {
    // With no prior date there is nothing to fall back to.
    let mut t = Task::default();
    t.set_date_str("xx Mar 2024 08:30");
    assert_eq!(t.due_date(), None);
    t.set_date_str("12 Mar 2024 xx:30");
    assert_eq!(t.due_date(), None);
    t.set_date_str("12 Mar 2024 08:30");
    assert_eq!(t.due_date(), Some(due(2024, 3, 12, 8, 30)));
}

#[test]
fn due_date_round_trip_through_buffer() {
    let mut t = Task::default();
    t.set_date(&due(2031, 7, 4, 0, 5));
    let buf = t.text_to_edit(EditableTaskProperty::DueDate);
    let mut u = Task::default();
    u.set_date_str(&buf);
    assert_eq!(u.due_date(), Some(due(2031, 7, 4, 0, 5)));
}

#[test]
fn due_date_ordering() {
    let a = due(2024, 3, 12, 8, 30);
    let b = due(2024, 3, 12, 9, 0);
    let c = due(2025, 1, 1, 0, 0);
    assert!(a.le(&b));
    assert!(!b.le(&a));
    assert!(b.le(&c));
    assert!(a.le(&a));
}
