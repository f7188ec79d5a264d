use venom::text_editor::TextEditor;

#[test]
fn editor_splits_rows_on_newlines() {
    let e = TextEditor::new("ab\nc\n\nd");
    let rows: Vec<String> = e.lines().iter().map(|r| r.iter().collect()).collect();
    assert_eq!(rows, vec!["ab".to_string(), "c".to_string(), "".to_string(), "d".to_string()]);
    assert_eq!(e.cursor_loc, (0, 0));
}

#[test]
fn editor_empty_text_is_one_empty_row() {
    let e = TextEditor::new("");
    assert_eq!(e.lines().len(), 1);
    assert!(e.lines()[0].is_empty());
}

#[test]
fn editor_cursor_moves_and_stops_at_edges() {
    let mut e = TextEditor::new("abc\nde");
    e.move_left();
    assert_eq!(e.cursor_loc, (0, 0));
    e.move_right();
    e.move_right();
    assert_eq!(e.cursor_loc, (2, 0));
    e.move_right();
    // The cursor stops at the last character of the row.
    assert_eq!(e.cursor_loc, (2, 0));
    e.move_down();
    // Moving into a shorter row clamps the column.
    assert_eq!(e.cursor_loc, (2, 1));
    e.move_down();
    assert_eq!(e.cursor_loc.1, 1);
    e.move_up();
    assert_eq!(e.cursor_loc.1, 0);
    e.move_up();
    assert_eq!(e.cursor_loc.1, 0);
}
