use zim::editor::{Buffer, Cursor};

#[test]
fn test_delete_line_with_undo() {
    let mut buffer = Buffer::new();
    buffer.lines = vec![
        "First line".to_string(),
        "Second line".to_string(),
        "Third line".to_string(),
    ];
    let mut cursor = Cursor { x: 0, y: 0 };
    buffer.delete_line(1);
    assert_eq!(buffer.lines.len(), 2);
    assert_eq!(buffer.lines[0], "First line");
    assert_eq!(buffer.lines[1], "Third line");
    assert!(buffer.history.can_undo());
    let undo_successful = buffer.undo(&mut cursor);
    assert!(undo_successful);
    assert_eq!(buffer.lines.len(), 3);
    assert_eq!(buffer.lines[0], "First line");
    assert_eq!(buffer.lines[1], "Second line");
    assert_eq!(buffer.lines[2], "Third line");
}

#[test]
fn test_open_line_below() {
    let mut buffer = Buffer::new();
    buffer.lines = vec!["First line".to_string(), "Second line".to_string()];
    let new_line_idx = buffer.open_line_below(0);
    assert_eq!(new_line_idx, 1);
    assert_eq!(buffer.lines.len(), 3);
    assert_eq!(buffer.lines[0], "First line");
    assert_eq!(buffer.lines[1], "");
    assert_eq!(buffer.lines[2], "Second line");
    assert!(buffer.is_line_modified(1));
    let mut cursor = Cursor { x: 0, y: 0 };
    assert!(buffer.undo(&mut cursor));
    assert_eq!(buffer.lines.len(), 2);
    assert_eq!(buffer.lines[0], "First line");
    assert_eq!(buffer.lines[1], "Second line");
    assert!(buffer.redo(&mut cursor));
    assert_eq!(buffer.lines.len(), 3);
    assert_eq!(buffer.lines[0], "First line");
    assert_eq!(buffer.lines[1], "");
    assert_eq!(buffer.lines[2], "Second line");
}

#[test]
fn test_open_line_above() {
    let mut buffer = Buffer::new();
    buffer.lines = vec!["First line".to_string(), "Second line".to_string()];
    let new_line_idx = buffer.open_line_above(1);
    assert_eq!(new_line_idx, 1);
    assert_eq!(buffer.lines.len(), 3);
    assert_eq!(buffer.lines[0], "First line");
    assert_eq!(buffer.lines[1], "");
    assert_eq!(buffer.lines[2], "Second line");
    assert!(buffer.is_line_modified(1));
    let mut cursor = Cursor { x: 0, y: 0 };
    assert!(buffer.undo(&mut cursor));
    assert_eq!(buffer.lines.len(), 2);
    assert_eq!(buffer.lines[0], "First line");
    assert_eq!(buffer.lines[1], "Second line");
    assert!(buffer.redo(&mut cursor));
    assert_eq!(buffer.lines.len(), 3);
    assert_eq!(buffer.lines[0], "First line");
    assert_eq!(buffer.lines[1], "");
    assert_eq!(buffer.lines[2], "Second line");
}

#[test]
fn test_modified_line_tracking() {
    let mut buffer = Buffer::new();
    let mut cursor = Cursor::new();
    assert_eq!(buffer.get_modified_lines().len(), 0);
    buffer.insert_char_at_cursor('a', &cursor);
    buffer.insert_char_at_cursor('b', &cursor);
    cursor.x = 2;
    buffer.insert_char_at_cursor('c', &cursor);
    assert_eq!(buffer.get_modified_lines().len(), 1);
    assert!(buffer.is_line_modified(0));
    cursor.x = 3;
    buffer.insert_newline_at_cursor(&cursor);
    assert_eq!(buffer.get_modified_lines().len(), 2);
    assert!(buffer.is_line_modified(0));
    assert!(buffer.is_line_modified(1));
    cursor.y = 1;
    cursor.x = 0;
    buffer.insert_char_at_cursor('x', &cursor);
    buffer.delete_char_at_cursor(&cursor);
    assert_eq!(buffer.get_modified_lines().len(), 2);
}

#[test]
fn insert_char_pads_with_spaces_and_undo_removes_only_the_char() {
    let mut buffer = Buffer::new();
    buffer.lines = vec!["ab".to_string()];
    let mut cursor = Cursor { x: 4, y: 0 };
    buffer.insert_char_at_cursor('z', &cursor);
    assert_eq!(buffer.lines[0], "ab  z");
    assert!(buffer.undo(&mut cursor));
    assert_eq!(buffer.lines[0], "ab  ");
    assert_eq!(cursor.x, 4);
}

#[test]
fn insert_char_past_last_line_adds_lines() {
    let mut buffer = Buffer::new();
    let cursor = Cursor { x: 0, y: 2 };
    buffer.insert_char_at_cursor('q', &cursor);
    assert_eq!(buffer.lines, vec!["".to_string(), "".to_string(), "q".to_string()]);
    assert!(buffer.is_line_modified(1));
    assert!(buffer.is_line_modified(2));
}

#[test]
fn content_round_trip_and_set_content_undo() {
    let mut buffer = Buffer::new();
    buffer.set_content("one\ntwo\n\nthree").unwrap();
    assert_eq!(buffer.lines.len(), 4);
    assert_eq!(buffer.get_content(), "one\ntwo\n\nthree");
    assert_eq!(buffer.get_modified_lines().len(), 4);
    let mut cursor = Cursor::new();
    assert!(buffer.undo(&mut cursor));
    assert_eq!(buffer.get_content(), "");
    assert!(buffer.redo(&mut cursor));
    assert_eq!(buffer.get_content(), "one\ntwo\n\nthree");
}

#[test]
fn load_content_splits_lines_like_a_file() {
    let mut buffer = Buffer::new();
    buffer.load_content("a.txt", "x\r\ny\n");
    assert_eq!(buffer.lines, vec!["x".to_string(), "y".to_string(), "".to_string()]);
    assert_eq!(buffer.file_path.as_deref(), Some("a.txt"));
    assert!(!buffer.is_modified);
    buffer.load_content("b.txt", "");
    assert_eq!(buffer.lines, vec!["".to_string()]);
}

#[test]
fn join_line_and_undo_redo() {
    let mut buffer = Buffer::new();
    buffer.lines = vec!["ab".to_string(), "cd".to_string(), "ef".to_string()];
    buffer.join_line(0);
    assert_eq!(buffer.lines, vec!["abcd".to_string(), "ef".to_string()]);
    let mut cursor = Cursor::new();
    assert!(buffer.undo(&mut cursor));
    assert_eq!(buffer.lines, vec!["ab".to_string(), "cd".to_string(), "ef".to_string()]);
    assert_eq!((cursor.x, cursor.y), (2, 0));
    assert!(buffer.redo(&mut cursor));
    assert_eq!(buffer.lines, vec!["abcd".to_string(), "ef".to_string()]);
}

#[test]
fn newline_split_and_undo() {
    let mut buffer = Buffer::new();
    buffer.lines = vec!["hello world".to_string()];
    let mut cursor = Cursor { x: 5, y: 0 };
    buffer.insert_newline_at_cursor(&cursor);
    assert_eq!(buffer.lines, vec!["hello".to_string(), " world".to_string()]);
    assert!(buffer.undo(&mut cursor));
    assert_eq!(buffer.lines, vec!["hello world".to_string()]);
    assert!(buffer.redo(&mut cursor));
    assert_eq!((cursor.x, cursor.y), (0, 1));
}

#[test]
fn delete_word_runs() {
    let mut buffer = Buffer::new();
    buffer.lines = vec!["foo_bar  ++baz".to_string()];
    let mut cursor = Cursor { x: 0, y: 0 };
    assert!(buffer.delete_word_at_cursor(&mut cursor));
    assert_eq!(buffer.lines[0], "  ++baz");
    assert!(buffer.delete_word_at_cursor(&mut cursor));
    assert_eq!(buffer.lines[0], "++baz");
    assert!(buffer.delete_word_at_cursor(&mut cursor));
    assert_eq!(buffer.lines[0], "baz");
    cursor.x = 3;
    assert!(!buffer.delete_word_at_cursor(&mut cursor));
    cursor.x = 0;
    assert!(buffer.undo(&mut cursor));
    assert_eq!(buffer.lines[0], "++baz");
    assert!(buffer.redo(&mut cursor));
    assert_eq!(buffer.lines[0], "baz");
}

#[test]
fn delete_to_line_ends_and_undo() {
    let mut buffer = Buffer::new();
    buffer.lines = vec!["abcdef".to_string()];
    let mut cursor = Cursor { x: 2, y: 0 };
    assert!(buffer.delete_to_end_of_line(&cursor));
    assert_eq!(buffer.lines[0], "ab");
    assert!(buffer.undo(&mut cursor));
    assert_eq!(buffer.lines[0], "abcdef");
    cursor.x = 4;
    assert!(buffer.delete_to_beginning_of_line(&cursor));
    assert_eq!(buffer.lines[0], "ef");
    assert!(buffer.undo(&mut cursor));
    assert_eq!(buffer.lines[0], "abcdef");
    cursor.x = 0;
    assert!(!buffer.delete_to_beginning_of_line(&cursor));
    cursor.x = 6;
    assert!(!buffer.delete_to_end_of_line(&cursor));
}

#[test]
fn selection_text_and_deletion() {
    let mut buffer = Buffer::new();
    buffer.lines = vec!["alpha".to_string(), "beta".to_string(), "gamma".to_string()];
    buffer.start_selection((0, 2));
    let mut cursor = Cursor { x: 2, y: 2 };
    assert!(buffer.is_position_selected(1, 0, &cursor, false));
    assert!(!buffer.is_position_selected(2, 2, &cursor, false));
    assert_eq!(buffer.get_selected_text(&cursor, false), "pha\nbeta\nga");
    assert_eq!(buffer.get_selected_text(&cursor, true), "alpha\nbeta\ngamma\n");
    assert!(buffer.delete_selection(&mut cursor, false));
    assert_eq!(buffer.lines, vec!["almma".to_string()]);
    assert_eq!((cursor.x, cursor.y), (2, 0));
    assert_eq!(buffer.selection_start, None);
}

#[test]
fn visual_line_deletion_keeps_one_line() {
    let mut buffer = Buffer::new();
    buffer.lines = vec!["one".to_string(), "two".to_string()];
    buffer.start_selection((0, 0));
    let mut cursor = Cursor { x: 0, y: 1 };
    assert!(buffer.delete_selection(&mut cursor, true));
    assert_eq!(buffer.lines, vec!["".to_string()]);
    assert_eq!((cursor.x, cursor.y), (0, 0));
}

#[test]
fn single_line_selection_delete() {
    let mut buffer = Buffer::new();
    buffer.lines = vec!["abcdef".to_string(), "x".to_string()];
    buffer.start_selection((0, 4));
    let mut cursor = Cursor { x: 1, y: 0 };
    assert_eq!(buffer.get_selected_text(&cursor, false), "bcd");
    assert!(buffer.delete_selection(&mut cursor, false));
    assert_eq!(buffer.lines[0], "aef");
    assert_eq!(cursor.x, 1);
    assert!(buffer.is_line_modified(0));
}

#[test]
fn save_target_and_finish_save() {
    let mut buffer = Buffer::new();
    assert!(buffer.save_target(None).is_err());
    assert_eq!(buffer.save_target(Some("out.txt")).unwrap(), "out.txt");
    let cursor = Cursor::new();
    buffer.insert_char_at_cursor('a', &cursor);
    buffer.finish_save(Some("out.txt"), "out.txt");
    assert_eq!(buffer.file_path.as_deref(), Some("out.txt"));
    assert!(!buffer.is_modified);
    assert_eq!(buffer.save_target(None).unwrap(), "out.txt");
}

#[test]
fn undoing_a_selection_deletion_restores_the_text() {
    let mut b = Buffer::new();
    b.lines = vec!["Hello world".to_string()];
    b.start_selection((0, 0));
    let mut cursor = Cursor { x: 5, y: 0 };
    assert!(b.delete_selection(&mut cursor, false));
    assert_eq!(b.lines, vec![" world".to_string()]);
    assert!(b.undo(&mut cursor));
    assert_eq!(b.lines, vec!["Hello world".to_string()]);
    assert_eq!((cursor.x, cursor.y), (5, 0));
    assert!(b.redo(&mut cursor));
    assert_eq!(b.lines, vec![" world".to_string()]);
}

#[test]
fn undoing_a_selection_deletion_in_the_middle_of_a_line() {
    let mut b = Buffer::new();
    b.lines = vec!["abc".to_string(), "Hello world".to_string()];
    b.start_selection((1, 8));
    let mut cursor = Cursor { x: 3, y: 1 };
    assert!(b.delete_selection(&mut cursor, false));
    assert_eq!(b.lines[1], "Helrld");
    assert!(b.undo(&mut cursor));
    assert_eq!(b.lines, vec!["abc".to_string(), "Hello world".to_string()]);
}
