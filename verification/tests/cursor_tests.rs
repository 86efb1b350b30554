use zim::editor::{Buffer, Cursor};

fn create_test_buffer() -> Buffer {
    let mut buffer = Buffer::new();
    buffer.lines = vec![
        "First line".to_string(),
        "Second, longer line".to_string(),
        "Third line".to_string(),
        "Fourth".to_string(),
    ];
    buffer
}

#[test]
fn test_cursor_new() {
    let cursor = Cursor::new();
    assert_eq!(cursor.x, 0);
    assert_eq!(cursor.y, 0);
}

#[test]
fn test_move_left() {
    let buffer = create_test_buffer();
    let mut cursor = Cursor::new();
    cursor.x = 5;
    cursor.move_left(&buffer);
    assert_eq!(cursor.x, 4);
    cursor.x = 0;
    cursor.move_left(&buffer);
    assert_eq!(cursor.x, 0);
}

#[test]
fn test_move_right() {
    let buffer = create_test_buffer();
    let mut cursor = Cursor::new();
    cursor.move_right(&buffer);
    assert_eq!(cursor.x, 1);
    cursor.x = 10;
    cursor.move_right(&buffer);
    assert_eq!(cursor.x, 10);
}

#[test]
fn test_move_up() {
    let buffer = create_test_buffer();
    let mut cursor = Cursor::new();
    cursor.y = 2;
    cursor.x = 5;
    cursor.move_up(&buffer);
    assert_eq!(cursor.y, 1);
    assert_eq!(cursor.x, 5);
    cursor.y = 0;
    cursor.move_up(&buffer);
    assert_eq!(cursor.y, 0);
    cursor.y = 2;
    cursor.x = 15;
    cursor.move_up(&buffer);
    assert_eq!(cursor.y, 1);
    assert_eq!(cursor.x, 15);
    cursor.move_up(&buffer);
    assert_eq!(cursor.y, 0);
    assert_eq!(cursor.x, 10);
}

#[test]
fn test_move_down() {
    let buffer = create_test_buffer();
    let mut cursor = Cursor::new();
    cursor.move_down(&buffer);
    assert_eq!(cursor.y, 1);
    cursor.y = 3;
    cursor.move_down(&buffer);
    assert_eq!(cursor.y, 3);
    cursor.y = 1;
    cursor.x = 15;
    cursor.move_down(&buffer);
    assert_eq!(cursor.y, 2);
    assert_eq!(cursor.x, 10);
}

#[test]
fn test_move_to_line_start() {
    let buffer = create_test_buffer();
    let mut cursor = Cursor::new();
    cursor.x = 5;
    cursor.move_to_line_start(&buffer);
    assert_eq!(cursor.x, 0);
}

#[test]
fn test_move_to_line_end() {
    let buffer = create_test_buffer();
    let mut cursor = Cursor::new();
    cursor.move_to_line_end(&buffer);
    assert_eq!(cursor.x, 10);
    cursor.y = 1;
    cursor.move_to_line_end(&buffer);
    assert_eq!(cursor.x, 19);
}

#[test]
fn test_move_to_file_start() {
    let buffer = create_test_buffer();
    let mut cursor = Cursor::new();
    cursor.x = 5;
    cursor.y = 2;
    cursor.move_to_file_start(&buffer);
    assert_eq!(cursor.x, 0);
    assert_eq!(cursor.y, 0);
}

#[test]
fn test_move_to_file_end() {
    let buffer = create_test_buffer();
    let mut cursor = Cursor::new();
    cursor.move_to_file_end(&buffer);
    assert_eq!(cursor.y, 3);
    assert_eq!(cursor.x, 6);
}

#[test]
fn cursor_columns_count_characters() {
    let mut buffer = Buffer::new();
    buffer.lines = vec!["héllo".to_string()];
    let mut cursor = Cursor::new();
    cursor.move_to_line_end(&buffer);
    assert_eq!(cursor.x, 5);
}
