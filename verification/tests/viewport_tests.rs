use zim::editor::Viewport;

#[test]
fn test_viewport_new() {
    let viewport = Viewport::new();
    assert_eq!(viewport.top_line, 0);
    assert_eq!(viewport.height, 0);
    assert_eq!(viewport.left_column, 0);
    assert_eq!(viewport.width, 0);
}

#[test]
fn test_update_dimensions() {
    let mut viewport = Viewport::new();
    viewport.update_dimensions(80, 24);
    assert_eq!(viewport.width, 80);
    assert_eq!(viewport.height, 24);
    assert_eq!(viewport.top_line, 0);
    assert_eq!(viewport.left_column, 0);
}

#[test]
fn test_ensure_cursor_visible_initial() {
    let mut viewport = Viewport::new();
    viewport.update_dimensions(80, 24);
    viewport.ensure_cursor_visible(10, 10);
    assert_eq!(viewport.top_line, 0);
    assert_eq!(viewport.left_column, 0);
}

#[test]
fn test_ensure_cursor_visible_below() {
    let mut viewport = Viewport::new();
    viewport.update_dimensions(10, 5);
    viewport.ensure_cursor_visible(10, 5);
    assert_eq!(viewport.top_line, 6);
    assert_eq!(viewport.left_column, 0);
}

#[test]
fn test_ensure_cursor_visible_right() {
    let mut viewport = Viewport::new();
    viewport.update_dimensions(10, 5);
    viewport.ensure_cursor_visible(2, 15);
    assert_eq!(viewport.top_line, 0);
    assert_eq!(viewport.left_column, 6);
}

#[test]
fn test_ensure_cursor_visible_above() {
    let mut viewport = Viewport::new();
    viewport.update_dimensions(10, 5);
    viewport.top_line = 10;
    viewport.ensure_cursor_visible(5, 5);
    assert_eq!(viewport.top_line, 5);
    assert_eq!(viewport.left_column, 0);
}

#[test]
fn test_ensure_cursor_visible_left() {
    let mut viewport = Viewport::new();
    viewport.update_dimensions(10, 5);
    viewport.left_column = 10;
    viewport.ensure_cursor_visible(2, 5);
    assert_eq!(viewport.top_line, 0);
    assert_eq!(viewport.left_column, 5);
}

#[test]
fn test_scroll_up() {
    let mut viewport = Viewport::new();
    viewport.top_line = 20;
    viewport.scroll_up(5);
    assert_eq!(viewport.top_line, 15);
    viewport.scroll_up(20);
    assert_eq!(viewport.top_line, 0);
}

#[test]
fn test_scroll_down() {
    let mut viewport = Viewport::new();
    viewport.update_dimensions(10, 5);
    viewport.scroll_down(5, 100);
    assert_eq!(viewport.top_line, 5);
    viewport.scroll_down(200, 100);
    assert_eq!(viewport.top_line, 96);
}

#[test]
fn test_get_visible_range() {
    let mut viewport = Viewport::new();
    viewport.update_dimensions(10, 5);
    viewport.top_line = 10;
    let (start, end) = viewport.get_visible_range(100);
    assert_eq!(start, 10);
    assert_eq!(end, 15);
    let (start, end) = viewport.get_visible_range(12);
    assert_eq!(start, 10);
    assert_eq!(end, 12);
}

#[test]
fn viewport_scroll_down_with_short_content_stays_at_top() {
    let mut viewport = Viewport::new();
    viewport.update_dimensions(10, 20);
    viewport.scroll_down(3, 15);
    assert_eq!(viewport.top_line, 0);
}
