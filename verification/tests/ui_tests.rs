use zim::config::Config;
use zim::editor::{Diagnostic, DiagnosticSeverity, Editor, HighlightedLine, Mode, TextSpan, TextStyle};
use zim::ui::panes::{finder_view, help_page, mode_text_of, prompt_cursor_column, prompt_view, status_line, tab_bar};
use zim::ui::text_area::{line_number_label, selection_area, text_area, visible_text};
use zim::ui::{screen_for, Colour, Look, Piece, Screen, ViewportUpdate};

fn texts(row: &[Piece]) -> Vec<(String, Look)> {
    row.iter().map(|p| (p.text.clone(), p.look)).collect()
}

fn plain() -> Look {
    Look::plain()
}

fn editor_with(content: &str) -> Editor {
    let mut editor = Editor::new_with_config(Config::default());
    editor.current_tab_mut().buffer.load_content("src/main.rs", content);
    editor
}

#[test]
fn line_numbers_are_right_aligned() {
    assert_eq!(line_number_label(7, 3), "  7 ");
    assert_eq!(line_number_label(1234, 2), "1234 ");
    assert_eq!(visible_text("abcdef", 2), "cdef");
    assert_eq!(visible_text("ab", 5), "");
}

#[test]
fn plain_rows_show_number_and_text() {
    let editor = editor_with("fn main() {\n    x\n}");
    let area = text_area(&editor, 40, 10, &Vec::new(), false, false);
    assert_eq!(area.rows.len(), 3);
    assert_eq!(texts(&area.rows[0]), vec![("1 ".to_string(), Look::fg(Colour::DarkGray)), ("fn main() {".to_string(), plain())]);
    assert_eq!(texts(&area.rows[2]), vec![("3 ".to_string(), Look::fg(Colour::DarkGray)), ("}".to_string(), plain())]);
    assert_eq!(area.update, ViewportUpdate { width: 35, height: 10 });
    assert_eq!(area.gutter, 2);
    assert_eq!((area.cursor_column, area.cursor_row), (0, 0));
}

#[test]
fn the_view_shows_only_the_visible_lines_from_the_left_column() {
    let mut editor = editor_with("abc\ndefgh\nij\nk");
    editor.current_tab_mut().viewport.top_line = 1;
    editor.current_tab_mut().viewport.left_column = 2;
    editor.current_tab_mut().cursor.y = 2;
    editor.current_tab_mut().cursor.x = 1;
    let area = text_area(&editor, 3, 2, &Vec::new(), false, false);
    assert_eq!(area.rows.len(), 2);
    assert_eq!(texts(&area.rows[0])[1].0, "fgh");
    assert_eq!(texts(&area.rows[1])[1].0, "");
    assert_eq!(area.update, ViewportUpdate { width: 0, height: 2 });
    assert_eq!((area.cursor_column, area.cursor_row), (0, 1));
}

#[test]
fn write_confirmation_marks_modified_lines_green() {
    let mut editor = editor_with("a\nb");
    editor.current_tab_mut().buffer.mark_line_modified(1);
    editor.mode = Mode::WriteConfirm;
    assert_eq!(screen_for(editor.mode), Screen::Text { highlight_changes: true, against_disk: false });
    let area = text_area(&editor, 40, 10, &Vec::new(), true, false);
    assert_eq!(texts(&area.rows[0]), vec![("1 ".to_string(), Look::fg(Colour::DarkGray)), ("a".to_string(), plain())]);
    assert_eq!(texts(&area.rows[1]), vec![("2 ".to_string(), Look::bold(Colour::Green)), ("b".to_string(), Look::fg(Colour::Green))]);
}

#[test]
fn reload_confirmation_marks_lines_that_differ_yellow() {
    let mut editor = editor_with("a\nb");
    editor.diff_lines.insert(0);
    let area = text_area(&editor, 40, 10, &Vec::new(), true, true);
    assert_eq!(texts(&area.rows[0]), vec![("1 ".to_string(), Look::bold(Colour::Yellow)), ("a".to_string(), Look::fg(Colour::Yellow))]);
    assert_eq!(texts(&area.rows[1])[0].1, Look::fg(Colour::DarkGray));
}

#[test]
fn diagnostics_are_marked_in_order_of_their_columns() {
    let mut editor = editor_with("let x = 1;");
    let tab = editor.current_tab_mut();
    tab.diagnostics.add_diagnostic(Diagnostic::new("w", DiagnosticSeverity::Warning, TextSpan::new(0, 8, 9)));
    tab.diagnostics.add_diagnostic(Diagnostic::new("e", DiagnosticSeverity::Error, TextSpan::new(0, 4, 5)));
    let area = text_area(&editor, 40, 10, &Vec::new(), true, false);
    assert_eq!(
        texts(&area.rows[0]),
        vec![
            ("1 ".to_string(), Look::fg(Colour::DarkGray)),
            ("let ".to_string(), plain()),
            ("x".to_string(), Look::bold(Colour::Red)),
            (" = ".to_string(), plain()),
            ("1".to_string(), Look::fg(Colour::Yellow)),
            (";".to_string(), plain()),
        ]
    );
    // Without highlighted changes, diagnostics are not drawn.
    let area = text_area(&editor, 40, 10, &Vec::new(), false, false);
    assert_eq!(texts(&area.rows[0]), vec![("1 ".to_string(), Look::fg(Colour::DarkGray)), ("let x = 1;".to_string(), plain())]);
}

#[test]
fn syntax_pieces_take_their_colours() {
    let mut editor = editor_with("fn main");
    editor.current_tab_mut().buffer.syntax = Some("Rust".to_string());
    let keyword = TextStyle { red: 200, green: 10, blue: 20, bold: true, italic: false, underline: false };
    let black = TextStyle { red: 0, green: 0, blue: 0, bold: false, italic: false, underline: false };
    let h = vec![vec![HighlightedLine { ranges: vec![(keyword, "fn".to_string()), (black, "".to_string()), (black, " main\n".to_string())] }]];
    let area = text_area(&editor, 40, 10, &h, false, false);
    assert_eq!(
        texts(&area.rows[0]),
        vec![
            ("1 ".to_string(), Look::fg(Colour::DarkGray)),
            ("fn".to_string(), Look { fg: Some(Colour::Rgb(200, 10, 20)), bg: None, bold: true, italic: false, underline: false }),
            (" main\n".to_string(), Look::fg(Colour::Reset)),
        ]
    );
}

#[test]
fn selection_is_drawn_over_the_text() {
    let mut editor = editor_with("abcdef\nxyz");
    editor.mode = Mode::Visual;
    editor.current_tab_mut().buffer.start_selection((0, 1));
    editor.current_tab_mut().cursor.x = 3;
    assert_eq!(screen_for(editor.mode), Screen::Selection);
    let area = selection_area(&editor, 40, 10, &Vec::new());
    let selected = Look { fg: Some(Colour::Black), bg: Some(Colour::LightBlue), bold: true, italic: false, underline: false };
    assert_eq!(
        texts(&area.rows[0]),
        vec![
            ("1 ".to_string(), Look::fg(Colour::DarkGray)),
            ("a".to_string(), plain()),
            ("bc".to_string(), selected),
            ("def".to_string(), plain()),
        ]
    );
    assert_eq!(texts(&area.rows[1]), vec![("2 ".to_string(), Look::fg(Colour::DarkGray)), ("xyz".to_string(), plain())]);
}

#[test]
fn visual_line_selects_whole_lines() {
    let mut editor = editor_with("abc\nxyz\nend");
    editor.mode = Mode::VisualLine;
    editor.current_tab_mut().buffer.start_selection((0, 2));
    editor.current_tab_mut().cursor.y = 1;
    let area = selection_area(&editor, 40, 10, &Vec::new());
    let selected = Look { fg: Some(Colour::Black), bg: Some(Colour::LightBlue), bold: true, italic: false, underline: false };
    assert_eq!(texts(&area.rows[0])[1], ("abc".to_string(), selected));
    assert_eq!(texts(&area.rows[1])[1], ("xyz".to_string(), selected));
    assert_eq!(texts(&area.rows[2])[1], ("end".to_string(), plain()));
}

#[test]
fn selected_diagnostics_keep_their_font_style() {
    let mut editor = editor_with("hint");
    editor.mode = Mode::Visual;
    editor.current_tab_mut().diagnostics.add_diagnostic(Diagnostic::new("h", DiagnosticSeverity::Hint, TextSpan::new(0, 0, 2)));
    editor.current_tab_mut().buffer.start_selection((0, 1));
    editor.current_tab_mut().cursor.x = 3;
    let area = selection_area(&editor, 40, 10, &Vec::new());
    let over = Look { fg: Some(Colour::Black), bg: Some(Colour::LightBlue), bold: true, italic: true, underline: false };
    assert_eq!(
        texts(&area.rows[0]),
        vec![
            ("1 ".to_string(), Look::fg(Colour::DarkGray)),
            ("h".to_string(), Look::italic(Colour::Green)),
            ("i".to_string(), over),
            ("n".to_string(), Look { fg: Some(Colour::Black), bg: Some(Colour::LightBlue), bold: true, italic: false, underline: false }),
            ("t".to_string(), plain()),
        ]
    );
}

#[test]
fn tab_bar_lists_tabs_with_their_keys() {
    let mut editor = Editor::new_with_config(Config::default());
    editor.add_tab();
    editor.tabs[1].buffer.file_path = Some("/home/me/src/lib.rs".to_string());
    let bar = texts(&tab_bar(&editor));
    assert_eq!(bar.len(), 5);
    assert_eq!(bar[0], (" [2] ".to_string(), Look::bold(Colour::Red)));
    assert_eq!(bar[1], (" F1 untitled-1 ".to_string(), plain()));
    assert_eq!(bar[2], (" | ".to_string(), plain()));
    assert_eq!(bar[3], (" F2 lib.rs ".to_string(), Look::bold(Colour::Yellow)));
    assert_eq!(bar[4].1, Look::fg(Colour::DarkGray));
}

#[test]
fn status_line_shows_mode_file_and_position() {
    let mut editor = editor_with("a\nb\nc\nd");
    editor.mode = Mode::Normal;
    editor.current_tab_mut().cursor.y = 2;
    editor.current_tab_mut().cursor.x = 1;
    editor.current_tab_mut().viewport.top_line = 1;
    assert_eq!(status_line(&editor), "NORMAL | main.rs | Tab 1/1 | Ln: 3/4 (25%), Col: 2");
    editor.current_tab_mut().diagnostics.add_diagnostic(Diagnostic::new("e", DiagnosticSeverity::Error, TextSpan::new(0, 0, 1)));
    assert_eq!(status_line(&editor), "NORMAL | main.rs | Tab 1/1 | Ln: 3/4 (25%), Col: 2 | ❌ 1 ⚠️ 0");
    editor.mode = Mode::Command;
    editor.command_text = "wq".to_string();
    assert!(status_line(&editor).starts_with(":wq | main.rs"));
}

#[test]
fn status_line_in_confirmations() {
    let mut editor = editor_with("a\nb");
    editor.current_tab_mut().buffer.mark_line_modified(0);
    editor.mode = Mode::WriteConfirm;
    assert_eq!(
        status_line(&editor),
        "WRITE? (y/n/q) | Save file: src/main.rs | 1 modified lines | Press Y to confirm, N to cancel, Q to quit without saving"
    );
    editor.mode = Mode::ReloadConfirm;
    editor.diff_lines.insert(0);
    editor.diff_lines.insert(1);
    assert_eq!(status_line(&editor), "RELOAD? (y/n) | Reload file: src/main.rs | 2 changed lines | Press Y to confirm, N to cancel");
    editor.mode = Mode::FileFinder;
    assert_eq!(status_line(&editor), "FILE FINDER | Press Enter to select, Esc to cancel");
    assert_eq!(mode_text_of(Mode::FilenamePrompt, "", "out.txt"), "FILENAME: out.txt");
}

#[test]
fn file_finder_lists_names_with_paths() {
    let mut editor = Editor::new_with_config(Config::default());
    let view = finder_view(&editor.file_finder);
    assert_eq!(view.list_title, " Recent Files ");
    assert_eq!(view.welcome.len(), 3);
    assert_eq!(texts(&view.items), vec![("No recent files. Type to search or press Esc to open a blank file.".to_string(), plain())]);
    editor.file_finder.refresh_with(vec!["src/main.rs".to_string(), "README.md".to_string()]);
    let view = finder_view(&editor.file_finder);
    assert_eq!(
        texts(&view.items),
        vec![
            ("README.md (README.md)".to_string(), Look::bold(Colour::Yellow)),
            ("main.rs (src/main.rs)".to_string(), plain()),
        ]
    );
    editor.file_finder.add_char('z');
    editor.file_finder.add_char('q');
    editor.file_finder.update_matches();
    let view = finder_view(&editor.file_finder);
    assert_eq!(view.list_title, " Search Results ");
    assert!(view.welcome.is_empty());
    assert_eq!(view.cursor_column, 2);
    assert_eq!(texts(&view.items), vec![("No matching files found. Press Esc to cancel.".to_string(), plain())]);
}

#[test]
fn filename_prompt_rows_and_cursor() {
    let mut editor = Editor::new_with_config(Config::default());
    editor.filename_prompt_text = "out.txt".to_string();
    let rows = prompt_view(&editor);
    assert_eq!(rows.len(), 6);
    assert_eq!(texts(&rows[3]), vec![("> out.txt".to_string(), Look::fg(Colour::Green))]);
    editor.save_and_quit = true;
    let rows = prompt_view(&editor);
    assert_eq!(rows.len(), 8);
    assert_eq!(texts(&rows[7]), vec![("Editor will exit after saving".to_string(), Look::fg(Colour::Yellow))]);
    assert_eq!(prompt_cursor_column(40, 7), 24);
}

#[test]
fn help_page_lists_the_keys() {
    let rows = help_page();
    assert_eq!(rows.len(), 57);
    assert_eq!(texts(&rows[1])[0].0, "║       ZIM EDITOR HELP GUIDE          ║");
    assert!(rows.iter().any(|r| r.iter().any(|p| p.text == "Ctrl+p - Find file")));
    assert_eq!(texts(&rows[56]), vec![("   Zim: A modern, fast text editor      ".to_string(), Look::italic(Colour::Yellow))]);
}

#[test]
fn screens_follow_the_mode() {
    assert_eq!(screen_for(Mode::Help), Screen::Help);
    assert_eq!(screen_for(Mode::FileFinder), Screen::FileFinder);
    assert_eq!(screen_for(Mode::FilenamePrompt), Screen::FilenamePrompt);
    assert_eq!(screen_for(Mode::ReloadConfirm), Screen::Text { highlight_changes: true, against_disk: true });
    assert_eq!(screen_for(Mode::Insert), Screen::Text { highlight_changes: false, against_disk: false });
}
