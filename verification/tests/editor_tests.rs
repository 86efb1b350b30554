use zim::config::Config;
use zim::editor::{
    After, Buffer, Cursor, Editor, IoOutcome, IoRequest, Mode, SaveKind, Step, Then,
};
use zim::keys::{KeyCode, KeyEvent, KeyModifiers, MouseEventKind};

fn key(c: char) -> KeyEvent {
    KeyEvent::new(KeyCode::Char(c), KeyModifiers::none())
}

fn code(k: KeyCode) -> KeyEvent {
    KeyEvent::new(k, KeyModifiers::none())
}

#[test]
fn test_tab_navigation() {
    let config = Config::default();
    let mut editor = Editor::new_with_config(config);
    assert_eq!(editor.tabs.len(), 1);
    assert_eq!(editor.current_tab, 0);
    editor.add_tab();
    assert_eq!(editor.tabs.len(), 2);
    assert_eq!(editor.current_tab, 1);
    editor.add_tab();
    assert_eq!(editor.tabs.len(), 3);
    assert_eq!(editor.current_tab, 2);
    editor.next_tab();
    assert_eq!(editor.current_tab, 0);
    editor.prev_tab();
    assert_eq!(editor.current_tab, 2);
    editor.close_tab();
    assert_eq!(editor.tabs.len(), 2);
    assert_eq!(editor.current_tab, 1);
    editor.close_tab();
    assert_eq!(editor.tabs.len(), 1);
    assert_eq!(editor.current_tab, 0);
    editor.close_tab();
    assert_eq!(editor.tabs.len(), 1);
    assert_eq!(editor.current_tab, 0);
}

#[test]
fn test_direct_tab_access() {
    let config = Config::default();
    let mut editor = Editor::new_with_config(config);
    editor.add_tab();
    editor.add_tab();
    editor.add_tab();
    editor.add_tab();
    assert_eq!(editor.tabs.len(), 5);
    assert_eq!(editor.current_tab, 4);
    editor.tabs[0].buffer.file_path = Some("file1.rs".to_string());
    editor.tabs[1].buffer.file_path = Some("file2.rs".to_string());
    editor.tabs[2].buffer.file_path = Some("file3.rs".to_string());
    editor.tabs[3].buffer.file_path = Some("file4.rs".to_string());
    editor.tabs[4].buffer.file_path = Some("file5.rs".to_string());
    editor.go_to_tab(0);
    assert_eq!(editor.current_tab, 0);
    assert_eq!(editor.current_tab().buffer.file_path.as_ref().unwrap(), "file1.rs");
    editor.go_to_tab(2);
    assert_eq!(editor.current_tab, 2);
    assert_eq!(editor.current_tab().buffer.file_path.as_ref().unwrap(), "file3.rs");
    editor.go_to_tab(10);
    assert_eq!(editor.current_tab, 2);
    editor.go_to_tab(3);
    assert_eq!(editor.current_tab, 3);
    assert_eq!(editor.current_tab().buffer.file_path.as_ref().unwrap(), "file4.rs");
}

#[test]
fn test_tab_file_loading() {
    let config = Config::default();
    let mut editor = Editor::new_with_config(config);
    editor.add_tab();
    assert_eq!(editor.current_tab, 1);
    let _ = editor.tabs[0].buffer.set_content("File 1 content");
    let _ = editor.tabs[1].buffer.set_content("File 2 content");
    editor.prev_tab();
    assert_eq!(editor.current_tab, 0);
    assert_eq!(editor.current_tab().buffer.get_content(), "File 1 content");
    editor.next_tab();
    assert_eq!(editor.current_tab, 1);
    assert_eq!(editor.current_tab().buffer.get_content(), "File 2 content");
}

#[test]
fn test_write_confirmation_mode() {
    let config = Config::default();
    let mut editor = Editor::new_with_config(config);
    let cursor = editor.current_tab().cursor;
    editor.current_tab_mut().buffer.insert_char_at_cursor('H', &cursor);
    assert!(editor.current_tab().buffer.is_modified);
    assert_eq!(editor.current_tab().buffer.get_modified_lines().len(), 1);
    let w_key = key('w');
    let _ = editor.handle_normal_mode(w_key);
    assert_eq!(editor.mode, Mode::WriteConfirm);
    let esc_key = code(KeyCode::Esc);
    let _ = editor.handle_write_confirm_mode(esc_key);
    assert_eq!(editor.mode, Mode::Normal);
    assert!(editor.current_tab().buffer.is_modified);
}

#[test]
fn test_filename_prompt_mode() {
    let config = Config::default();
    let mut editor = Editor::new_with_config(config);
    editor.mode = Mode::WriteConfirm;
    let _ = editor.handle_write_confirm_mode(key('y'));
    assert_eq!(editor.mode, Mode::FilenamePrompt);
    for c in "test.txt".chars() {
        let _ = editor.handle_filename_prompt_mode(key(c));
    }
    assert_eq!(editor.filename_prompt_text, "test.txt");
    let _ = editor.handle_filename_prompt_mode(code(KeyCode::Esc));
    assert_eq!(editor.mode, Mode::Normal);
    assert_eq!(editor.filename_prompt_text, "");
}

#[test]
fn test_visual_mode_basics() {
    let config = Config::default();
    let mut editor = Editor::new_with_config(config);
    assert_eq!(editor.mode, Mode::FileFinder);
    editor.mode = Mode::Normal;
    assert_eq!(editor.current_tab().buffer.selection_start, None);
    editor.mode = Mode::Visual;
    let current_pos = (editor.current_tab().cursor.y, editor.current_tab().cursor.x);
    editor.current_tab_mut().buffer.start_selection(current_pos);
    assert_eq!(editor.mode, Mode::Visual);
    assert!(editor.current_tab().buffer.selection_start.is_some());
    editor.mode = Mode::Normal;
    editor.current_tab_mut().buffer.clear_selection();
    assert_eq!(editor.mode, Mode::Normal);
    assert_eq!(editor.current_tab().buffer.selection_start, None);
}

#[test]
fn test_delete_line_with_undo_redo() {
    let config = Config::default();
    let mut editor = Editor::new_with_config(config);
    editor.mode = Mode::Normal;
    editor.current_tab_mut().buffer.lines = vec![
        "First line".to_string(),
        "Second line".to_string(),
        "Third line".to_string(),
    ];
    editor.current_tab_mut().cursor.y = 1;
    editor.current_tab_mut().cursor.x = 0;
    editor.current_tab_mut().buffer.delete_line(1);
    assert_eq!(editor.current_tab().buffer.lines.len(), 2);
    assert_eq!(editor.current_tab().buffer.lines[0], "First line");
    assert_eq!(editor.current_tab().buffer.lines[1], "Third line");
    {
        let tab = editor.current_tab_mut();
        let undo_successful = tab.buffer.undo(&mut tab.cursor);
        assert!(undo_successful);
    }
    assert_eq!(editor.current_tab().buffer.lines.len(), 3);
    assert_eq!(editor.current_tab().buffer.lines[0], "First line");
    assert_eq!(editor.current_tab().buffer.lines[1], "Second line");
    assert_eq!(editor.current_tab().buffer.lines[2], "Third line");
    {
        let tab = editor.current_tab_mut();
        let redo_successful = tab.buffer.redo(&mut tab.cursor);
        assert!(redo_successful);
    }
    assert_eq!(editor.current_tab().buffer.lines.len(), 2);
    assert_eq!(editor.current_tab().buffer.lines[0], "First line");
    assert_eq!(editor.current_tab().buffer.lines[1], "Third line");
}

#[test]
fn test_delete_mode_functionality() {
    let config = Config::default();
    let mut editor = Editor::new_with_config(config);
    editor.mode = Mode::Normal;
    editor.current_tab_mut().buffer.lines = vec![
        "First line of text".to_string(),
        "Second line of text".to_string(),
        "Third line with some words".to_string(),
    ];
    editor.current_tab_mut().cursor.y = 1;
    editor.current_tab_mut().cursor.x = 0;
    let d_key = KeyEvent::new(KeyCode::Char('d'), KeyModifiers::none());
    let _ = editor.handle_key(d_key);
    assert_eq!(editor.mode, Mode::Delete);
    let _ = editor.handle_key(d_key);
    assert_eq!(editor.current_tab().buffer.lines.len(), 2);
    assert_eq!(editor.current_tab().buffer.lines[0], "First line of text");
    assert_eq!(editor.current_tab().buffer.lines[1], "Third line with some words");
    assert_eq!(editor.mode, Mode::Normal);
    editor.current_tab_mut().cursor.y = 0;
    editor.current_tab_mut().cursor.x = 0;
    let _ = editor.handle_key(d_key);
    assert_eq!(editor.mode, Mode::Delete);
    let w_key = KeyEvent::new(KeyCode::Char('w'), KeyModifiers::none());
    let _ = editor.handle_key(w_key);
    assert!(editor.current_tab().buffer.lines[0].trim() == "line of text");
    assert_eq!(editor.mode, Mode::Normal);
}

#[test]
fn test_mouse_scroll_handling() {
    let config = Config::default();
    let mut editor = Editor::new_with_config(config);
    editor.current_tab_mut().buffer.lines = (1..=15).map(|n| format!("Line {}", n)).collect();
    assert_eq!(editor.current_tab().viewport.top_line, 0);
    let _ = editor.handle_mouse(MouseEventKind::ScrollDown);
    assert_eq!(editor.current_tab().viewport.top_line, 3);
    let _ = editor.handle_mouse(MouseEventKind::ScrollUp);
    assert_eq!(editor.current_tab().viewport.top_line, 0);
    let mut empty_editor = Editor::new_with_config(Config::default());
    empty_editor.tabs.clear();
    let result = empty_editor.handle_mouse(MouseEventKind::ScrollDown);
    assert!(matches!(result, Step::Continue));
}

#[test]
fn test_modified_line_tracking_in_editor() {
    let mut buffer = Buffer::new();
    let mut cursor = Cursor::new();
    buffer.insert_char_at_cursor('a', &cursor);
    cursor.x = 1;
    buffer.insert_char_at_cursor('b', &cursor);
    assert_eq!(buffer.get_modified_lines().len(), 1);
    assert_eq!(buffer.get_content(), "ab");
}

/// Runs requests the way a caller would, with a file system held in memory.
fn run_io(editor: &mut Editor, mut step: Step, files: &mut Vec<(String, String)>) -> Step {
    loop {
        match step {
            Step::Io(request, after) => {
                let outcome = match request {
                    IoRequest::ReadFile { path } => match files.iter().find(|(p, _)| *p == path) {
                        Some((_, c)) => IoOutcome::Read(Ok(c.clone())),
                        None => IoOutcome::Read(Err(format!("no such file: {}", path))),
                    },
                    IoRequest::WriteFile { path, content } => {
                        files.retain(|(p, _)| *p != path);
                        files.push((path, content));
                        IoOutcome::Written(Ok(()))
                    },
                    IoRequest::ListFiles => IoOutcome::Files(Ok(files.iter().map(|(p, _)| p.clone()).collect())),
                    IoRequest::SearchTokens { .. } => IoOutcome::Found(Vec::new()),
                    IoRequest::RunCargo { .. } => IoOutcome::Cargo(None),
                };
                step = editor.resume(after, outcome);
            },
            other => return other,
        }
    }
}

#[test]
fn test_save_file_flow() {
    let mut files: Vec<(String, String)> = Vec::new();
    let mut editor = Editor::new_with_config(Config::default());
    let cursor = editor.current_tab().cursor;
    editor.current_tab_mut().buffer.insert_char_at_cursor('T', &cursor);
    editor.current_tab_mut().buffer.file_path = Some("test_save.txt".to_string());
    assert!(editor.current_tab().buffer.is_modified);
    editor.mode = Mode::WriteConfirm;
    let step = editor.handle_write_confirm_mode(key('y'));
    let end = run_io(&mut editor, step, &mut files);
    assert!(matches!(end, Step::Continue));
    assert_eq!(files, vec![("test_save.txt".to_string(), "T".to_string())]);
    assert!(!editor.current_tab().buffer.is_modified);
    assert_eq!(editor.current_tab().buffer.get_modified_lines().len(), 0);
    assert_eq!(editor.mode, Mode::Normal);
}

#[test]
fn test_reload_file_flow() {
    let mut files = vec![("test_reload.txt".to_string(), "Initial content".to_string())];
    let mut editor = Editor::new_with_config(Config::default());
    editor.current_tab_mut().buffer.file_path = Some("test_reload.txt".to_string());
    editor.mode = Mode::Normal;
    let step = editor.handle_command_mode(code(KeyCode::Enter));
    let _ = run_io(&mut editor, step, &mut files);
    editor.mode = Mode::Command;
    let _ = editor.handle_command_mode(key('e'));
    let step = editor.handle_command_mode(code(KeyCode::Enter));
    let _ = run_io(&mut editor, step, &mut files);
    assert_eq!(editor.current_tab().buffer.get_content(), "Initial content");
    let mut cursor = Cursor::new();
    cursor.x = 8;
    editor.current_tab_mut().buffer.insert_char_at_cursor('X', &cursor);
    assert!(editor.current_tab().buffer.is_modified);
    assert_eq!(editor.current_tab().buffer.get_content(), "Initial Xcontent");
    files[0].1 = "Changed on disk".to_string();
    let diff = editor.current_tab().buffer.diff_with_content("Changed on disk");
    assert!(!diff.is_empty());
    editor.diff_lines = diff;
    editor.mode = Mode::ReloadConfirm;
    let step = editor.handle_reload_confirm_mode(key('y'));
    let _ = run_io(&mut editor, step, &mut files);
    assert_eq!(editor.current_tab().buffer.get_content(), "Changed on disk");
    assert_eq!(editor.mode, Mode::Normal);
    assert!(editor.diff_lines.is_empty());
}

#[test]
fn test_file_finder_empty_tab_reuse() {
    let mut files = vec![("test_file.txt".to_string(), "Test content".to_string())];
    let mut editor = Editor::new_with_config(Config::default());
    let startup = editor.startup_step();
    let _ = run_io(&mut editor, startup, &mut files);
    assert_eq!(editor.mode, Mode::FileFinder);
    assert_eq!(editor.tabs.len(), 1);
    assert!(editor.current_tab().is_unused());
    let step = editor.handle_key(code(KeyCode::Enter));
    let end = run_io(&mut editor, step, &mut files);
    assert!(matches!(end, Step::Continue));
    assert_eq!(editor.tabs.len(), 1, "New tab was created instead of reusing the empty one");
    assert_eq!(editor.current_tab, 0);
    assert_eq!(editor.current_tab().buffer.get_content(), "Test content");
    assert_eq!(editor.current_tab().buffer.file_path.as_ref().unwrap(), "test_file.txt");
    assert_eq!(editor.mode, Mode::Normal);
}

#[test]
fn loading_a_missing_file_fails_with_the_read_error() {
    let mut files: Vec<(String, String)> = Vec::new();
    let mut editor = Editor::new_with_config(Config::default());
    let step = editor.load_file("missing.rs", Then::Nothing);
    let end = run_io(&mut editor, step, &mut files);
    match end {
        Step::Failed(message) => assert_eq!(message, "no such file: missing.rs"),
        _ => panic!("loading a missing file should fail"),
    }
}

#[test]
fn opening_an_open_file_switches_to_its_tab() {
    let mut files = vec![("a.rs".to_string(), "fn a() {}".to_string())];
    let mut editor = Editor::new_with_config(Config::default());
    let step = editor.load_file_in_new_tab("a.rs", Then::Nothing);
    let _ = run_io(&mut editor, step, &mut files);
    assert_eq!(editor.tabs.len(), 2);
    assert_eq!(editor.current_tab, 1);
    editor.go_to_tab(0);
    let step = editor.load_file_in_new_tab("a.rs", Then::Normal);
    assert!(matches!(step, Step::Continue));
    assert_eq!(editor.tabs.len(), 2);
    assert_eq!(editor.current_tab, 1);
    assert_eq!(editor.mode, Mode::Normal);
}

#[test]
fn normal_mode_builtin_keys() {
    let mut editor = Editor::new_with_config(Config::default());
    editor.mode = Mode::Normal;
    editor.current_tab_mut().buffer.lines = vec!["abc".to_string(), "de".to_string()];
    let _ = editor.handle_key(key('j'));
    assert_eq!(editor.current_tab().cursor.y, 1);
    let _ = editor.handle_key(key('$'));
    assert_eq!(editor.current_tab().cursor.x, 2);
    let _ = editor.handle_key(key('k'));
    assert_eq!((editor.current_tab().cursor.x, editor.current_tab().cursor.y), (2, 0));
    let _ = editor.handle_key(key('G'));
    assert_eq!((editor.current_tab().cursor.x, editor.current_tab().cursor.y), (2, 1));
    let _ = editor.handle_key(key('g'));
    assert_eq!((editor.current_tab().cursor.x, editor.current_tab().cursor.y), (0, 0));
    assert!(matches!(editor.handle_key(key('q')), Step::Quit));
    let _ = editor.handle_key(key(':'));
    assert_eq!(editor.mode, Mode::Command);
}

#[test]
fn insert_mode_typing_backspace_and_enter() {
    let mut editor = Editor::new_with_config(Config::default());
    editor.mode = Mode::Insert;
    for c in "hi".chars() {
        let _ = editor.handle_key(key(c));
    }
    assert_eq!(editor.current_tab().buffer.lines, vec!["hi".to_string()]);
    assert_eq!(editor.current_tab().cursor.x, 2);
    let _ = editor.handle_key(code(KeyCode::Enter));
    assert_eq!(editor.current_tab().buffer.lines, vec!["hi".to_string(), "".to_string()]);
    assert_eq!((editor.current_tab().cursor.x, editor.current_tab().cursor.y), (0, 1));
    let _ = editor.handle_key(code(KeyCode::Backspace));
    assert_eq!(editor.current_tab().buffer.lines, vec!["hi".to_string()]);
    assert_eq!((editor.current_tab().cursor.x, editor.current_tab().cursor.y), (2, 0));
    let _ = editor.handle_key(code(KeyCode::Backspace));
    assert_eq!(editor.current_tab().buffer.lines, vec!["h".to_string()]);
    let _ = editor.handle_key(code(KeyCode::Esc));
    assert_eq!(editor.mode, Mode::Normal);
    assert!(editor.take_highlight_invalidation());
    assert!(!editor.take_highlight_invalidation());
}

#[test]
fn command_line_write_and_quit() {
    let mut files: Vec<(String, String)> = Vec::new();
    let mut editor = Editor::new_with_config(Config::default());
    editor.current_tab_mut().buffer.lines = vec!["x".to_string()];
    editor.mode = Mode::Command;
    for c in "w out.txt".chars() {
        let _ = editor.handle_command_mode(key(c));
    }
    let step = editor.handle_command_mode(code(KeyCode::Enter));
    match &step {
        Step::Io(IoRequest::WriteFile { path, content }, After::Saved { kind, .. }) => {
            assert_eq!(path, "out.txt");
            assert_eq!(content, "x");
            assert_eq!(*kind, SaveKind::Command { quit: false });
        },
        _ => panic!("expected a write"),
    }
    let end = run_io(&mut editor, step, &mut files);
    assert!(matches!(end, Step::Continue));
    assert_eq!(editor.current_tab().buffer.file_path.as_deref(), Some("out.txt"));
    assert_eq!(editor.mode, Mode::Normal);
    editor.mode = Mode::Command;
    let _ = editor.handle_command_mode(key('x'));
    let step = editor.handle_command_mode(code(KeyCode::Enter));
    let end = run_io(&mut editor, step, &mut files);
    assert!(matches!(end, Step::Quit));
}

#[test]
fn write_all_saves_named_tabs() {
    let mut files: Vec<(String, String)> = Vec::new();
    let mut editor = Editor::new_with_config(Config::default());
    editor.tabs[0].buffer.file_path = Some("one.txt".to_string());
    editor.tabs[0].buffer.lines = vec!["1".to_string()];
    editor.add_tab();
    editor.tabs[1].buffer.file_path = Some("two.txt".to_string());
    editor.tabs[1].buffer.lines = vec!["2".to_string()];
    editor.save_and_quit = true;
    editor.mode = Mode::WriteConfirm;
    let step = editor.handle_write_confirm_mode(key('a'));
    let end = run_io(&mut editor, step, &mut files);
    assert!(matches!(end, Step::Quit));
    assert_eq!(files.len(), 2);
    assert_eq!(editor.current_tab, 1);
    assert!(!editor.save_and_quit);
}

#[test]
fn toggling_diagnostics_panel() {
    let mut editor = Editor::new_with_config(Config::default());
    editor.mode = Mode::Normal;
    let ctrl_e = KeyEvent::new(KeyCode::Char('e'), KeyModifiers::ctrl());
    let _ = editor.handle_key(ctrl_e);
    assert_eq!(editor.mode, Mode::DiagnosticsPanel);
    let _ = editor.handle_key(key('w'));
    assert_eq!(editor.diagnostics_filter, zim::editor::DiagnosticFilter::Warnings);
    let _ = editor.handle_key(ctrl_e);
    assert_eq!(editor.mode, Mode::Normal);
}

#[test]
fn snake_game_starts_only_on_a_large_enough_viewport() {
    let mut editor = Editor::new_with_config(Config::default());
    editor.mode = Mode::Normal;
    let _ = editor.handle_key(key('s'));
    assert_eq!(editor.mode, Mode::Normal);
    assert!(editor.snake_game.is_none());
    editor.resize_viewport(80, 45);
    let _ = editor.handle_key(key('s'));
    assert_eq!(editor.mode, Mode::Snake);
    let game = editor.snake_game.as_ref().unwrap();
    assert_eq!((game.width(), game.height()), (20, 15));
    let _ = editor.handle_key(key('q'));
    assert_eq!(editor.mode, Mode::Normal);
    assert!(editor.snake_game.is_none());
}

fn normal_editor(content: &str) -> Editor {
    let mut editor = Editor::new_with_config(Config::default());
    editor.mode = Mode::Normal;
    editor.current_tab_mut().buffer.set_content(content).unwrap();
    editor
}

#[test]
fn pasting_lines_after_and_before_the_cursor() {
    let mut editor = normal_editor("one\ntwo");
    editor.clipboard = "new\n".to_string();
    editor.handle_key(key('p'));
    assert_eq!(editor.current_tab().buffer.lines, vec!["one", "new", "two"]);
    assert_eq!((editor.current_tab().cursor.x, editor.current_tab().cursor.y), (0, 1));
    editor.clipboard = "a\nb\n".to_string();
    editor.handle_key(key('P'));
    assert_eq!(editor.current_tab().buffer.lines, vec!["one", "a", "bnew", "two"]);
    assert_eq!((editor.current_tab().cursor.x, editor.current_tab().cursor.y), (0, 1));
}

#[test]
fn pasting_characters_after_and_before_the_cursor() {
    let mut editor = normal_editor("xyz");
    editor.current_tab_mut().cursor.x = 1;
    editor.clipboard = "ab".to_string();
    editor.handle_key(key('p'));
    assert_eq!(editor.current_tab().buffer.lines, vec!["xabyz"]);
    assert_eq!(editor.current_tab().cursor.x, 3);
    editor.handle_key(key('P'));
    assert_eq!(editor.current_tab().buffer.lines, vec!["xaabbyz"]);
    assert_eq!(editor.current_tab().cursor.x, 3);
}

#[test]
fn undo_and_redo_keys_replay_the_last_action() {
    let mut editor = normal_editor("abc");
    editor.handle_key(key('x'));
    assert_eq!(editor.mode, Mode::Insert);
    assert_eq!(editor.current_tab().buffer.lines, vec!["bc"]);
    editor.handle_key(code(KeyCode::Esc));
    editor.handle_key(key('u'));
    assert_eq!(editor.current_tab().buffer.lines, vec!["abc"]);
    editor.handle_key(key('i'));
    editor.handle_key(key('Z'));
    assert_eq!(editor.current_tab().buffer.lines, vec!["Zabc"]);
    editor.handle_key(code(KeyCode::Esc));
    editor.handle_key(key('u'));
    assert_eq!(editor.current_tab().buffer.lines, vec!["abc"]);
    assert_eq!(editor.current_tab().cursor.x, 0);
    editor.handle_key(KeyEvent::new(KeyCode::Char('r'), KeyModifiers::ctrl()));
    assert_eq!(editor.current_tab().buffer.lines, vec!["Zabc"]);
}

#[test]
fn paging_moves_by_the_viewport_height() {
    let content: Vec<String> = (0..30).map(|i| format!("line {}", i)).collect();
    let mut editor = normal_editor(&content.join("\n"));
    editor.resize_viewport(40, 10);
    editor.handle_key(KeyEvent::new(KeyCode::Char('f'), KeyModifiers::ctrl()));
    assert_eq!(editor.current_tab().cursor.y, 10);
    editor.handle_key(KeyEvent::new(KeyCode::Char('f'), KeyModifiers::ctrl()));
    editor.handle_key(KeyEvent::new(KeyCode::Char('f'), KeyModifiers::ctrl()));
    assert_eq!(editor.current_tab().cursor.y, 29);
    editor.handle_key(KeyEvent::new(KeyCode::Char('b'), KeyModifiers::ctrl()));
    assert_eq!(editor.current_tab().cursor.y, 19);
}

#[test]
fn opening_a_line_can_be_undone() {
    let mut e = Editor::new_with_config(Config::default());
    e.mode = Mode::Normal;
    e.current_tab_mut().buffer.lines = vec!["a".to_string(), "b".to_string()];
    e.handle_key(key('o'));
    assert_eq!(e.current_tab().buffer.lines, vec!["a".to_string(), "".to_string(), "b".to_string()]);
    assert_eq!((e.current_tab().cursor.x, e.current_tab().cursor.y), (0, 1));
    assert_eq!(e.mode, Mode::Insert);
    assert!(e.current_tab().buffer.history.can_undo());
}

#[test]
fn delete_mode_word_and_line_ends() {
    let mut e = Editor::new_with_config(Config::default());
    e.mode = Mode::Normal;
    e.current_tab_mut().buffer.lines = vec!["one two three".to_string()];
    e.current_tab_mut().cursor.x = 4;
    e.mode = Mode::Delete;
    e.handle_key(key('w'));
    assert_eq!(e.current_tab().buffer.lines[0], "one  three");
    assert_eq!(e.mode, Mode::Normal);
    e.mode = Mode::Delete;
    e.handle_key(key('$'));
    assert_eq!(e.current_tab().buffer.lines[0], "one ");
    e.mode = Mode::Delete;
    e.handle_key(key('0'));
    assert_eq!(e.current_tab().buffer.lines[0], "");
    assert!(e.current_tab().buffer.history.can_undo());
}

#[test]
fn visual_d_deletes_the_selection() {
    let mut e = Editor::new_with_config(Config::default());
    e.mode = Mode::Normal;
    e.current_tab_mut().buffer.lines = vec!["Hello world".to_string()];
    e.handle_key(key('v'));
    assert_eq!(e.mode, Mode::Visual);
    for _ in 0..5 {
        e.handle_key(key('l'));
    }
    e.handle_key(key('d'));
    assert_eq!(e.mode, Mode::Normal);
    assert_eq!(e.current_tab().buffer.lines[0], " world");
    assert_eq!(e.current_tab().buffer.selection_start, None);
    e.handle_key(key('u'));
    assert_eq!(e.current_tab().buffer.lines[0], "Hello world");
}
