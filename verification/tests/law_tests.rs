use zim::config::{CommandMap, Config, KeyBinding};
use zim::editor::cargo_output::reported_paths;
use zim::editor::{
    Buffer, Cursor, Diagnostic, DiagnosticCollection, DiagnosticFilter, DiagnosticSeverity, Editor, Mode, Step, TextSpan,
    Viewport,
};
use zim::keys::{KeyCode, KeyEvent, KeyModifiers};
use zim::ui::text_area::selection_pieces;
use zim::ui::Look;

#[test]
fn next_and_previous_tab_undo_each_other() {
    let mut editor = Editor::new_with_config(Config::default());
    editor.add_tab();
    editor.add_tab();
    for start in 0..3 {
        editor.go_to_tab(start);
        editor.next_tab();
        editor.prev_tab();
        assert_eq!(editor.current_tab, start);
        editor.prev_tab();
        editor.next_tab();
        assert_eq!(editor.current_tab, start);
    }
}

#[test]
fn going_round_all_tabs_returns() {
    let mut editor = Editor::new_with_config(Config::default());
    editor.add_tab();
    editor.add_tab();
    editor.add_tab();
    editor.go_to_tab(1);
    for _ in 0..4 {
        editor.next_tab();
    }
    assert_eq!(editor.current_tab, 1);
}

#[test]
fn scrolling_brings_the_cursor_into_view() {
    let mut v = Viewport::new();
    v.update_dimensions(10, 5);
    v.ensure_cursor_visible(42, 3);
    assert!(v.top_line <= 42 && 42 < v.top_line + v.height);
    assert_eq!(v.top_line, 38);
    v.ensure_cursor_visible(40, 3);
    assert_eq!(v.top_line, 38);
    v.ensure_cursor_visible(2, 30);
    assert_eq!(v.top_line, 2);
    assert!(v.left_column <= 30 && 30 < v.left_column + v.width);
}

#[test]
fn content_reads_back_after_setting_it() {
    let mut b = Buffer::new();
    b.set_content("first\n\n  third line\nlast").unwrap();
    let lines = b.lines.clone();
    let content = b.get_content();
    b.set_content(&content).unwrap();
    assert_eq!(b.lines, lines);
    assert_eq!(b.get_content(), content);
}

#[test]
fn selection_pieces_give_the_text_back() {
    let mut b = Buffer::new();
    b.set_content("hello world").unwrap();
    b.start_selection((0, 3));
    let cursor = Cursor { x: 8, y: 0 };
    let pieces = selection_pieces("hello world", 0, 0, &b, &cursor, false, Look::plain());
    let joined: String = pieces.iter().map(|p| p.text.as_str()).collect();
    assert_eq!(joined, "hello world");
    assert_eq!(pieces.len(), 3);
    assert!(pieces.windows(2).all(|w| w[0].look != w[1].look));
}

#[test]
fn every_reported_location_is_listed() {
    let output = "warning: unused\n --> src/a.rs:1:1\nerror[E1]: bad\n --> src/b.rs:2:3\nnote: x\n";
    assert_eq!(reported_paths(output), vec!["src/a.rs".to_string(), "src/b.rs".to_string()]);
}

#[test]
fn escape_returns_to_normal_mode_from_every_mode() {
    let esc = KeyEvent::new(KeyCode::Esc, KeyModifiers::none());
    let modes = [
        Mode::Normal,
        Mode::Insert,
        Mode::Command,
        Mode::FileFinder,
        Mode::Help,
        Mode::WriteConfirm,
        Mode::FilenamePrompt,
        Mode::ReloadConfirm,
        Mode::TokenSearch,
        Mode::DiagnosticsPanel,
        Mode::Visual,
        Mode::VisualLine,
        Mode::Delete,
    ];
    for mode in modes {
        let mut editor = Editor::new_with_config(Config::default());
        editor.mode = mode;
        editor.handle_key(esc);
        assert_eq!(editor.mode, Mode::Normal, "from {:?}", mode);
    }
    let mut editor = Editor::new_with_config(Config::default());
    editor.resize_viewport(200, 100);
    editor.start_snake_game();
    assert_eq!(editor.mode, Mode::Snake);
    editor.handle_key(esc);
    assert_eq!(editor.mode, Mode::Normal);
}

#[test]
fn function_keys_make_tabs_current() {
    let mut config = Config::default();
    config.key_bindings.normal_mode = CommandMap::new();
    let mut editor = Editor::new_with_config(config);
    editor.mode = Mode::Normal;
    editor.add_tab();
    editor.add_tab();
    editor.handle_key(KeyEvent::new(KeyCode::F(2), KeyModifiers::none()));
    assert_eq!(editor.current_tab, 1);
    editor.handle_key(KeyEvent::new(KeyCode::F(1), KeyModifiers::none()));
    assert_eq!(editor.current_tab, 0);
    editor.handle_key(KeyEvent::new(KeyCode::F(9), KeyModifiers::none()));
    assert_eq!(editor.current_tab, 0);
    assert_eq!(editor.tabs.len(), 3);
}

#[test]
fn a_bound_key_runs_its_command() {
    let mut config = Config::default();
    config.key_bindings.normal_mode.insert("quit".to_string(), KeyBinding::new("z"));
    let mut editor = Editor::new_with_config(config);
    editor.mode = Mode::Normal;
    let s = editor.handle_key(KeyEvent::new(KeyCode::Char('z'), KeyModifiers::none()));
    assert!(matches!(s, Step::Quit));
}

#[test]
fn diagnostic_listings_and_counts_agree() {
    let mut c = DiagnosticCollection::new();
    c.add_diagnostic(Diagnostic::new("e1", DiagnosticSeverity::Error, TextSpan::new(7, 0, 1)));
    c.add_diagnostic(Diagnostic::new("w1", DiagnosticSeverity::Warning, TextSpan::new(2, 0, 1)));
    c.add_diagnostic(Diagnostic::new("e2", DiagnosticSeverity::Error, TextSpan::new(2, 3, 4)));
    c.add_diagnostic(Diagnostic::new("i1", DiagnosticSeverity::Information, TextSpan::new(9, 0, 1)));
    c.add_diagnostic(Diagnostic::new("h1", DiagnosticSeverity::Hint, TextSpan::new(9, 1, 2)));
    let all = c.get_all_diagnostics();
    assert_eq!(all.len(), 5);
    assert_eq!(c.get_filtered_diagnostics(&DiagnosticFilter::All).len(), 5);
    let errors = c.get_filtered_diagnostics(&DiagnosticFilter::Errors);
    assert_eq!(errors.len(), 2);
    assert!(errors.iter().all(|d| d.severity == DiagnosticSeverity::Error));
    assert_eq!(c.error_count(), 2);
    assert_eq!(c.warning_count(), 1);
    assert_eq!(c.get_filtered_diagnostics(&DiagnosticFilter::Info).len(), 1);
    assert!(c.error_count() + c.warning_count() <= all.len());
    assert_eq!(c.get_diagnostic_line_numbers(), vec![2, 7, 9]);
    assert!(c.get_diagnostic_line_numbers().iter().all(|l| !c.get_diagnostics_for_line(*l).unwrap().is_empty()));
    assert_eq!(c.next_diagnostic_line(7), Some(9));
    assert_eq!(c.next_diagnostic_line(9), Some(2));
    assert_eq!(c.prev_diagnostic_line(2), Some(9));
    assert_eq!(DiagnosticCollection::new().next_diagnostic_line(0), None);
}
