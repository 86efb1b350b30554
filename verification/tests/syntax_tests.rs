use zim::editor::syntax::{choose_syntax, lines_with_endings};
use zim::editor::SyntaxHighlighter;

#[test]
fn default_theme_and_theme_list() {
    let h = SyntaxHighlighter::new();
    assert_eq!(h.current_theme(), "Solarized (dark)");
    let themes = h.list_themes();
    assert!(themes.contains(&"Solarized (dark)".to_string()));
    assert!(themes.contains(&"base16-ocean.dark".to_string()));
}

#[test]
fn setting_a_theme() {
    let mut h = SyntaxHighlighter::new();
    assert_eq!(h.set_theme("InspiredGitHub"), Ok(()));
    assert_eq!(h.current_theme(), "InspiredGitHub");
    assert_eq!(h.set_theme("No Such Theme"), Err("Theme not found: No Such Theme".to_string()));
    assert_eq!(h.current_theme(), "InspiredGitHub");
}

#[test]
fn languages_and_syntax_choice() {
    let h = SyntaxHighlighter::new();
    assert!(h.supported_languages().contains(&"Rust".to_string()));
    assert_eq!(h.determine_syntax(Some("src/main.rs"), ""), Some("Rust".to_string()));
    assert_eq!(h.determine_syntax(None, "#!/bin/bash"), Some("Bourne Again Shell (bash)".to_string()));
}

#[test]
fn choosing_among_lookups() {
    let table = vec![("Make".to_string(), vec!["Makefile".to_string()]), ("Text".to_string(), vec!["txt".to_string()])];
    assert_eq!(choose_syntax(true, Some("Rust".to_string()), &table, "x.rs", None), Some("Rust".to_string()));
    assert_eq!(choose_syntax(true, None, &table, "Makefile", None), Some("Make".to_string()));
    assert_eq!(choose_syntax(true, None, &table, "notes", Some("Shell".to_string())), Some("Shell".to_string()));
    assert_eq!(choose_syntax(false, None, &table, "", None), None);
}

#[test]
fn lines_keep_their_endings() {
    assert_eq!(lines_with_endings("a\nb\n\nc"), vec!["a\n", "b\n", "\n", "c"]);
    assert_eq!(lines_with_endings("x\n"), vec!["x\n"]);
    assert!(lines_with_endings("").is_empty());
}

#[test]
fn highlighting_splits_each_line_into_pieces() {
    let h = SyntaxHighlighter::new();
    let lines = h.highlight_text("fn main() {}\nlet x = 1;", "Rust").unwrap();
    assert_eq!(lines.len(), 2);
    let first: String = lines[0].ranges.iter().map(|(_, t)| t.as_str()).collect();
    let second: String = lines[1].ranges.iter().map(|(_, t)| t.as_str()).collect();
    assert_eq!(first, "fn main() {}\n");
    assert_eq!(second, "let x = 1;");
    assert!(lines[0].ranges.len() > 1);
    assert!(h.highlight_text("x", "No Such Syntax").is_none());
}

#[test]
fn extensions_match_ignoring_case() {
    let h = SyntaxHighlighter::new();
    assert_eq!(h.determine_syntax(Some("src/MAIN.RS"), ""), Some("Rust".to_string()));
}

#[test]
fn highlighting_carries_from_line_to_line() {
    let h = SyntaxHighlighter::new();
    let both = h.highlight_text("/* open\nstill comment */\n", "Rust").unwrap();
    let alone = h.highlight_text("still comment */\n", "Rust").unwrap();
    assert_eq!(both.len(), 2);
    assert_ne!(both[1].ranges[0].0, alone[0].ranges[0].0);
    assert_eq!(both[1].ranges[0].0, both[0].ranges[0].0);
}

#[test]
fn first_line_decides_without_an_extension() {
    let h = SyntaxHighlighter::new();
    assert_eq!(h.determine_syntax(Some("myrunnerZQ"), "#!/bin/bash"), Some("Bourne Again Shell (bash)".to_string()));
    assert_eq!(h.determine_syntax(Some("notesZQ"), "plain words"), None);
}
