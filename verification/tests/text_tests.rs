use zim::editor::file_finder::is_listed;
use zim::editor::token_search::{find_in_line, result_for_line, search_done};
use zim::editor::disk_diff::{changed_lines, LineChange};
use zim::editor::syntax::{choose_syntax, ends_with};
use zim::editor::token_search::TokenSearch;
use zim::text::{find_text, split_string, trim_string};

#[test]
fn find_trim_and_split() {
    assert_eq!(find_text("abcabc", "ca"), Some(2));
    assert_eq!(find_text("abc", "d"), None);
    assert_eq!(trim_string("  a b \t"), "a b");
    assert_eq!(split_string("a:b::c", ":"), vec!["a", "b", "", "c"]);
    assert!(ends_with("main.rs", ".rs"));
}

#[test]
fn changed_lines_count_new_lines() {
    let changes = vec![
        LineChange::Equal,
        LineChange::Delete,
        LineChange::Insert,
        LineChange::Equal,
        LineChange::Insert,
    ];
    let mut lines: Vec<usize> = changed_lines(&changes).into_iter().collect();
    lines.sort();
    assert_eq!(lines, vec![1, 3]);
}

#[test]
fn syntax_choice_order() {
    let table = vec![
        ("Plain".to_string(), vec!["txt".to_string()]),
        ("Make".to_string(), vec!["Makefile".to_string()]),
    ];
    assert_eq!(
        choose_syntax(true, Some("Rust".to_string()), &table, "a.rs", None).as_deref(),
        Some("Rust")
    );
    assert_eq!(choose_syntax(true, None, &table, "Makefile", None).as_deref(), Some("Make"));
    assert_eq!(
        choose_syntax(false, Some("Rust".to_string()), &table, "Makefile", Some("Shell".to_string())).as_deref(),
        Some("Shell")
    );
}

#[test]
fn search_pattern_escapes_the_query() {
    let mut search = TokenSearch::new();
    for c in "a.b(".chars() {
        search.add_char(c);
    }
    assert_eq!(search.search_pattern(), "(?i)a\\.b\\(");
    assert!(search.begin_search());
}

#[test]
fn unicode_spaces_are_trimmed() {
    assert_eq!(trim_string("\u{3000}\u{a0} a b\u{2009}\t\r\n"), "a b");
    assert_eq!(trim_string("\u{200b}x"), "\u{200b}x");
}

#[test]
fn a_matching_line_gives_a_result() {
    let r = find_in_line("src/a.rs".to_string(), 3, "  let FooBar = 1;   ", "(?i)foobar", "foobar").unwrap();
    assert_eq!(r.file_path, "src/a.rs");
    assert_eq!(r.line_number, 3);
    assert_eq!(r.column, 6);
    assert_eq!(r.line_content, "  let FooBar = 1;");
    assert_eq!(r.matched_text, "FooBar");
    assert!(find_in_line("a".to_string(), 1, "nothing here", "(?i)foobar", "foobar").is_none());
    let r = result_for_line("b".to_string(), 1, "é xy", Some(3), "xyz").unwrap();
    assert_eq!(r.column, 2);
    assert_eq!(r.matched_text, "xy");
    assert!(result_for_line("b".to_string(), 1, "é xy", Some(1), "x").is_none());
    assert!(search_done(1001));
    assert!(!search_done(1000));
}

#[test]
fn hidden_and_target_paths_are_not_listed() {
    assert!(is_listed("/home/u/project/src/main.rs"));
    assert!(!is_listed("/home/u/project/.git/HEAD"));
    assert!(!is_listed("/home/u/project/target/debug/x"));
    assert!(!is_listed("/home/u/project/.hidden"));
    assert!(is_listed("/home/u/project/targets/x"));
}
