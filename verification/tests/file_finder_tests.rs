use zim::editor::FileFinder;

#[test]
fn test_file_finder_basic_operations() {
    let mut finder = FileFinder::new();
    assert_eq!(finder.query(), "");
    assert_eq!(finder.matches().len(), 0);
    assert_eq!(finder.selected_index(), 0);
    finder.add_char('t');
    finder.add_char('e');
    finder.add_char('s');
    finder.add_char('t');
    assert_eq!(finder.query(), "test");
    finder.remove_char();
    assert_eq!(finder.query(), "tes");
}

#[test]
fn test_file_finder_navigation() {
    let mut finder = FileFinder::new();
    finder.refresh_with(vec!["file1.rs".to_string(), "file2.rs".to_string(), "file3.rs".to_string()]);
    assert_eq!(finder.selected_index(), 0);
    finder.next();
    assert_eq!(finder.selected_index(), 1);
    finder.next();
    assert_eq!(finder.selected_index(), 2);
    finder.next();
    assert_eq!(finder.selected_index(), 0);
    finder.previous();
    assert_eq!(finder.selected_index(), 2);
}

#[test]
fn test_fuzzy_matching() {
    let mut finder = FileFinder::new();
    finder.refresh_with(vec![
        "src/main.rs".to_string(),
        "src/editor/mod.rs".to_string(),
        "src/editor/buffer.rs".to_string(),
        "src/config/mod.rs".to_string(),
    ]);
    finder.update_matches();
    assert_eq!(finder.matches().len(), 4);
    finder.add_char('e');
    finder.add_char('d');
    finder.update_matches();
    let matches: Vec<&String> = finder.matches().iter().map(|(path, _)| path).collect();
    assert!(matches.contains(&&"src/editor/mod.rs".to_string()));
    assert!(matches.contains(&&"src/editor/buffer.rs".to_string()));
}

#[test]
fn refresh_sorts_files_and_matches_all() {
    let mut finder = FileFinder::new();
    finder.add_char('z');
    finder.refresh_with(vec!["b.rs".to_string(), "a.rs".to_string(), "c.rs".to_string()]);
    assert_eq!(finder.query(), "");
    let names: Vec<&str> = finder.matches().iter().map(|(p, _)| p.as_str()).collect();
    assert_eq!(names, vec!["a.rs", "b.rs", "c.rs"]);
    assert!(finder.matches().iter().all(|(_, s)| *s == 0));
    assert_eq!(finder.get_selected().as_deref(), Some("a.rs"));
}

#[test]
fn matches_are_ranked_by_score() {
    let mut finder = FileFinder::new();
    finder.refresh_with(vec!["zzz.txt".to_string(), "main.rs".to_string(), "src/m/a/i/n.txt".to_string()]);
    finder.add_char('m');
    finder.add_char('a');
    finder.add_char('i');
    finder.add_char('n');
    finder.update_matches();
    let scores: Vec<i64> = finder.matches().iter().map(|(_, s)| *s).collect();
    assert!(scores.windows(2).all(|w| w[0] >= w[1]));
    assert!(!finder.matches().iter().any(|(p, _)| p == "zzz.txt"));
    assert_eq!(finder.matches()[0].0, "main.rs");
}
