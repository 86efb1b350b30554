use zim::editor::cargo_output::reported_paths;
use zim::editor::{DiagnosticCollection, DiagnosticSeverity};

const OUTPUT: &str = "error[E0425]: cannot find value `x` in this scope\n --> src/main.rs:10:5\n  |\n10 |     x + 1\n  |     ^ not found in this scope\n  = help: consider declaring it\n\nwarning: unused variable: `y`\n --> src/lib.rs:3:9\n  |\n3 |     let y = 2;\n  |         ^ help: prefix it\n";

fn same() -> Vec<(String, bool)> {
    vec![("src/main.rs".to_string(), true), ("src/lib.rs".to_string(), false)]
}

#[test]
fn reads_the_current_files_diagnostics() {
    let d = DiagnosticCollection::new().parse_cargo_output(OUTPUT, "src/main.rs", "main.rs", &same());
    assert_eq!(d.get_diagnostic_line_numbers(), vec![9]);
    let on_line = d.get_diagnostics_for_line(9).unwrap();
    assert_eq!(on_line.len(), 1);
    let diag = &on_line[0];
    assert_eq!(diag.message, "cannot find value `x` in this scope");
    assert_eq!(diag.severity, DiagnosticSeverity::Error);
    assert_eq!((diag.span.line, diag.span.start_column, diag.span.end_column), (9, 4, 9));
    assert_eq!(diag.file_path, "src/main.rs");
    assert_eq!(diag.original_line_number, 10);
    assert_eq!(diag.related_info.as_deref(), Some("|"));
    assert_eq!(diag.additional_info, vec!["= help: consider declaring it".to_string()]);
    assert_eq!(d.error_count(), 1);
    assert_eq!(d.warning_count(), 0);
}

#[test]
fn other_files_are_left_out() {
    let d = DiagnosticCollection::new().parse_cargo_output(OUTPUT, "src/other.rs", "other.rs", &vec![]);
    assert!(d.get_diagnostic_line_numbers().is_empty());
}

#[test]
fn a_bare_file_name_matches_by_name() {
    let d = DiagnosticCollection::new().parse_cargo_output(OUTPUT, "lib.rs", "lib.rs", &vec![]);
    assert_eq!(d.get_diagnostic_line_numbers(), vec![2]);
    let diag = &d.get_diagnostics_for_line(2).unwrap()[0];
    assert_eq!(diag.severity, DiagnosticSeverity::Warning);
    assert_eq!(diag.message, "unused variable: `y`");
    assert_eq!((diag.span.start_column, diag.span.end_column), (8, 18));
}

#[test]
fn without_carets_errors_span_five_columns() {
    let out = "error: oops\n --> a.rs:2:3\n";
    let d = DiagnosticCollection::new().parse_cargo_output(out, "a.rs", "a.rs", &vec![]);
    let diag = &d.get_diagnostics_for_line(1).unwrap()[0];
    assert_eq!((diag.span.start_column, diag.span.end_column), (2, 7));
    let out = "warning: hmm\n --> a.rs:2:3\n";
    let d = DiagnosticCollection::new().parse_cargo_output(out, "a.rs", "a.rs", &vec![]);
    let diag = &d.get_diagnostics_for_line(1).unwrap()[0];
    assert_eq!((diag.span.start_column, diag.span.end_column), (2, 12));
}

#[test]
fn explain_notes_name_the_code() {
    let out = "error[E0308]: mismatched types\n --> a.rs:1:1\nsome text\nFor more information about this error, try `rustc --explain E0308`.\n";
    let d = DiagnosticCollection::new().parse_cargo_output(out, "a.rs", "a.rs", &vec![]);
    let diag = &d.get_diagnostics_for_line(0).unwrap()[0];
    assert_eq!(diag.additional_info, vec!["For more information, run: rustc --explain E0308".to_string()]);
}

#[test]
fn canonical_comparison_decides_other_paths() {
    let out = "error: bad\n --> /abs/project/x.rs:4:1\n";
    let same = vec![("/abs/project/x.rs".to_string(), true)];
    let d = DiagnosticCollection::new().parse_cargo_output(out, "y.rs", "x.rs", &same);
    assert_eq!(d.get_diagnostic_line_numbers(), vec![3]);
}

#[test]
fn reported_paths_lists_each_location() {
    assert_eq!(reported_paths(OUTPUT), vec!["src/main.rs".to_string(), "src/lib.rs".to_string()]);
}

#[test]
fn a_bare_caret_line_gives_the_width() {
    let out = "error: wide\n --> a.rs:3:2\n  |\n   ^^^^ here\n";
    let d = DiagnosticCollection::new().parse_cargo_output(out, "a.rs", "a.rs", &vec![]);
    let diag = &d.get_diagnostics_for_line(2).unwrap()[0];
    assert_eq!((diag.span.start_column, diag.span.end_column), (1, 5));
}
