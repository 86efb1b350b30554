//! Reading the diagnostics of one file out of what `cargo check` or `cargo
//! clippy` print in their human-readable format.
//!
//! A diagnostic starts at a line holding `error[CODE]:`, `error:`,
//! `warning[CODE]:` or `warning:`, followed by the message. The next line,
//! `--> file:line:column`, says where it is; only diagnostics of the current
//! file are kept. Carets (`^^^`) in the following lines give the width of the
//! span; the first line showing code (with `|`) becomes the related
//! information, and `=`, `help:` and `note:` lines the additional information.
//! Whether two paths name the same file on disk is decided outside (by
//! canonicalising them) and handed in as a table.

use vstd::prelude::*;
use super::buffer::{std_lines, std_lines_of};
use super::diagnostics::{
    Diagnostic, DiagnosticCollection, DiagnosticModel, DiagnosticSeverity, TextSpan,
    models_by_line, with_added,
};
use super::syntax::{file_name_of, path_file_name, opt_text};
use crate::text::{
    text_of, find, find_text, contains_text, contains_str, trim, trim_start, trim_string,
    trim_start_string, split_text, split_string, substring, char_len, chars_of, concat,
    lemma_find_from,
};

verus! {

/// The number that `s` denotes as the decimal digits it consists of.
pub open spec fn digits_value(s: Seq<char>) -> int
    decreases s.len(),
{
    if s.len() == 0 {
        0
    } else {
        digits_value(s.drop_last()) * 10 + (s.last() as int - '0' as int)
    }
}

/// What `str::parse::<usize>` gives for `s`: an optional `+` followed by one
/// or more decimal digits whose value fits in `usize`; nothing otherwise.
pub open spec fn parsed_usize(s: Seq<char>) -> Option<usize> {
    let d = if s.len() > 0 && s[0] == '+' {
        s.drop_first()
    } else {
        s
    };
    if d.len() > 0 && (forall|i: int| 0 <= i < d.len() ==> '0' <= #[trigger] d[i] <= '9')
        && digits_value(d) <= usize::MAX {
        Some(digits_value(d) as usize)
    } else {
        None
    }
}

/// `str::parse::<usize>` of `s`, with its error dropped: the value of the
/// decimal number that `s` is, as its documentation describes.
#[verifier::external_body]
fn parse_usize(s: &str) -> (r: Option<usize>)
    ensures
        r == parsed_usize(s@),
{
    s.parse::<usize>().ok()
}

/// The start of a diagnostic: its severity, message and code.
pub struct Header {
    pub severity: DiagnosticSeverity,
    pub message: Seq<char>,
    pub code: Option<Seq<char>>,
}

/// The header at `at` in `line`, where a word of `word_len` characters and
/// `[` stand: a code up to the next `]:`, and the message after it; without
/// `]:`, the message is all that follows the word.
pub open spec fn bracket_header(line: Seq<char>, at: int, word_len: int, severity: DiagnosticSeverity) -> Header {
    let rest = line.subrange(at, line.len() as int);
    match find(rest, "]:"@) {
        Some(c) => Header {
            severity,
            message: trim(line.subrange(at + c + 2, line.len() as int)),
            code: Some(line.subrange(at + word_len + 1, at + c)),
        },
        None => Header {
            severity,
            message: trim(line.subrange(at + word_len, line.len() as int)),
            code: None,
        },
    }
}

/// The header of `line`, if it starts a diagnostic: `error[`, `error:`,
/// `warning[` or `warning:` are looked for, in this order.
pub open spec fn header_of(line: Seq<char>) -> Option<Header> {
    match find(line, "error["@) {
        Some(e) => Some(bracket_header(line, e, 5, DiagnosticSeverity::Error)),
        None => match find(line, "error:"@) {
            Some(e) => Some(
                Header {
                    severity: DiagnosticSeverity::Error,
                    message: trim(line.subrange(e + 6, line.len() as int)),
                    code: None,
                },
            ),
            None => match find(line, "warning["@) {
                Some(w) => Some(bracket_header(line, w, 7, DiagnosticSeverity::Warning)),
                None => match find(line, "warning:"@) {
                    Some(w) => Some(
                        Header {
                            severity: DiagnosticSeverity::Warning,
                            message: trim(line.subrange(w + 8, line.len() as int)),
                            code: None,
                        },
                    ),
                    None => None,
                },
            },
        },
    }
}

/// The pieces, split at `:`, of the file reference of a location line
/// `--> file:line:column` (the text after the first `-->`, up to another).
pub open spec fn location_parts(line: Seq<char>) -> Option<Seq<Seq<char>>> {
    let l = trim(line);
    if contains_text(l, "-->"@) {
        let parts = split_text(l, "-->"@);
        if parts.len() > 1 {
            Some(split_text(trim(parts[1]), ":"@))
        } else {
            None
        }
    } else {
        None
    }
}

/// Whether the table of canonical comparisons says that `p` names the
/// current file (the first entry for `p` decides; no entry means no).
pub open spec fn canonical_match(same: Seq<(Seq<char>, bool)>, p: Seq<char>) -> bool
    decreases same.len(),
{
    if same.len() == 0 {
        false
    } else if same[0].0 == p {
        same[0].1
    } else {
        canonical_match(same.drop_first(), p)
    }
}

/// The file name of the path `p`, empty when it has none.
pub open spec fn name_or_empty(p: Seq<char>) -> Seq<char> {
    match path_file_name(p) {
        Some(n) => n,
        None => Seq::empty(),
    }
}

/// Whether the reported path `reported` is the current file, at path
/// `current` with file name `current_name`: by the canonical comparison, as
/// the same text, as a path ending with the current one, by file name when
/// the current path is a bare file name, or by file name when either path
/// ends with `src/` and that name.
pub open spec fn names_current_file(
    reported: Seq<char>,
    current: Seq<char>,
    current_name: Seq<char>,
    same: Seq<(Seq<char>, bool)>,
) -> bool {
    let reported_name = name_or_empty(reported);
    let in_src = "src/"@ + current_name;
    ||| canonical_match(same, reported)
    ||| reported == current
    ||| current.is_suffix_of(reported)
    ||| (path_file_name(current) is Some && !current.contains('/') && reported_name == current)
    ||| (reported_name == current_name && (in_src.is_suffix_of(reported) || in_src.is_suffix_of(current)))
}

/// The number of `^` at the start of `s`.
pub open spec fn leading_carets(s: Seq<char>) -> nat
    decreases s.len(),
{
    if s.len() > 0 && s[0] == '^' {
        1 + leading_carets(s.drop_first())
    } else {
        0
    }
}

/// The width of the carets in the first of the lines `i + k` to `i + 5` that
/// starts (after whitespace) with `^`, if one does.
pub open spec fn caret_width(lines: Seq<Seq<char>>, i: int, k: int) -> Option<nat>
    decreases 6 - k,
{
    if k >= 6 || i + k >= lines.len() {
        None
    } else {
        let l = trim_start(lines[i + k]);
        if l.len() > 0 && l[0] == '^' {
            Some(leading_carets(l))
        } else {
            caret_width(lines, i, k + 1)
        }
    }
}

/// `n - 1`, but 0 for 0.
pub open spec fn less_one(n: usize) -> usize {
    if n > 0 {
        (n - 1) as usize
    } else {
        0
    }
}

/// `a + b`, but at most `usize::MAX`.
pub open spec fn capped_sum(a: int, b: int) -> usize {
    if a + b <= usize::MAX {
        (a + b) as usize
    } else {
        usize::MAX
    }
}

/// The number in the second piece of a file reference, 0 without one.
pub open spec fn reported_line(parts: Seq<Seq<char>>) -> usize {
    if parts.len() > 1 {
        match parsed_usize(trim(parts[1])) {
            Some(n) => n,
            None => 0,
        }
    } else {
        0
    }
}

/// The span of the diagnostic whose header is line `i`, from the pieces
/// `parts` of its file reference: the line and column counted from 0, and an
/// end column from the carets below it, or else 5 columns on for an error and
/// 10 for a warning. Without a column the span is columns 0 to 10.
pub open spec fn span_in(lines: Seq<Seq<char>>, i: int, parts: Seq<Seq<char>>, severity: DiagnosticSeverity) -> TextSpan {
    let line = less_one(reported_line(parts));
    if parts.len() > 2 && parsed_usize(trim(parts[2])) is Some {
        let start = less_one(parsed_usize(trim(parts[2])).unwrap());
        let end = match caret_width(lines, i, 2) {
            Some(w) => capped_sum(start as int, w as int),
            None => capped_sum(
                start as int,
                if severity == DiagnosticSeverity::Error {
                    5
                } else {
                    10
                },
            ),
        };
        TextSpan { line, start_column: start, end_column: end }
    } else {
        TextSpan { line, start_column: 0, end_column: 10 }
    }
}

/// The note that points to `rustc --explain` for `code`.
pub open spec fn explain_note(code: Seq<char>) -> Seq<char> {
    "For more information, run: rustc --explain "@ + code
}

/// The related and additional information of the diagnostic whose header is
/// line `i`, read from line `j` on (up to line `i + 14`): blank lines before
/// the related information are skipped; a line starting with `error` or
/// `warning`, or holding `--> `, ends it; the first line with `|` (not the
/// last line) is the related information; lines starting with `=` or holding
/// `help:` or `note:` are added; a line holding `rustc --explain` adds a note
/// for the code, if there is one.
pub open spec fn context_from(
    lines: Seq<Seq<char>>,
    i: int,
    j: int,
    related: Option<Seq<char>>,
    infos: Seq<Seq<char>>,
    code: Option<Seq<char>>,
) -> (Option<Seq<char>>, Seq<Seq<char>>)
    decreases i + 15 - j,
{
    if j >= i + 15 || j >= lines.len() || j < 0 {
        (related, infos)
    } else {
        let l = trim_start(lines[j]);
        if l.len() == 0 && related is None {
            context_from(lines, i, j + 1, related, infos, code)
        } else if "error"@.is_prefix_of(l) || "warning"@.is_prefix_of(l) || contains_text(l, "--> "@) {
            (related, infos)
        } else if related is None && l.contains('|') && j + 1 < lines.len() {
            context_from(lines, i, j + 1, Some(l), infos, code)
        } else if "="@.is_prefix_of(l) || contains_text(l, "help:"@) || contains_text(l, "note:"@) {
            context_from(lines, i, j + 1, related, infos.push(l), code)
        } else if contains_text(l, "rustc --explain"@) && code is Some {
            context_from(lines, i, j + 1, related, infos.push(explain_note(code.unwrap())), code)
        } else {
            context_from(lines, i, j + 1, related, infos, code)
        }
    }
}

/// The diagnostic of the current file that line `i` starts, if it does.
pub open spec fn diagnostic_at(
    lines: Seq<Seq<char>>,
    i: int,
    current: Seq<char>,
    current_name: Seq<char>,
    same: Seq<(Seq<char>, bool)>,
) -> Option<DiagnosticModel> {
    let line = trim(lines[i]);
    if line.len() == 0 || header_of(line) is None || i + 1 >= lines.len() || location_parts(lines[i + 1]) is None {
        None
    } else {
        let h = header_of(line).unwrap();
        let parts = location_parts(lines[i + 1]).unwrap();
        if parts.len() == 0 || !names_current_file(trim(parts[0]), current, current_name, same) {
            None
        } else {
            let (related, infos) = context_from(lines, i, i + 2, None, Seq::empty(), h.code);
            Some(
                DiagnosticModel {
                    message: h.message,
                    severity: h.severity,
                    span: span_in(lines, i, parts, h.severity),
                    related_info: related,
                    additional_info: infos,
                    file_path: trim(parts[0]),
                    original_line_number: reported_line(parts),
                },
            )
        }
    }
}

/// The diagnostics of the current file that the first `n` lines start, in order.
pub open spec fn diagnostics_upto(
    lines: Seq<Seq<char>>,
    n: int,
    current: Seq<char>,
    current_name: Seq<char>,
    same: Seq<(Seq<char>, bool)>,
) -> Seq<DiagnosticModel>
    decreases n,
{
    if n <= 0 {
        Seq::empty()
    } else {
        let prev = diagnostics_upto(lines, n - 1, current, current_name, same);
        match diagnostic_at(lines, n - 1, current, current_name, same) {
            Some(d) => prev.push(d),
            None => prev,
        }
    }
}

/// The collection after `d` is added to the diagnostics of its line.
pub open spec fn model_added(m: Map<usize, Seq<DiagnosticModel>>, d: DiagnosticModel) -> Map<
    usize,
    Seq<DiagnosticModel>,
> {
    let line = d.span.line;
    m.insert(
        line,
        (if m.contains_key(line) {
            m[line]
        } else {
            Seq::empty()
        }).push(d),
    )
}

/// The diagnostics `ds`, grouped by line, each line's in order.
pub open spec fn grouped(ds: Seq<DiagnosticModel>) -> Map<usize, Seq<DiagnosticModel>>
    decreases ds.len(),
{
    if ds.len() == 0 {
        Map::empty()
    } else {
        model_added(grouped(ds.drop_last()), ds.last())
    }
}

/// The comparisons table as text.
pub open spec fn same_table(same: Seq<(String, bool)>) -> Seq<(Seq<char>, bool)> {
    same.map_values(|e: (String, bool)| (e.0@, e.1))
}

/// The diagnostics of the current file in cargo's output `output`, grouped by line.
pub open spec fn cargo_diagnostics(
    output: Seq<char>,
    current: Seq<char>,
    current_name: Seq<char>,
    same: Seq<(Seq<char>, bool)>,
) -> Map<usize, Seq<DiagnosticModel>> {
    let lines = std_lines(output);
    grouped(diagnostics_upto(lines, lines.len() as int, current, current_name, same))
}

/// No character of the first `n` of `s` from `at` on is `]`.
pub open spec fn no_close_bracket(s: Seq<char>, at: int, n: int) -> bool {
    forall|k: int| at <= k < at + n ==> s[k] != ']'
}

/// The header at `at` of `line` (see [`bracket_header`]).
fn bracket(line: &str, at: usize, word_len: usize, severity: DiagnosticSeverity) -> (r: (
    DiagnosticSeverity,
    String,
    Option<String>,
))
    requires
        at + word_len + 1 <= line@.len(),
        no_close_bracket(line@, at as int, word_len + 1),
    ensures
        ({
            let h = bracket_header(line@, at as int, word_len as int, severity);
            &&& r.0 == h.severity
            &&& r.1@ == h.message
            &&& match r.2 {
                Some(c) => h.code == Some(c@),
                None => h.code is None,
            }
        }),
{
    let n = char_len(line);
    let rest = substring(line, at, n);
    match find_text(rest.as_str(), "]:") {
        Some(c) => {
            proof {
                reveal_strlit("]:");
                lemma_find_from(rest@, "]:"@, 0);
                assert(rest@.subrange(c as int, c + 2)[0] == ']');
                if c <= word_len {
                    assert(line@[at + c] == rest@[c as int]);
                }
            }
            let message = trim_string(substring(line, at + c + 2, n).as_str());
            let code = substring(line, at + word_len + 1, at + c);
            (severity, message, Some(code))
        },
        None => {
            let message = trim_string(substring(line, at + word_len, n).as_str());
            (severity, message, None)
        },
    }
}

/// The header of `line`, if it starts a diagnostic (see [`header_of`]).
fn header(line: &str) -> (r: Option<(DiagnosticSeverity, String, Option<String>)>)
    ensures
        match r {
            Some(t) => header_of(line@) matches Some(h) && h.severity == t.0 && h.message == t.1@
                && match t.2 {
                Some(c) => h.code == Some(c@),
                None => h.code is None,
            },
            None => header_of(line@) is None,
        },
{
    let n = char_len(line);
    proof {
        reveal_strlit("error[");
        reveal_strlit("error:");
        reveal_strlit("warning[");
        reveal_strlit("warning:");
    }
    match find_text(line, "error[") {
        Some(e) => {
            proof {
                lemma_find_from(line@, "error["@, 0);
                assert forall|k: int| e <= k < e + 6 implies line@[k] != ']' by {
                    assert(line@[k] == line@.subrange(e as int, e + 6)[k - e]);
                }
            }
            Some(bracket(line, e, 5, DiagnosticSeverity::Error))
        },
        None => match find_text(line, "error:") {
            Some(e) => {
                proof {
                    lemma_find_from(line@, "error:"@, 0);
                }
                Some(
                    (
                        DiagnosticSeverity::Error,
                        trim_string(substring(line, e + 6, n).as_str()),
                        None,
                    ),
                )
            },
            None => match find_text(line, "warning[") {
                Some(w) => {
                    proof {
                        lemma_find_from(line@, "warning["@, 0);
                        assert forall|k: int| w <= k < w + 8 implies line@[k] != ']' by {
                            assert(line@[k] == line@.subrange(w as int, w + 8)[k - w]);
                        }
                    }
                    Some(bracket(line, w, 7, DiagnosticSeverity::Warning))
                },
                None => match find_text(line, "warning:") {
                    Some(w) => {
                        proof {
                            lemma_find_from(line@, "warning:"@, 0);
                        }
                        Some(
                            (
                                DiagnosticSeverity::Warning,
                                trim_string(substring(line, w + 8, n).as_str()),
                                None,
                            ),
                        )
                    },
                    None => None,
                },
            },
        },
    }
}

/// The pieces of the file reference of a location line (see [`location_parts`]).
fn location(line: &str) -> (r: Option<Vec<String>>)
    ensures
        match r {
            Some(v) => location_parts(line@) == Some(text_of(v@)),
            None => location_parts(line@) is None,
        },
{
    let l = trim_string(line);
    proof {
        reveal_strlit("-->");
        reveal_strlit(":");
    }
    if contains_str(l.as_str(), "-->") {
        let parts = split_string(l.as_str(), "-->");
        assert(text_of(parts@).len() == parts@.len());
        if parts.len() > 1 {
            assert(text_of(parts@)[1] == parts@[1]@);
            let file_info = trim_string(parts[1].as_str());
            Some(split_string(file_info.as_str(), ":"))
        } else {
            None
        }
    } else {
        None
    }
}

/// Whether `s` holds `c`.
fn has_char(s: &str, c: char) -> (r: bool)
    ensures
        r == s@.contains(c),
{
    let v = chars_of(s);
    let mut i: usize = 0;
    while i < v.len()
        invariant
            i <= v@.len(),
            v@ == s@,
            forall|k: int| 0 <= k < i ==> v@[k] != c,
        decreases v.len() - i,
    {
        if v[i] == c {
            assert(s@[i as int] == c);
            return true;
        }
        i += 1;
    }
    false
}

/// Whether the table says `p` names the current file (see [`canonical_match`]).
fn lookup_same(same: &Vec<(String, bool)>, p: &str) -> (r: bool)
    ensures
        r == canonical_match(same_table(same@), p@),
{
    let ghost t = same_table(same@);
    let mut i: usize = 0;
    assert(t.skip(0) =~= t);
    while i < same.len()
        invariant
            i <= same@.len(),
            t == same_table(same@),
            canonical_match(t, p@) == canonical_match(t.skip(i as int), p@),
        decreases same.len() - i,
    {
        assert(t.skip(i as int)[0] == t[i as int]);
        assert(t.skip(i as int).drop_first() =~= t.skip(i + 1));
        if crate::text::same_text(same[i].0.as_str(), p) {
            return same[i].1;
        }
        i += 1;
    }
    false
}

/// Whether `reported` is the current file (see [`names_current_file`]).
fn is_current(reported: &str, current: &str, current_name: &str, same: &Vec<(String, bool)>) -> (r: bool)
    ensures
        r == names_current_file(reported@, current@, current_name@, same_table(same@)),
{
    let reported_name = match file_name_of(reported) {
        Some(n) => n,
        None => String::new(),
    };
    proof {
        reveal_strlit("src/");
    }
    let in_src = concat("src/", current_name);
    let bare_name = match file_name_of(current) {
        Some(_) => !has_char(current, '/') && crate::text::same_text(reported_name.as_str(), current),
        None => false,
    };
    lookup_same(same, reported) || crate::text::same_text(reported, current) || super::syntax::ends_with(
        reported,
        current,
    ) || bare_name || (crate::text::same_text(reported_name.as_str(), current_name) && (
    super::syntax::ends_with(reported, in_src.as_str()) || super::syntax::ends_with(
        current,
        in_src.as_str(),
    )))
}

/// The number of `^` at the start of `s`.
fn count_carets(s: &str) -> (n: usize)
    ensures
        n == leading_carets(s@),
{
    let v = chars_of(s);
    let mut i: usize = 0;
    assert(s@.skip(0) =~= s@);
    while i < v.len() && v[i] == '^'
        invariant
            i <= v@.len(),
            v@ == s@,
            leading_carets(s@) == i + leading_carets(s@.skip(i as int)),
        decreases v.len() - i,
    {
        assert(s@.skip(i as int).drop_first() =~= s@.skip(i + 1));
        i += 1;
    }
    i
}

/// The caret width below header line `i` (see [`caret_width`]).
fn carets(lines: &Vec<String>, i: usize) -> (r: Option<usize>)
    ensures
        match r {
            Some(w) => caret_width(text_of(lines@), i as int, 2) == Some(w as nat),
            None => caret_width(text_of(lines@), i as int, 2) is None,
        },
{
    let ghost t = text_of(lines@);
    let mut k: usize = 2;
    while k < 6 && i < lines.len() && k < lines.len() - i
        invariant
            2 <= k <= 6,
            t == text_of(lines@),
            caret_width(t, i as int, 2) == caret_width(t, i as int, k as int),
        decreases 6 - k,
    {
        let l = trim_start_string(lines[i + k].as_str());
        assert(t[i + k] == lines@[i + k]@);
        if char_len(l.as_str()) > 0 && crate::text::char_at(l.as_str(), 0) == '^' {
            return Some(count_carets(l.as_str()));
        }
        k += 1;
    }
    None
}

/// `a + b`, at most `usize::MAX`.
fn add_capped(a: usize, b: usize) -> (r: usize)
    ensures
        r == capped_sum(a as int, b as int),
{
    if a <= usize::MAX - b {
        a + b
    } else {
        usize::MAX
    }
}

/// The number in the second piece of a file reference (see [`reported_line`]).
fn line_number_of(parts: &Vec<String>) -> (r: usize)
    ensures
        r == reported_line(text_of(parts@)),
{
    if parts.len() > 1 {
        assert(text_of(parts@)[1] == parts@[1]@);
        match parse_usize(trim_string(parts[1].as_str()).as_str()) {
            Some(n) => n,
            None => 0,
        }
    } else {
        0
    }
}

/// The span of the diagnostic whose header is line `i` (see [`span_in`]).
fn span(lines: &Vec<String>, i: usize, parts: &Vec<String>, severity: DiagnosticSeverity) -> (r: TextSpan)
    ensures
        r == span_in(text_of(lines@), i as int, text_of(parts@), severity),
{
    let reported = line_number_of(parts);
    let line = if reported > 0 { reported - 1 } else { 0 };
    if parts.len() > 2 {
        assert(text_of(parts@)[2] == parts@[2]@);
        match parse_usize(trim_string(parts[2].as_str()).as_str()) {
            Some(c) => {
                let start = if c > 0 { c - 1 } else { 0 };
                let end = match carets(lines, i) {
                    Some(w) => add_capped(start, w),
                    None => add_capped(
                        start,
                        if severity == DiagnosticSeverity::Error {
                            5
                        } else {
                            10
                        },
                    ),
                };
                return TextSpan { line, start_column: start, end_column: end };
            },
            None => {},
        }
    }
    TextSpan { line, start_column: 0, end_column: 10 }
}

/// The related and additional information below header line `i` (see [`context_from`]).
fn context(lines: &Vec<String>, i: usize, code: &Option<String>) -> (r: (Option<String>, Vec<String>))
    ensures
        ({
            let (related, infos) = context_from(
                text_of(lines@),
                i as int,
                i + 2,
                None,
                Seq::empty(),
                opt_text(*code),
            );
            &&& opt_text(r.0) == related
            &&& text_of(r.1@) == infos
        }),
{
    let ghost t = text_of(lines@);
    let ghost code_view: Option<Seq<char>> = opt_text(*code);
    let mut related: Option<String> = None;
    let mut infos: Vec<String> = Vec::new();
    proof {
        reveal_strlit("error");
        reveal_strlit("warning");
        reveal_strlit("--> ");
        reveal_strlit("=");
        reveal_strlit("help:");
        reveal_strlit("note:");
        reveal_strlit("rustc --explain");
        reveal_strlit("For more information, run: rustc --explain ");
    }
    if i >= lines.len() || lines.len() - i <= 2 {
        assert(text_of(infos@) =~= Seq::<Seq<char>>::empty());
        return (related, infos);
    }
    let mut j: usize = i + 2;
    let end: usize = if lines.len() - i < 15 { lines.len() } else { i + 15 };
    assert(text_of(infos@) =~= Seq::<Seq<char>>::empty());
    while j < end
        invariant
            i + 2 <= j <= end,
            end <= lines@.len(),
            end == (if lines@.len() - i < 15 { lines@.len() as int } else { i + 15 }),
            t == text_of(lines@),
            context_from(t, i as int, i + 2, None, Seq::empty(), code_view) == context_from(
                t,
                i as int,
                j as int,
                opt_text(related),
                text_of(infos@),
                code_view,
            ),
            code_view == opt_text(*code),
        decreases end - j,
    {
        let l = trim_start_string(lines[j].as_str());
        assert(t[j as int] == lines@[j as int]@);
        let ghost before = infos@;
        let blank = char_len(l.as_str()) == 0;
        if blank && related.is_none() {
            j += 1;
        } else if crate::editor::tab::starts_with(l.as_str(), "error") || crate::editor::tab::starts_with(
            l.as_str(),
            "warning",
        ) || contains_str(l.as_str(), "--> ") {
            return (related, infos);
        } else if related.is_none() && has_char(l.as_str(), '|') && j + 1 < lines.len() {
            related = Some(l);
            j += 1;
        } else if crate::editor::tab::starts_with(l.as_str(), "=") || contains_str(l.as_str(), "help:")
            || contains_str(l.as_str(), "note:") {
            infos.push(l);
            assert(text_of(infos@) =~= text_of(before).push(l@));
            j += 1;
        } else if contains_str(l.as_str(), "rustc --explain") && code.is_some() {
            let note = match code {
                Some(c) => concat("For more information, run: rustc --explain ", c.as_str()),
                None => String::new(),
            };
            infos.push(note);
            assert(text_of(infos@) =~= text_of(before).push(note@));
            j += 1;
        } else {
            j += 1;
        }
    }
    (related, infos)
}

/// The diagnostic of the current file that line `i` starts, if it does (see
/// [`diagnostic_at`]).
fn parse_at(
    lines: &Vec<String>,
    i: usize,
    current: &str,
    current_name: &str,
    same: &Vec<(String, bool)>,
) -> (r: Option<Diagnostic>)
    requires
        i < lines@.len(),
    ensures
        match r {
            Some(d) => diagnostic_at(text_of(lines@), i as int, current@, current_name@, same_table(same@))
                == Some(d@),
            None => diagnostic_at(text_of(lines@), i as int, current@, current_name@, same_table(same@))
                is None,
        },
{
    let ghost t = text_of(lines@);
    assert(t[i as int] == lines@[i as int]@);
    let line = trim_string(lines[i].as_str());
    if char_len(line.as_str()) == 0 {
        return None;
    }
    let h = match header(line.as_str()) {
        Some(h) => h,
        None => return None,
    };
    if lines.len() - i <= 1 {
        return None;
    }
    assert(t[i + 1] == lines@[i + 1]@);
    let parts = match location(lines[i + 1].as_str()) {
        Some(p) => p,
        None => return None,
    };
    if parts.len() == 0 {
        return None;
    }
    assert(text_of(parts@)[0] == parts@[0]@);
    let reported = trim_string(parts[0].as_str());
    if !is_current(reported.as_str(), current, current_name, same) {
        return None;
    }
    let (severity, message, code) = h;
    let s = span(lines, i, &parts, severity);
    let original = line_number_of(&parts);
    let (related, infos) = context(lines, i, &code);
    let d = Diagnostic {
        message,
        severity,
        span: s,
        related_info: related,
        additional_info: infos,
        file_path: reported,
        original_line_number: original,
    };
    Some(d)
}

/// The path that the location line below line `i` reports, when line `i`
/// starts a diagnostic.
pub open spec fn reported_path_at(lines: Seq<Seq<char>>, i: int) -> Option<Seq<char>> {
    let line = trim(lines[i]);
    if line.len() == 0 || header_of(line) is None || i + 1 >= lines.len() || location_parts(lines[i + 1]) is None
        || location_parts(lines[i + 1]).unwrap().len() == 0 {
        None
    } else {
        Some(trim(location_parts(lines[i + 1]).unwrap()[0]))
    }
}

/// The paths reported below the diagnostics that start in the first `n` lines.
pub open spec fn reported_paths_upto(lines: Seq<Seq<char>>, n: int) -> Seq<Seq<char>>
    decreases n,
{
    if n <= 0 {
        Seq::empty()
    } else {
        let prev = reported_paths_upto(lines, n - 1);
        match reported_path_at(lines, n - 1) {
            Some(p) => prev.push(p),
            None => prev,
        }
    }
}

/// The paths that cargo's output `output` reports for its diagnostics, in
/// order: the paths whose comparison with the current file
/// [`DiagnosticCollection::parse_cargo_output`] asks for.
pub fn reported_paths(output: &str) -> (r: Vec<String>)
    ensures
        text_of(r@) == reported_paths_upto(std_lines(output@), std_lines(output@).len() as int),
{
    let lines = std_lines_of(output);
    let ghost t = text_of(lines@);
    let mut r: Vec<String> = Vec::new();
    let mut i: usize = 0;
    assert(text_of(r@) =~= Seq::<Seq<char>>::empty());
    while i < lines.len()
        invariant
            i <= lines@.len(),
            t == text_of(lines@),
            t == std_lines(output@),
            text_of(r@) == reported_paths_upto(t, i as int),
        decreases lines.len() - i,
    {
        assert(t[i as int] == lines@[i as int]@);
        let line = trim_string(lines[i].as_str());
        let ghost before = r@;
        if char_len(line.as_str()) > 0 && lines.len() - i > 1 {
            assert(t[i + 1] == lines@[i + 1]@);
            match header(line.as_str()) {
                Some(_) => match location(lines[i + 1].as_str()) {
                    Some(parts) => {
                        if parts.len() > 0 {
                            assert(text_of(parts@)[0] == parts@[0]@);
                            let p = trim_string(parts[0].as_str());
                            r.push(p);
                            assert(text_of(r@) =~= text_of(before).push(p@));
                        }
                    },
                    None => {},
                },
                None => {},
            }
        }
        i += 1;
    }
    r
}

impl DiagnosticCollection {
    /// The diagnostics of the file at `current_file_path` in `output`, what
    /// cargo printed (see the module documentation and [`cargo_diagnostics`]),
    /// replacing the collection's. `current_file_name` is the file name of
    /// that file's canonical path, and `same_file` tells, for each path that
    /// cargo reported, whether it names the same file.
    pub fn parse_cargo_output(
        self,
        output: &str,
        current_file_path: &str,
        current_file_name: &str,
        same_file: &Vec<(String, bool)>,
    ) -> (r: Self)
        ensures
            models_by_line(r.by_line()) == cargo_diagnostics(
                output@,
                current_file_path@,
                current_file_name@,
                same_table(same_file@),
            ),
    {
        let mut result = self;
        result.clear();
        let lines = std_lines_of(output);
        let ghost t = text_of(lines@);
        let ghost cur = current_file_path@;
        let ghost name = current_file_name@;
        let ghost same = same_table(same_file@);
        let mut i: usize = 0;
        assert(models_by_line(result.by_line()) =~= grouped(Seq::empty()));
        while i < lines.len()
            invariant
                i <= lines@.len(),
                t == text_of(lines@),
                t == std_lines(output@),
                cur == current_file_path@,
                name == current_file_name@,
                same == same_table(same_file@),
                models_by_line(result.by_line()) == grouped(diagnostics_upto(t, i as int, cur, name, same)),
            decreases lines.len() - i,
        {
            match parse_at(&lines, i, current_file_path, current_file_name, same_file) {
                Some(d) => {
                    let ghost m = result.by_line();
                    let ghost dm = d@;
                    let ghost dd = d;
                    result.add_diagnostic(d);
                    proof {
                        lemma_models_added(m, dd);
                        let prev = diagnostics_upto(t, i as int, cur, name, same);
                        assert(diagnostics_upto(t, i + 1, cur, name, same) == prev.push(dm));
                        assert(prev.push(dm).drop_last() =~= prev);
                    }
                },
                None => {},
            }
            i += 1;
        }
        result
    }
}

/// Adding a diagnostic adds its content.
proof fn lemma_models_added(m: Map<usize, Seq<Diagnostic>>, d: Diagnostic)
    ensures
        models_by_line(with_added(m, d)) == model_added(models_by_line(m), d@),
{
    let line = d.span.line;
    let a = models_by_line(with_added(m, d));
    let b = model_added(models_by_line(m), d@);
    assert forall|k: usize| #[trigger] a.contains_key(k) <==> b.contains_key(k) by {}
    assert forall|k: usize| a.contains_key(k) implies #[trigger] a[k] == b[k] by {
        if k == line {
            let old_seq = if m.contains_key(line) {
                m[line]
            } else {
                Seq::empty()
            };
            assert(old_seq.push(d).map_values(|x: Diagnostic| x@) =~= old_seq.map_values(
                |x: Diagnostic| x@,
            ).push(d@));
            if !m.contains_key(line) {
                assert(Seq::<Diagnostic>::empty().map_values(|x: Diagnostic| x@) =~= Seq::<
                    DiagnosticModel,
                >::empty());
            }
        }
    }
    assert(a =~= b);
}

} // verus!
