//! The parts of the screen around the text: the tab bar, the status line,
//! the file finder, the file-name prompt and the help page.

use vstd::prelude::*;
use super::{Colour, Look, Piece, plain_look, fg_look, bold_look, italic_look, pieces_of};
use super::text_area::PieceModel;
use crate::editor::{Editor, FileFinder, Mode, Tab};
use crate::editor::file_finder::{FileFinderModel, matches_of};
use crate::editor::diagnostics::{diagnostics_in_order, enumerates, passes, Diagnostic, DiagnosticFilter};
use crate::editor::syntax::{file_name_of, path_file_name};
use crate::editor::tab::{is_untitled, untitled};
use crate::text::{char_len, concat, decimal, decimal_string, decimal_string_wide, string_of};

verus! {

/// Text in bold, without colour.
pub open spec fn emphasis_look() -> Look {
    Look { fg: None, bg: None, bold: true, italic: false, underline: false }
}

/// The file name of `p` where the path has one.
pub open spec fn file_name_or(p: Seq<char>, other: Seq<char>) -> Seq<char> {
    match path_file_name(p) {
        Some(n) => n,
        None => other,
    }
}

/// The title of tab `idx` (from 0) with the file path `path`: the file name
/// where the path has a `/`, else the path itself; `untitled-` and the tab's
/// number for a tab without a path.
pub open spec fn tab_title(path: Option<String>, idx: nat) -> Seq<char> {
    match path {
        Some(p) => if p@.contains('/') { file_name_or(p@, p@) } else { p@ },
        None => "untitled-"@ + decimal(idx + 1),
    }
}

/// The label of tab `idx`: its function key (for the first twelve) and its title.
pub open spec fn tab_label(path: Option<String>, idx: nat) -> Seq<char> {
    " "@ + (if idx < 12 { "F"@ + decimal(idx + 1) + " "@ } else { Seq::empty() }) + tab_title(path, idx) + " "@
}

/// The labels of `tabs`, the current one in bold yellow.
pub open spec fn tab_labels(tabs: Seq<Tab>, current: int) -> Seq<PieceModel> {
    Seq::new(
        tabs.len(),
        |i: int|
            (
                tab_label(tabs[i].buffer.file_path, i as nat),
                if i == current { bold_look(Colour::Yellow) } else { plain_look() },
            ),
    )
}

/// `ps` with a plain ` | ` between each two.
pub open spec fn separated(ps: Seq<PieceModel>) -> Seq<PieceModel>
    decreases ps.len(),
{
    if ps.len() <= 1 {
        ps
    } else {
        separated(ps.drop_last()) + seq![(" | "@, plain_look()), ps.last()]
    }
}

/// The hint at the end of the tab bar.
pub open spec fn tab_hint() -> Seq<char> {
    " (Ctrl+n: New, Ctrl+w: Close, F1-F12: Direct access, Ctrl+left/right: Prev/Next) "@
}

/// The tab bar: the number of tabs in bold red, the tabs' labels, and the hint
/// in dark grey.
pub open spec fn tab_bar_pieces(e: Editor) -> Seq<PieceModel> {
    seq![(" ["@ + decimal(e.tabs@.len()) + "] "@, bold_look(Colour::Red))] + separated(
        tab_labels(e.tabs@, e.current_tab as int),
    ) + seq![(tab_hint(), fg_look(Colour::DarkGray))]
}

/// Whether `s` holds `c`.
fn has_char(s: &str, c: char) -> (r: bool)
    ensures
        r == s@.contains(c),
{
    let v = crate::text::chars_of(s);
    let mut i: usize = 0;
    while i < v.len()
        invariant
            i <= v@.len(),
            v@ == s@,
            forall|k: int| 0 <= k < i ==> v@[k] != c,
        decreases v.len() - i,
    {
        if v[i] == c {
            assert(s@[i as int] == c);
            return true;
        }
        i += 1;
    }
    false
}

/// The title of tab `idx` (see [`tab_title`]).
fn tab_title_of(path: &Option<String>, idx: usize) -> (r: String)
    requires
        idx < usize::MAX,
    ensures
        r@ == tab_title(*path, idx as nat),
{
    match path {
        Some(p) => {
            if has_char(p.as_str(), '/') {
                match file_name_of(p.as_str()) {
                    Some(n) => n,
                    None => p.clone(),
                }
            } else {
                p.clone()
            }
        },
        None => concat("untitled-", decimal_string(idx + 1).as_str()),
    }
}

/// The label of tab `idx` (see [`tab_label`]).
fn tab_label_of(path: &Option<String>, idx: usize) -> (r: String)
    requires
        idx < usize::MAX,
    ensures
        r@ == tab_label(*path, idx as nat),
{
    let key = if idx < 12 {
        concat(concat("F", decimal_string(idx + 1).as_str()).as_str(), " ")
    } else {
        String::new()
    };
    let title = tab_title_of(path, idx);
    let r = concat(concat(concat(" ", key.as_str()).as_str(), title.as_str()).as_str(), " ");
    assert(r@ =~= tab_label(*path, idx as nat));
    r
}

/// The tab bar (see [`tab_bar_pieces`]).
pub fn tab_bar(editor: &Editor) -> (r: Vec<Piece>)
    requires
        editor.wf(),
    ensures
        pieces_of(r@) == tab_bar_pieces(*editor),
{
    let n = editor.tabs.len();
    let mut r: Vec<Piece> = Vec::new();
    r.push(
        Piece::new(concat(concat(" [", decimal_string(n).as_str()).as_str(), "] "), Look::bold(Colour::Red)),
    );
    let ghost head = pieces_of(r@);
    let ghost labels = tab_labels(editor.tabs@, editor.current_tab as int);
    let mut i: usize = 0;
    while i < n
        invariant
            i <= n,
            n == editor.tabs@.len(),
            n > 0,
            labels == tab_labels(editor.tabs@, editor.current_tab as int),
            pieces_of(r@) == head + separated(labels.take(i as int)),
        decreases n - i,
    {
        let look = if i == editor.current_tab { Look::bold(Colour::Yellow) } else { Look::plain() };
        let label = tab_label_of(&editor.tabs[i].buffer.file_path, i);
        assert((label@, look) == labels[i as int]);
        let ghost before = pieces_of(r@);
        if i > 0 {
            r.push(Piece::new(" | ".to_owned(), Look::plain()));
        }
        r.push(Piece::new(label, look));
        proof {
            assert(labels.take(i + 1).drop_last() =~= labels.take(i as int));
            if i > 0 {
                assert(pieces_of(r@) =~= before + seq![(" | "@, plain_look()), labels[i as int]]);
            } else {
                assert(labels.take(1) =~= seq![labels[0]]);
                assert(pieces_of(r@) =~= before + seq![labels[0]]);
            }
        }
        i += 1;
    }
    assert(labels.take(n as int) =~= labels);
    let ghost before = pieces_of(r@);
    r.push(
        Piece::new(
            " (Ctrl+n: New, Ctrl+w: Close, F1-F12: Direct access, Ctrl+left/right: Prev/Next) ".to_owned(),
            Look::fg(Colour::DarkGray),
        ),
    );
    assert(pieces_of(r@) =~= before.push((tab_hint(), fg_look(Colour::DarkGray))));
    r
}

/// The name of `mode` in the status line; the command being typed follows
/// `:`, and the file name being typed follows `FILENAME: `.
pub open spec fn mode_text(mode: Mode, command: Seq<char>, file_name: Seq<char>) -> Seq<char> {
    match mode {
        Mode::Normal => "NORMAL"@,
        Mode::Insert => "INSERT"@,
        Mode::Command => ":"@ + command,
        Mode::FileFinder => "FILE FINDER"@,
        Mode::Help => "HELP"@,
        Mode::WriteConfirm => "WRITE? (y/n/q)"@,
        Mode::ReloadConfirm => "RELOAD? (y/n)"@,
        Mode::FilenamePrompt => "FILENAME: "@ + file_name,
        Mode::Visual => "VISUAL"@,
        Mode::VisualLine => "VISUAL LINE"@,
        Mode::TokenSearch => "TOKEN SEARCH"@,
        Mode::DiagnosticsPanel => "DIAGNOSTICS"@,
        Mode::Snake => "SNAKE"@,
        Mode::Delete => "DELETE"@,
    }
}

/// The name of `mode` in the status line (see [`mode_text`]).
pub fn mode_text_of(mode: Mode, command: &str, file_name: &str) -> (r: String)
    ensures
        r@ == mode_text(mode, command@, file_name@),
{
    match mode {
        Mode::Normal => "NORMAL".to_owned(),
        Mode::Insert => "INSERT".to_owned(),
        Mode::Command => concat(":", command),
        Mode::FileFinder => "FILE FINDER".to_owned(),
        Mode::Help => "HELP".to_owned(),
        Mode::WriteConfirm => "WRITE? (y/n/q)".to_owned(),
        Mode::ReloadConfirm => "RELOAD? (y/n)".to_owned(),
        Mode::FilenamePrompt => concat("FILENAME: ", file_name),
        Mode::Visual => "VISUAL".to_owned(),
        Mode::VisualLine => "VISUAL LINE".to_owned(),
        Mode::TokenSearch => "TOKEN SEARCH".to_owned(),
        Mode::DiagnosticsPanel => "DIAGNOSTICS".to_owned(),
        Mode::Snake => "SNAKE".to_owned(),
        Mode::Delete => "DELETE".to_owned(),
    }
}

/// How far the view of a tab is scrolled, in percent of its lines.
pub open spec fn scrolled_percent(top: nat, total: nat) -> nat {
    if total > 0 { (top * 100) / total } else { 0 }
}

/// The count of diagnostics of `m`, taken in the order `ks`, that pass `f`.
pub open spec fn count_passing(m: Map<usize, Seq<Diagnostic>>, ks: Seq<usize>, f: DiagnosticFilter) -> nat {
    diagnostics_in_order(m, ks).filter(|d: Diagnostic| passes(f, d)).len()
}

/// The errors and warnings in the status line, where there are any.
pub open spec fn problems_text(errors: nat, warnings: nat) -> Seq<char> {
    if errors > 0 || warnings > 0 {
        " | ❌ "@ + decimal(errors) + " ⚠️ "@ + decimal(warnings)
    } else {
        Seq::empty()
    }
}

/// The path of the file written or reloaded, in a confirmation.
pub open spec fn confirmed_path(path: Option<String>, writing: bool) -> Seq<char> {
    match path {
        Some(p) => if writing && untitled(p@) { "No filename specified"@ } else { p@ },
        None => "No filename specified"@,
    }
}

/// The status line of `e`, with `errors` errors and `warnings` warnings in
/// the current tab: the mode, then what the mode asks for; in the other
/// modes the file name, the tab, the cursor's line and column, how far the
/// view is scrolled, and the counts of errors and warnings.
pub open spec fn status_text(e: Editor, errors: nat, warnings: nat) -> Seq<char> {
    let t = e.tab();
    let m = mode_text(e.mode, e.command_text@, e.filename_prompt_text@);
    match e.mode {
        Mode::FileFinder => m + " | Press Enter to select, Esc to cancel"@,
        Mode::FilenamePrompt => m + " | Press Enter to save, Esc to cancel"@,
        Mode::WriteConfirm => m + " | Save file: "@ + confirmed_path(t.buffer.file_path, true) + " | "@ + decimal(
            t.buffer.modified_lines@.len(),
        ) + " modified lines | Press Y to confirm, N to cancel, Q to quit without saving"@,
        Mode::ReloadConfirm => m + " | Reload file: "@ + confirmed_path(t.buffer.file_path, false) + " | "@
            + decimal(e.diff_lines@.len()) + " changed lines | Press Y to confirm, N to cancel"@,
        _ => m + " | "@ + (match t.buffer.file_path {
            Some(p) => file_name_or(p@, "untitled"@),
            None => "untitled"@,
        }) + " | Tab "@ + decimal((e.current_tab + 1) as nat) + "/"@ + decimal(e.tabs@.len()) + " | Ln: "@ + decimal(
            (t.cursor.y + 1) as nat,
        ) + "/"@ + decimal(t.buffer.lines@.len()) + " ("@ + decimal(
            scrolled_percent(t.viewport.top_line as nat, t.buffer.lines@.len()),
        ) + "%), Col: "@ + decimal((t.cursor.x + 1) as nat) + problems_text(errors, warnings),
    }
}

/// The path of the file written or reloaded (see [`confirmed_path`]).
fn confirmed_path_of(path: &Option<String>, writing: bool) -> (r: String)
    ensures
        r@ == confirmed_path(*path, writing),
{
    match path {
        Some(p) => if writing && is_untitled(p.as_str()) {
            "No filename specified".to_owned()
        } else {
            p.clone()
        },
        None => "No filename specified".to_owned(),
    }
}

/// The status line of the modes that show where the cursor is (see
/// [`status_text`]), with `errors` errors and `warnings` warnings.
fn position_status(editor: &Editor, m: String, errors: usize, warnings: usize) -> (r: String)
    requires
        editor.wf(),
        m@ == mode_text(editor.mode, editor.command_text@, editor.filename_prompt_text@),
    ensures
        r@ == m@ + " | "@ + (match editor.tab().buffer.file_path {
            Some(p) => file_name_or(p@, "untitled"@),
            None => "untitled"@,
        }) + " | Tab "@ + decimal((editor.current_tab + 1) as nat) + "/"@ + decimal(editor.tabs@.len())
            + " | Ln: "@ + decimal((editor.tab().cursor.y + 1) as nat) + "/"@ + decimal(
            editor.tab().buffer.lines@.len(),
        ) + " ("@ + decimal(
            scrolled_percent(editor.tab().viewport.top_line as nat, editor.tab().buffer.lines@.len()),
        ) + "%), Col: "@ + decimal((editor.tab().cursor.x + 1) as nat) + problems_text(errors as nat, warnings as nat),
{
    let tab = editor.current_tab();
    let n = editor.tabs.len();
    let file_info = match &tab.buffer.file_path {
        Some(p) => match file_name_of(p.as_str()) {
            Some(f) => f,
            None => "untitled".to_owned(),
        },
        None => "untitled".to_owned(),
    };
    let total = tab.buffer.line_count();
    let percent: u128 = if total > 0 {
        (tab.viewport.top_line as u128 * 100) / (total as u128)
    } else {
        0
    };
    assert(percent == scrolled_percent(tab.viewport.top_line as nat, total as nat));
    let problems = if errors > 0 || warnings > 0 {
        concat(
            concat(concat(" | ❌ ", decimal_string(errors).as_str()).as_str(), " ⚠️ ").as_str(),
            decimal_string(warnings).as_str(),
        )
    } else {
        String::new()
    };
    let r = concat(m.as_str(), " | ");
    let r = concat(r.as_str(), file_info.as_str());
    let r = concat(r.as_str(), " | Tab ");
    let r = concat(r.as_str(), decimal_string(editor.current_tab + 1).as_str());
    let r = concat(r.as_str(), "/");
    let r = concat(r.as_str(), decimal_string(n).as_str());
    let r = concat(r.as_str(), " | Ln: ");
    let r = concat(r.as_str(), decimal_string_wide(tab.cursor.y as u128 + 1).as_str());
    let r = concat(r.as_str(), "/");
    let r = concat(r.as_str(), decimal_string(total).as_str());
    let r = concat(r.as_str(), " (");
    let r = concat(r.as_str(), decimal_string_wide(percent).as_str());
    let r = concat(r.as_str(), "%), Col: ");
    let r = concat(r.as_str(), decimal_string_wide(tab.cursor.x as u128 + 1).as_str());
    let r = concat(r.as_str(), problems.as_str());
    r
}

/// The status line of the write confirmation (see [`status_text`]).
fn write_status(editor: &Editor, m: String) -> (r: String)
    requires
        editor.wf(),
    ensures
        r@ == m@ + " | Save file: "@ + confirmed_path(editor.tab().buffer.file_path, true) + " | "@ + decimal(
            editor.tab().buffer.modified_lines@.len(),
        ) + " modified lines | Press Y to confirm, N to cancel, Q to quit without saving"@,
{
    let tab = editor.current_tab();
    let r = concat(m.as_str(), " | Save file: ");
    let r = concat(r.as_str(), confirmed_path_of(&tab.buffer.file_path, true).as_str());
    let r = concat(r.as_str(), " | ");
    let r = concat(r.as_str(), decimal_string(tab.buffer.modified_lines.len()).as_str());
    concat(r.as_str(), " modified lines | Press Y to confirm, N to cancel, Q to quit without saving")
}

/// The status line of the reload confirmation (see [`status_text`]).
fn reload_status(editor: &Editor, m: String) -> (r: String)
    requires
        editor.wf(),
    ensures
        r@ == m@ + " | Reload file: "@ + confirmed_path(editor.tab().buffer.file_path, false) + " | "@ + decimal(
            editor.diff_lines@.len(),
        ) + " changed lines | Press Y to confirm, N to cancel"@,
{
    let tab = editor.current_tab();
    let r = concat(m.as_str(), " | Reload file: ");
    let r = concat(r.as_str(), confirmed_path_of(&tab.buffer.file_path, false).as_str());
    let r = concat(r.as_str(), " | ");
    let r = concat(r.as_str(), decimal_string(editor.diff_lines.len()).as_str());
    concat(r.as_str(), " changed lines | Press Y to confirm, N to cancel")
}

/// The status line (see [`status_text`]); the counts of errors and warnings
/// are those of the current tab's diagnostics, taken in the order that the
/// collection yields them.
pub fn status_line(editor: &Editor) -> (r: String)
    requires
        editor.wf(),
    ensures
        exists|ks1: Seq<usize>, ks2: Seq<usize>|
            enumerates(editor.tab().diagnostics.by_line(), ks1) && enumerates(
                editor.tab().diagnostics.by_line(),
                ks2,
            ) && r@ == #[trigger] status_text(
                *editor,
                count_passing(editor.tab().diagnostics.by_line(), ks1, DiagnosticFilter::Errors),
                count_passing(editor.tab().diagnostics.by_line(), ks2, DiagnosticFilter::Warnings),
            ),
{
    let tab = editor.current_tab();
    let m = mode_text_of(editor.mode, editor.command_text.as_str(), editor.filename_prompt_text.as_str());
    let errors = tab.diagnostics.error_count();
    let warnings = tab.diagnostics.warning_count();
    let ghost m_by = tab.diagnostics.by_line();
    let ghost ks1 = choose|ks: Seq<usize>|
        enumerates(m_by, ks) && errors == count_passing(m_by, ks, DiagnosticFilter::Errors);
    let ghost ks2 = choose|ks: Seq<usize>|
        enumerates(m_by, ks) && warnings == count_passing(m_by, ks, DiagnosticFilter::Warnings);
    let r = match editor.mode {
        Mode::FileFinder => concat(m.as_str(), " | Press Enter to select, Esc to cancel"),
        Mode::FilenamePrompt => concat(m.as_str(), " | Press Enter to save, Esc to cancel"),
        Mode::WriteConfirm => write_status(editor, m),
        Mode::ReloadConfirm => reload_status(editor, m),
        _ => position_status(editor, m, errors, warnings),
    };
    assert(r@ =~= status_text(*editor, errors as nat, warnings as nat));
    r
}

/// Rows of pieces as texts and looks.
pub open spec fn rows_of(v: Seq<Vec<Piece>>) -> Seq<Seq<PieceModel>> {
    v.map_values(|r: Vec<Piece>| pieces_of(r@))
}

/// A row of one piece.
pub open spec fn one_piece(t: Seq<char>, l: Look) -> Seq<PieceModel> {
    seq![(t, l)]
}

/// A row of one piece.
fn row(text: &str, look: Look) -> (r: Vec<Piece>)
    ensures
        pieces_of(r@) == one_piece(text@, look),
{
    let mut r: Vec<Piece> = Vec::new();
    r.push(Piece::new(text.to_owned(), look));
    assert(pieces_of(r@) =~= one_piece(text@, look));
    r
}

/// A row of two pieces.
fn row2(a: &str, la: Look, b: &str, lb: Look) -> (r: Vec<Piece>)
    ensures
        pieces_of(r@) == seq![(a@, la), (b@, lb)],
{
    let mut r: Vec<Piece> = Vec::new();
    r.push(Piece::new(a.to_owned(), la));
    r.push(Piece::new(b.to_owned(), lb));
    assert(pieces_of(r@) =~= seq![(a@, la), (b@, lb)]);
    r
}

/// How a file is listed in the file finder: its name, then its path in brackets.
pub open spec fn finder_entry(path: Seq<char>) -> Seq<char> {
    match path_file_name(path) {
        Some(n) => n + " ("@ + path + ")"@,
        None => path,
    }
}

/// The list of the file finder: its matches, the selected one in bold
/// yellow, or a message where there are none.
pub open spec fn finder_items(f: FileFinderModel) -> Seq<PieceModel> {
    if f.matches.len() == 0 && f.query.len() == 0 {
        seq![("No recent files. Type to search or press Esc to open a blank file."@, plain_look())]
    } else if f.matches.len() == 0 {
        seq![("No matching files found. Press Esc to cancel."@, plain_look())]
    } else {
        Seq::new(
            f.matches.len(),
            |i: int|
                (
                    finder_entry(f.matches[i].0),
                    if i == f.selected_index { bold_look(Colour::Yellow) } else { plain_look() },
                ),
        )
    }
}

/// The title of the file finder's list.
pub open spec fn finder_title(query: Seq<char>) -> Seq<char> {
    if query.len() == 0 { " Recent Files "@ } else { " Search Results "@ }
}

/// The greeting shown above an empty query.
pub open spec fn welcome_rows() -> Seq<Seq<PieceModel>> {
    seq![
        seq![("Welcome to "@, fg_look(Colour::White)), ("ZIM Editor"@, bold_look(Colour::LightCyan))],
        one_piece(""@, plain_look()),
        one_piece("Type to search for files or use arrow keys to navigate"@, fg_look(Colour::Gray)),
    ]
}

/// The file finder as drawn: the greeting (over an empty query), the query
/// with the cursor after it, the list with its title, and a line of help.
pub struct FinderView {
    pub welcome: Vec<Vec<Piece>>,
    pub query: String,
    pub cursor_column: usize,
    pub list_title: String,
    pub items: Vec<Piece>,
    pub help: String,
}

/// The file finder's line of help.
pub open spec fn finder_help() -> Seq<char> {
    "Enter: open in current tab, Ctrl+Enter: open in new tab, Esc: normal mode, Ctrl+n: new file"@
}

/// How a file is listed (see [`finder_entry`]).
fn finder_entry_of(path: &String) -> (r: String)
    ensures
        r@ == finder_entry(path@),
{
    match file_name_of(path.as_str()) {
        Some(n) => concat(concat(concat(n.as_str(), " (").as_str(), path.as_str()).as_str(), ")"),
        None => path.clone(),
    }
}

/// The file finder as drawn.
pub fn finder_view(f: &FileFinder) -> (v: FinderView)
    ensures
        v.query@ == f@.query,
        v.cursor_column == f@.query.len(),
        v.list_title@ == finder_title(f@.query),
        pieces_of(v.items@) == finder_items(f@),
        rows_of(v.welcome@) == (if f@.query.len() == 0 { welcome_rows() } else { Seq::empty() }),
        v.help@ == finder_help(),
{
    let query = f.query();
    let qlen = char_len(query);
    let matches = f.matches();
    let selected = f.selected_index();
    let mut welcome: Vec<Vec<Piece>> = Vec::new();
    if qlen == 0 {
        welcome.push(row2("Welcome to ", Look::fg(Colour::White), "ZIM Editor", Look::bold(Colour::LightCyan)));
        welcome.push(row("", Look::plain()));
        welcome.push(row("Type to search for files or use arrow keys to navigate", Look::fg(Colour::Gray)));
    }
    assert(rows_of(welcome@) =~= (if f@.query.len() == 0 { welcome_rows() } else { Seq::empty() }));
    let mut items: Vec<Piece> = Vec::new();
    if matches.len() == 0 {
        if qlen == 0 {
            items.push(
                Piece::new(
                    "No recent files. Type to search or press Esc to open a blank file.".to_owned(),
                    Look::plain(),
                ),
            );
        } else {
            items.push(Piece::new("No matching files found. Press Esc to cancel.".to_owned(), Look::plain()));
        }
        assert(pieces_of(items@) =~= finder_items(f@));
    } else {
        let mut i: usize = 0;
        while i < matches.len()
            invariant
                i <= matches@.len(),
                matches_of(matches@) == f@.matches,
                selected == f@.selected_index,
                pieces_of(items@) =~= finder_items(f@).take(i as int),
                f@.matches.len() > 0,
            decreases matches.len() - i,
        {
            let look = if i == selected { Look::bold(Colour::Yellow) } else { Look::plain() };
            let entry = finder_entry_of(&matches[i].0);
            assert(f@.matches[i as int].0 == matches@[i as int].0@);
            let ghost before = pieces_of(items@);
            items.push(Piece::new(entry, look));
            assert(pieces_of(items@) =~= before.push(finder_items(f@)[i as int]));
            i += 1;
        }
        assert(finder_items(f@).take(matches@.len() as int) =~= finder_items(f@));
    }
    let list_title = if qlen == 0 { " Recent Files ".to_owned() } else { " Search Results ".to_owned() };
    FinderView {
        welcome,
        query: query.to_owned(),
        cursor_column: qlen,
        list_title,
        items,
        help: "Enter: open in current tab, Ctrl+Enter: open in new tab, Esc: normal mode, Ctrl+n: new file".to_owned(),
    }
}

/// The rows of the file-name prompt for the name `text`; where the editor
/// quits after saving, two rows more say so.
pub open spec fn prompt_rows(text: Seq<char>, quitting: bool) -> Seq<Seq<PieceModel>> {
    seq![
        one_piece(""@, plain_look()),
        one_piece("Please enter a filename to save:"@, emphasis_look()),
        one_piece(""@, plain_look()),
        one_piece("> "@ + text, fg_look(Colour::Green)),
        one_piece(""@, plain_look()),
        one_piece("Press Enter to save, Esc to cancel"@, fg_look(Colour::DarkGray)),
    ] + if quitting {
        seq![one_piece(""@, plain_look()), one_piece("Editor will exit after saving"@, fg_look(Colour::Yellow))]
    } else {
        Seq::empty()
    }
}

/// The rows of the file-name prompt (see [`prompt_rows`]).
pub fn prompt_view(editor: &Editor) -> (r: Vec<Vec<Piece>>)
    ensures
        rows_of(r@) == prompt_rows(editor.filename_prompt_text@, editor.save_and_quit),
{
    let mut r: Vec<Vec<Piece>> = Vec::new();
    r.push(row("", Look::plain()));
    r.push(row("Please enter a filename to save:", Look { fg: None, bg: None, bold: true, italic: false, underline: false }));
    r.push(row("", Look::plain()));
    let typed = concat("> ", editor.filename_prompt_text.as_str());
    r.push(row(typed.as_str(), Look::fg(Colour::Green)));
    r.push(row("", Look::plain()));
    r.push(row("Press Enter to save, Esc to cancel", Look::fg(Colour::DarkGray)));
    if editor.save_and_quit {
        r.push(row("", Look::plain()));
        r.push(row("Editor will exit after saving", Look::fg(Colour::Yellow)));
    }
    assert(rows_of(r@) =~= prompt_rows(editor.filename_prompt_text@, editor.save_and_quit));
    r
}

/// The column of the prompt's cursor, after the typed name, in an inside
/// `inner_width` wide where the prompt is centred; `typed` is the length of
/// the typed name. It is placed as if the name and the two characters before
/// it were centred.
pub fn prompt_cursor_column(inner_width: usize, typed: usize) -> (c: usize)
    requires
        typed + 2 <= inner_width,
    ensures
        c == (inner_width - 2 - typed) / 2 + 2 + typed,
{
    (inner_width - 2 - typed) / 2 + 2 + typed
}

/// Bold text without colour.
fn emphasis() -> (l: Look)
    ensures
        l == emphasis_look(),
{
    Look { fg: None, bg: None, bold: true, italic: false, underline: false }
}

/// The help page's title.
pub open spec fn title_rows() -> Seq<Seq<PieceModel>> {
    seq![
        one_piece("╔══════════════════════════════════════╗"@, fg_look(Colour::Yellow)),
        one_piece("║       ZIM EDITOR HELP GUIDE          ║"@, bold_look(Colour::Yellow)),
        one_piece("╚══════════════════════════════════════╝"@, fg_look(Colour::Yellow)),
        one_piece(""@, plain_look()),
    ]
}

fn title_rows_of() -> (r: Vec<Vec<Piece>>)
    ensures
        rows_of(r@) == title_rows(),
{
    let mut r: Vec<Vec<Piece>> = Vec::new();
    r.push(row("╔══════════════════════════════════════╗", Look::fg(Colour::Yellow)));
    r.push(row("║       ZIM EDITOR HELP GUIDE          ║", Look::bold(Colour::Yellow)));
    r.push(row("╚══════════════════════════════════════╝", Look::fg(Colour::Yellow)));
    r.push(row("", Look::plain()));
    assert(rows_of(r@) =~= title_rows());
    r
}

/// The normal-mode heading and keys for moving, editing, switching modes, tabs and files.
pub open spec fn normal_mode_rows() -> Seq<Seq<PieceModel>> {
    seq![
        one_piece("┏━━━━━━━━━━━━━━━━━━━━━┓"@, fg_look(Colour::Green)),
        one_piece("┃     NORMAL MODE     ┃"@, bold_look(Colour::Green)),
        one_piece("┗━━━━━━━━━━━━━━━━━━━━━┛"@, fg_look(Colour::Green)),
        one_piece(""@, plain_look()),
        one_piece("➤ Basic Navigation:"@, emphasis_look()),
        one_piece("h, j, k, l - Move left, down, up, right"@, plain_look()),
        one_piece("^ - Move to start of line"@, plain_look()),
        one_piece("$ - Move to end of line"@, plain_look()),
        one_piece("g - Move to top of file"@, plain_look()),
        one_piece("G - Move to bottom of file"@, plain_look()),
        one_piece("Ctrl+b - Page up"@, plain_look()),
        one_piece("Ctrl+f - Page down"@, plain_look()),
        one_piece(""@, plain_look()),
        one_piece("➤ Editing:"@, emphasis_look()),
        one_piece("d - Delete current line"@, plain_look()),
        one_piece("x - Delete character at cursor and enter insert mode"@, plain_look()),
        one_piece("Backspace - In insert mode at line start, joins with previous line"@, plain_look()),
        one_piece(""@, plain_look()),
    ]
}

fn normal_mode_rows_of() -> (r: Vec<Vec<Piece>>)
    ensures
        rows_of(r@) == normal_mode_rows(),
{
    let mut r: Vec<Vec<Piece>> = Vec::new();
    r.push(row("┏━━━━━━━━━━━━━━━━━━━━━┓", Look::fg(Colour::Green)));
    r.push(row("┃     NORMAL MODE     ┃", Look::bold(Colour::Green)));
    r.push(row("┗━━━━━━━━━━━━━━━━━━━━━┛", Look::fg(Colour::Green)));
    r.push(row("", Look::plain()));
    r.push(row("➤ Basic Navigation:", emphasis()));
    r.push(row("h, j, k, l - Move left, down, up, right", Look::plain()));
    r.push(row("^ - Move to start of line", Look::plain()));
    r.push(row("$ - Move to end of line", Look::plain()));
    r.push(row("g - Move to top of file", Look::plain()));
    r.push(row("G - Move to bottom of file", Look::plain()));
    r.push(row("Ctrl+b - Page up", Look::plain()));
    r.push(row("Ctrl+f - Page down", Look::plain()));
    r.push(row("", Look::plain()));
    r.push(row("➤ Editing:", emphasis()));
    r.push(row("d - Delete current line", Look::plain()));
    r.push(row("x - Delete character at cursor and enter insert mode", Look::plain()));
    r.push(row("Backspace - In insert mode at line start, joins with previous line", Look::plain()));
    r.push(row("", Look::plain()));
    assert(rows_of(r@) =~= normal_mode_rows());
    r
}

/// Keys for switching modes, tabs and files.
pub open spec fn mode_and_tab_rows() -> Seq<Seq<PieceModel>> {
    seq![
        one_piece("➤ Mode Switching:"@, emphasis_look()),
        one_piece("i - Enter Insert mode"@, plain_look()),
        one_piece(": - Enter Command mode"@, plain_look()),
        one_piece("ESC - Return to Normal mode (from any mode)"@, plain_look()),
        one_piece(""@, plain_look()),
        one_piece("➤ Tab Management:"@, emphasis_look()),
        one_piece("Ctrl+n - New tab"@, plain_look()),
        one_piece("Ctrl+w - Close tab"@, plain_look()),
        one_piece("Ctrl+right - Next tab"@, plain_look()),
        one_piece("Ctrl+left - Previous tab"@, plain_look()),
        one_piece("F1-F12 - Switch directly to tabs 1-12"@, plain_look()),
        one_piece(""@, plain_look()),
        one_piece("➤ File Operations:"@, emphasis_look()),
        one_piece("Ctrl+p - Find file"@, plain_look()),
        one_piece("q - Quit (in normal mode)"@, plain_look()),
        one_piece(""@, plain_look()),
    ]
}

fn mode_and_tab_rows_of() -> (r: Vec<Vec<Piece>>)
    ensures
        rows_of(r@) == mode_and_tab_rows(),
{
    let mut r: Vec<Vec<Piece>> = Vec::new();
    r.push(row("➤ Mode Switching:", emphasis()));
    r.push(row("i - Enter Insert mode", Look::plain()));
    r.push(row(": - Enter Command mode", Look::plain()));
    r.push(row("ESC - Return to Normal mode (from any mode)", Look::plain()));
    r.push(row("", Look::plain()));
    r.push(row("➤ Tab Management:", emphasis()));
    r.push(row("Ctrl+n - New tab", Look::plain()));
    r.push(row("Ctrl+w - Close tab", Look::plain()));
    r.push(row("Ctrl+right - Next tab", Look::plain()));
    r.push(row("Ctrl+left - Previous tab", Look::plain()));
    r.push(row("F1-F12 - Switch directly to tabs 1-12", Look::plain()));
    r.push(row("", Look::plain()));
    r.push(row("➤ File Operations:", emphasis()));
    r.push(row("Ctrl+p - Find file", Look::plain()));
    r.push(row("q - Quit (in normal mode)", Look::plain()));
    r.push(row("", Look::plain()));
    assert(rows_of(r@) =~= mode_and_tab_rows());
    r
}

/// The commands that normal mode runs directly.
pub open spec fn direct_command_rows() -> Seq<Seq<PieceModel>> {
    seq![
        one_piece("┏━━━━━━━━━━━━━━━━━━━━━━━━━━━━━━━━━━━━━━━━┓"@, fg_look(Colour::Cyan)),
        one_piece("┃    DIRECT COMMANDS (Normal Mode)       ┃"@, bold_look(Colour::Cyan)),
        one_piece("┗━━━━━━━━━━━━━━━━━━━━━━━━━━━━━━━━━━━━━━━━┛"@, fg_look(Colour::Cyan)),
        seq![("w"@, bold_look(Colour::Green)), ("         - Save current file (prompts for confirmation, highlights changes)"@, plain_look())],
        seq![("e"@, bold_look(Colour::Yellow)), ("         - Reload current file from disk (prompts with diff highlighting)"@, plain_look())],
        seq![("X or ZZ"@, bold_look(Colour::Green)), ("    - Save and quit (prompts for confirmation)"@, plain_look())],
        seq![("q"@, bold_look(Colour::Green)), ("         - Quit"@, plain_look())],
        seq![(":q!"@, bold_look(Colour::Green)), ("       - Force quit (discard changes)"@, plain_look())],
        one_piece(""@, plain_look()),
    ]
}

fn direct_command_rows_of() -> (r: Vec<Vec<Piece>>)
    ensures
        rows_of(r@) == direct_command_rows(),
{
    let mut r: Vec<Vec<Piece>> = Vec::new();
    r.push(row("┏━━━━━━━━━━━━━━━━━━━━━━━━━━━━━━━━━━━━━━━━┓", Look::fg(Colour::Cyan)));
    r.push(row("┃    DIRECT COMMANDS (Normal Mode)       ┃", Look::bold(Colour::Cyan)));
    r.push(row("┗━━━━━━━━━━━━━━━━━━━━━━━━━━━━━━━━━━━━━━━━┛", Look::fg(Colour::Cyan)));
    r.push(row2("w", Look::bold(Colour::Green), "         - Save current file (prompts for confirmation, highlights changes)", Look::plain()));
    r.push(row2("e", Look::bold(Colour::Yellow), "         - Reload current file from disk (prompts with diff highlighting)", Look::plain()));
    r.push(row2("X or ZZ", Look::bold(Colour::Green), "    - Save and quit (prompts for confirmation)", Look::plain()));
    r.push(row2("q", Look::bold(Colour::Green), "         - Quit", Look::plain()));
    r.push(row2(":q!", Look::bold(Colour::Green), "       - Force quit (discard changes)", Look::plain()));
    r.push(row("", Look::plain()));
    assert(rows_of(r@) =~= direct_command_rows());
    r
}

/// Cargo, help, and the footer.
pub open spec fn closing_rows() -> Seq<Seq<PieceModel>> {
    seq![
        one_piece("➤ Cargo Integration:"@, emphasis_look()),
        one_piece("Ctrl+d - Run cargo check"@, plain_look()),
        one_piece("Ctrl+y - Run cargo clippy"@, plain_look()),
        one_piece(""@, plain_look()),
        one_piece("➤ Help:"@, emphasis_look()),
        one_piece("Ctrl+h - Show this help page"@, plain_look()),
        one_piece("ESC or q - Exit help and return to normal mode"@, plain_look()),
        one_piece(""@, plain_look()),
        one_piece("════════════════════════════════════════"@, fg_look(Colour::Yellow)),
        one_piece("   Zim: A modern, fast text editor      "@, italic_look(Colour::Yellow)),
    ]
}

fn closing_rows_of() -> (r: Vec<Vec<Piece>>)
    ensures
        rows_of(r@) == closing_rows(),
{
    let mut r: Vec<Vec<Piece>> = Vec::new();
    r.push(row("➤ Cargo Integration:", emphasis()));
    r.push(row("Ctrl+d - Run cargo check", Look::plain()));
    r.push(row("Ctrl+y - Run cargo clippy", Look::plain()));
    r.push(row("", Look::plain()));
    r.push(row("➤ Help:", emphasis()));
    r.push(row("Ctrl+h - Show this help page", Look::plain()));
    r.push(row("ESC or q - Exit help and return to normal mode", Look::plain()));
    r.push(row("", Look::plain()));
    r.push(row("════════════════════════════════════════", Look::fg(Colour::Yellow)));
    r.push(row("   Zim: A modern, fast text editor      ", Look::italic(Colour::Yellow)));
    assert(rows_of(r@) =~= closing_rows());
    r
}

/// The help page: the keys of normal mode and what they do.
pub open spec fn help_rows() -> Seq<Seq<PieceModel>> {
    title_rows() + normal_mode_rows() + mode_and_tab_rows() + direct_command_rows() + closing_rows()
}

/// The help page (see [`help_rows`]).
pub fn help_page() -> (r: Vec<Vec<Piece>>)
    ensures
        rows_of(r@) == help_rows(),
{
    let mut r: Vec<Vec<Piece>> = Vec::new();
    let ghost before = rows_of(r@);
    let mut part = title_rows_of();
    let ghost pv = rows_of(part@);
    r.append(&mut part);
    assert(rows_of(r@) =~= before + pv);
    let ghost before = rows_of(r@);
    let mut part = normal_mode_rows_of();
    let ghost pv = rows_of(part@);
    r.append(&mut part);
    assert(rows_of(r@) =~= before + pv);
    let ghost before = rows_of(r@);
    let mut part = mode_and_tab_rows_of();
    let ghost pv = rows_of(part@);
    r.append(&mut part);
    assert(rows_of(r@) =~= before + pv);
    let ghost before = rows_of(r@);
    let mut part = direct_command_rows_of();
    let ghost pv = rows_of(part@);
    r.append(&mut part);
    assert(rows_of(r@) =~= before + pv);
    let ghost before = rows_of(r@);
    let mut part = closing_rows_of();
    let ghost pv = rows_of(part@);
    r.append(&mut part);
    assert(rows_of(r@) =~= before + pv);
    r
}

} // verus!
