//! The text area: one row per visible line of the current tab, each a line
//! number followed by the line's text, marked where it changed, where a
//! diagnostic points, where it is selected, or by its syntax.

use vstd::prelude::*;
use super::{Colour, Look, Piece, ViewportUpdate, plain_look, fg_look, bold_look, italic_look, patched, pieces_of};
use crate::editor::{Buffer, Diagnostic, DiagnosticSeverity, Editor, HighlightedLine, Mode, Tab, TextStyle};
use crate::editor::buffer::position_selected;
use crate::editor::cursor::Cursor;
use crate::text::{char_len, chars_of, concat, decimal, decimal_string, find, find_text, push_char_to, spaces, string_of, substring};

verus! {

/// A piece as its text and look.
pub type PieceModel = (Seq<char>, Look);

/// `n` right-aligned in `width` columns, then a space.
pub open spec fn number_label(n: nat, width: nat) -> Seq<char> {
    let d = decimal(n);
    (if d.len() < width { spaces((width - d.len()) as nat) } else { Seq::empty() }) + d + seq![' ']
}

/// What shows of `line` from column `left` on.
pub open spec fn visible_part(line: Seq<char>, left: int) -> Seq<char> {
    if left < line.len() { line.skip(left) } else { Seq::empty() }
}

/// How text that a diagnostic of severity `s` points at is drawn.
pub open spec fn problem_look(s: DiagnosticSeverity) -> Look {
    match s {
        DiagnosticSeverity::Error => bold_look(Colour::Red),
        DiagnosticSeverity::Warning => fg_look(Colour::Yellow),
        DiagnosticSeverity::Information => italic_look(Colour::Blue),
        DiagnosticSeverity::Hint => italic_look(Colour::Green),
    }
}

/// How selected text is drawn: black on light blue, in bold.
pub open spec fn selection_look() -> Look {
    Look { fg: Some(Colour::Black), bg: Some(Colour::LightBlue), bold: true, italic: false, underline: false }
}

/// How text with the syntax style `st` is drawn: black stands for the
/// terminal's own colour.
pub open spec fn syntax_look(st: TextStyle) -> Look {
    Look {
        fg: Some(
            if st.red == 0 && st.green == 0 && st.blue == 0 {
                Colour::Reset
            } else {
                Colour::Rgb(st.red, st.green, st.blue)
            },
        ),
        bg: None,
        bold: st.bold,
        italic: st.italic,
        underline: st.underline,
    }
}

/// The non-empty pieces of `ranges`, each drawn in its syntax style.
pub open spec fn styled_pieces(ranges: Seq<(TextStyle, String)>) -> Seq<PieceModel>
    decreases ranges.len(),
{
    if ranges.len() == 0 {
        Seq::empty()
    } else {
        let before = styled_pieces(ranges.drop_last());
        let last = ranges.last();
        if last.1@.len() == 0 {
            before
        } else {
            before.push((last.1@, syntax_look(last.0)))
        }
    }
}

/// The syntax pieces of the first highlighted line of `h` (none if `h` is empty).
pub open spec fn highlight_pieces(h: Seq<HighlightedLine>) -> Seq<PieceModel> {
    if h.len() == 0 { Seq::empty() } else { styled_pieces(h[0].ranges@) }
}

/// What the text area reads of a diagnostic: its first and end columns and
/// its severity.
pub type Mark = (usize, usize, DiagnosticSeverity);

/// The marks of `ds`, in order.
pub open spec fn marks_of(ds: Seq<Diagnostic>) -> Seq<Mark> {
    ds.map_values(|d: Diagnostic| (d.span.start_column, d.span.end_column, d.severity))
}

/// `m` placed into `s` after every mark that starts at or before it.
pub open spec fn insert_mark(s: Seq<Mark>, m: Mark) -> Seq<Mark>
    decreases s.len(),
{
    if s.len() == 0 {
        seq![m]
    } else if s.last().0 <= m.0 {
        s.push(m)
    } else {
        insert_mark(s.drop_last(), m).push(s.last())
    }
}

/// `s` ordered by first column; marks with the same first column keep their order.
pub open spec fn sorted_marks(s: Seq<Mark>) -> Seq<Mark>
    decreases s.len(),
{
    if s.len() == 0 {
        Seq::empty()
    } else {
        insert_mark(sorted_marks(s.drop_last()), s.last())
    }
}

/// `a - b`, or 0 where that is negative.
pub open spec fn sat_sub(a: int, b: int) -> int {
    if a > b { a - b } else { 0 }
}

/// The pieces of `content` (the line from column `left` on) with the marks
/// `ms` drawn, going through `ms` in order from position `pos`: a mark that
/// starts past the end or ends before `left` is passed over; otherwise the
/// text before it (if it starts after `pos`) is plain, its text up to its
/// end (cut at the end of the line) takes its look, and the rest goes on
/// from there. The text after the last mark is plain.
pub open spec fn problem_pieces(content: Seq<char>, ms: Seq<Mark>, left: int, pos: int) -> Seq<PieceModel>
    decreases ms.len(),
{
    if ms.len() == 0 {
        if pos < content.len() {
            seq![(content.subrange(pos, content.len() as int), plain_look())]
        } else {
            Seq::empty()
        }
    } else {
        let m = ms[0];
        let start = sat_sub(m.0 as int, left);
        let end = sat_sub(m.1 as int, left);
        if start >= content.len() || end == 0 {
            problem_pieces(content, ms.drop_first(), left, pos)
        } else {
            let e = if end < content.len() { end } else { content.len() as int };
            let before = if start > pos {
                seq![(content.subrange(pos, start), plain_look())]
            } else {
                Seq::empty()
            };
            let marked = if start < e {
                seq![(content.subrange(start, e), problem_look(m.2))]
            } else {
                Seq::empty()
            };
            before + marked + problem_pieces(content, ms.drop_first(), left, e)
        }
    }
}

/// How the number of a line is drawn: where changes are highlighted, in
/// bold yellow if it differs from the file on disk (compared against disk)
/// or in bold green if it was modified (otherwise); else dark grey.
pub open spec fn number_look(changes: bool, against_disk: bool, modified: bool, differs: bool) -> Look {
    if changes && against_disk && differs {
        bold_look(Colour::Yellow)
    } else if changes && !against_disk && modified {
        bold_look(Colour::Green)
    } else {
        fg_look(Colour::DarkGray)
    }
}

/// The text of a row after its number: a changed line in one piece (yellow
/// against disk, green if modified); where changes are highlighted and the
/// line has diagnostics, the diagnostics marked; else the syntax pieces, or
/// the visible text in one plain piece.
pub open spec fn text_body(
    changes: bool,
    against_disk: bool,
    modified: bool,
    differs: bool,
    diags: Option<Seq<Diagnostic>>,
    has_syntax: bool,
    h: Seq<HighlightedLine>,
    content: Seq<char>,
    left: int,
) -> Seq<PieceModel> {
    if changes && against_disk && differs {
        seq![(content, fg_look(Colour::Yellow))]
    } else if changes && !against_disk && modified {
        seq![(content, fg_look(Colour::Green))]
    } else if changes && diags is Some {
        if diags->0.len() > 0 && content.len() > 0 {
            problem_pieces(content, sorted_marks(marks_of(diags->0)), left, 0)
        } else if has_syntax && h.len() > 0 {
            highlight_pieces(h)
        } else {
            seq![(content, plain_look())]
        }
    } else if has_syntax && highlight_pieces(h).len() > 0 {
        highlight_pieces(h)
    } else {
        seq![(content, plain_look())]
    }
}

pub fn problem_look_of(s: DiagnosticSeverity) -> (l: Look)
    ensures
        l == problem_look(s),
{
    match s {
        DiagnosticSeverity::Error => Look::bold(Colour::Red),
        DiagnosticSeverity::Warning => Look::fg(Colour::Yellow),
        DiagnosticSeverity::Information => Look::italic(Colour::Blue),
        DiagnosticSeverity::Hint => Look::italic(Colour::Green),
    }
}

pub fn selection_look_of() -> (l: Look)
    ensures
        l == selection_look(),
{
    Look { fg: Some(Colour::Black), bg: Some(Colour::LightBlue), bold: true, italic: false, underline: false }
}

pub fn syntax_look_of(st: TextStyle) -> (l: Look)
    ensures
        l == syntax_look(st),
{
    let fg = if st.red == 0 && st.green == 0 && st.blue == 0 {
        Colour::Reset
    } else {
        Colour::Rgb(st.red, st.green, st.blue)
    };
    Look { fg: Some(fg), bg: None, bold: st.bold, italic: st.italic, underline: st.underline }
}

pub fn number_look_of(changes: bool, against_disk: bool, modified: bool, differs: bool) -> (l: Look)
    ensures
        l == number_look(changes, against_disk, modified, differs),
{
    if changes && against_disk && differs {
        Look::bold(Colour::Yellow)
    } else if changes && !against_disk && modified {
        Look::bold(Colour::Green)
    } else {
        Look::fg(Colour::DarkGray)
    }
}

/// `n` space characters.
fn spaces_string(n: usize) -> (s: String)
    ensures
        s@ == spaces(n as nat),
{
    let mut v: Vec<char> = Vec::new();
    let mut k: usize = 0;
    while k < n
        invariant
            k <= n,
            v@ == spaces(k as nat),
        decreases n - k,
    {
        v.push(' ');
        k += 1;
        assert(v@ =~= spaces(k as nat));
    }
    crate::text::string_of(v.as_slice())
}

/// `n` right-aligned in `width` columns, then a space.
pub fn line_number_label(n: usize, width: usize) -> (s: String)
    ensures
        s@ == number_label(n as nat, width as nat),
{
    let digits = decimal_string(n);
    let len = char_len(digits.as_str());
    let pad = if len < width { spaces_string(width - len) } else { String::new() };
    let s = push_char_to(&concat(pad.as_str(), digits.as_str()), ' ');
    assert(s@ =~= number_label(n as nat, width as nat));
    s
}

/// What shows of `line` from column `left` on.
pub fn visible_text(line: &str, left: usize) -> (s: String)
    ensures
        s@ == visible_part(line@, left as int),
{
    let n = char_len(line);
    if left < n {
        let s = substring(line, left, n);
        assert(s@ =~= line@.skip(left as int));
        s
    } else {
        String::new()
    }
}

/// The non-empty pieces of `ranges` in their syntax styles.
pub fn styled(ranges: &Vec<(TextStyle, String)>) -> (r: Vec<Piece>)
    ensures
        pieces_of(r@) == styled_pieces(ranges@),
{
    let mut r: Vec<Piece> = Vec::new();
    let mut i: usize = 0;
    while i < ranges.len()
        invariant
            i <= ranges@.len(),
            pieces_of(r@) == styled_pieces(ranges@.subrange(0, i as int)),
        decreases ranges.len() - i,
    {
        proof {
            assert(ranges@.subrange(0, i + 1).drop_last() =~= ranges@.subrange(0, i as int));
        }
        if char_len(ranges[i].1.as_str()) > 0 {
            let p = Piece::new(ranges[i].1.clone(), syntax_look_of(ranges[i].0));
            let ghost old_r = r@;
            r.push(p);
            assert(pieces_of(r@) =~= pieces_of(old_r).push((ranges@[i as int].1@, syntax_look(ranges@[i as int].0))));
        }
        i += 1;
    }
    assert(ranges@.subrange(0, ranges@.len() as int) =~= ranges@);
    r
}

/// The syntax pieces of the first line of `h`.
pub fn highlighted(h: &Vec<HighlightedLine>) -> (r: Vec<Piece>)
    ensures
        pieces_of(r@) == highlight_pieces(h@),
{
    if h.len() == 0 {
        let r: Vec<Piece> = Vec::new();
        assert(pieces_of(r@) =~= Seq::<PieceModel>::empty());
        r
    } else {
        styled(&h[0].ranges)
    }
}

/// The marks of `ds`.
fn marks(ds: &Vec<Diagnostic>) -> (r: Vec<Mark>)
    ensures
        r@ == marks_of(ds@),
{
    let mut r: Vec<Mark> = Vec::new();
    let mut i: usize = 0;
    while i < ds.len()
        invariant
            i <= ds@.len(),
            r@ == marks_of(ds@.subrange(0, i as int)),
        decreases ds.len() - i,
    {
        r.push((ds[i].span.start_column, ds[i].span.end_column, ds[i].severity));
        i += 1;
        assert(r@ =~= marks_of(ds@.subrange(0, i as int)));
    }
    assert(ds@.subrange(0, ds@.len() as int) =~= ds@);
    r
}

/// Placing `m` after the first `p` marks of `s` is [`insert_mark`], when
/// those before `p` start at or before `m` and those from `p` on after it.
proof fn lemma_insert_mark(s: Seq<Mark>, m: Mark, p: int)
    requires
        0 <= p <= s.len(),
        p > 0 ==> s[p - 1].0 <= m.0,
        forall|k: int| p <= k < s.len() ==> #[trigger] s[k].0 > m.0,
    ensures
        insert_mark(s, m) == s.take(p) + seq![m] + s.skip(p),
    decreases s.len(),
{
    if s.len() == 0 {
        assert(s.take(p) + seq![m] + s.skip(p) =~= seq![m]);
    } else if s.last().0 <= m.0 {
        assert(p == s.len());
        assert(s.take(p) + seq![m] + s.skip(p) =~= s.push(m));
    } else {
        assert(p < s.len());
        lemma_insert_mark(s.drop_last(), m, p);
        assert(s.take(p) + seq![m] + s.skip(p) =~= (s.drop_last().take(p) + seq![m] + s.drop_last().skip(p)).push(
            s.last(),
        ));
    }
}

/// A stable insertion sort of the marks by first column.
fn sort_marks(s: &Vec<Mark>) -> (r: Vec<Mark>)
    ensures
        r@ == sorted_marks(s@),
{
    let mut r: Vec<Mark> = Vec::new();
    let mut i: usize = 0;
    while i < s.len()
        invariant
            i <= s@.len(),
            r@ == sorted_marks(s@.subrange(0, i as int)),
        decreases s.len() - i,
    {
        let m = s[i];
        let mut p: usize = r.len();
        while p > 0 && r[p - 1].0 > m.0
            invariant
                p <= r@.len(),
                forall|k: int| p <= k < r@.len() ==> #[trigger] r@[k].0 > m.0,
            decreases p,
        {
            p -= 1;
        }
        proof {
            lemma_insert_mark(r@, m, p as int);
            assert(s@.subrange(0, i + 1).drop_last() =~= s@.subrange(0, i as int));
        }
        let ghost old_r = r@;
        r.insert(p, m);
        assert(r@ =~= old_r.take(p as int) + seq![m] + old_r.skip(p as int));
        i += 1;
    }
    assert(s@.subrange(0, s@.len() as int) =~= s@);
    r
}

/// The pieces of `content` with the marks `ms` drawn (see [`problem_pieces`]).
pub fn problem_pieces_of(content: &str, ms: &Vec<Mark>, left: usize) -> (r: Vec<Piece>)
    ensures
        pieces_of(r@) == problem_pieces(content@, ms@, left as int, 0),
{
    let n = char_len(content);
    let mut r: Vec<Piece> = Vec::new();
    let mut pos: usize = 0;
    let mut k: usize = 0;
    assert(ms@.skip(0) =~= ms@);
    while k < ms.len()
        invariant
            k <= ms@.len(),
            n == content@.len(),
            pos <= n,
            pieces_of(r@) + problem_pieces(content@, ms@.skip(k as int), left as int, pos as int)
                == problem_pieces(content@, ms@, left as int, 0),
        decreases ms.len() - k,
    {
        let m = ms[k];
        let ghost rest = ms@.skip(k as int);
        assert(rest[0] == m);
        assert(rest.drop_first() =~= ms@.skip(k + 1));
        let start = if m.0 > left { m.0 - left } else { 0 };
        let end = if m.1 > left { m.1 - left } else { 0 };
        if !(start >= n || end == 0) {
            let e = if end < n { end } else { n };
            let ghost before_r = pieces_of(r@);
            if start > pos {
                r.push(Piece::new(substring(content, pos, start), Look::plain()));
            }
            let ghost mid_r = pieces_of(r@);
            if start < e {
                r.push(Piece::new(substring(content, start, e), problem_look_of(m.2)));
            }
            proof {
                let b = if start > pos {
                    seq![(content@.subrange(pos as int, start as int), plain_look())]
                } else {
                    Seq::<PieceModel>::empty()
                };
                let mk = if start < e {
                    seq![(content@.subrange(start as int, e as int), problem_look(m.2))]
                } else {
                    Seq::<PieceModel>::empty()
                };
                assert(mid_r =~= before_r + b);
                assert(pieces_of(r@) =~= mid_r + mk);
                assert(pieces_of(r@) + problem_pieces(content@, ms@.skip(k + 1), left as int, e as int)
                    =~= before_r + (b + mk + problem_pieces(content@, ms@.skip(k + 1), left as int, e as int)));
            }
            pos = e;
        }
        k += 1;
    }
    let ghost before_r = pieces_of(r@);
    if pos < n {
        r.push(Piece::new(substring(content, pos, n), Look::plain()));
    }
    assert(ms@.skip(ms@.len() as int) =~= Seq::<Mark>::empty());
    assert(pieces_of(r@) =~= before_r + problem_pieces(content@, ms@.skip(k as int), left as int, pos as int));
    r
}

/// One piece.
fn single(text: String, look: Look) -> (r: Vec<Piece>)
    ensures
        pieces_of(r@) == seq![(text@, look)],
{
    let mut r: Vec<Piece> = Vec::new();
    r.push(Piece::new(text, look));
    assert(pieces_of(r@) =~= seq![(text@, look)]);
    r
}

/// The text of a row after its number (see [`text_body`]); `diags` are the
/// diagnostics of the line and `h` its highlighting.
pub fn text_body_of(
    changes: bool,
    against_disk: bool,
    modified: bool,
    differs: bool,
    diags: Option<&Vec<Diagnostic>>,
    has_syntax: bool,
    h: &Vec<HighlightedLine>,
    content: String,
    left: usize,
) -> (r: Vec<Piece>)
    ensures
        pieces_of(r@) == text_body(
            changes,
            against_disk,
            modified,
            differs,
            match diags {
                Some(d) => Some(d@),
                None => None,
            },
            has_syntax,
            h@,
            content@,
            left as int,
        ),
{
    if changes && against_disk && differs {
        single(content, Look::fg(Colour::Yellow))
    } else if changes && !against_disk && modified {
        single(content, Look::fg(Colour::Green))
    } else if changes && diags.is_some() {
        let ds = diags.unwrap();
        if ds.len() > 0 && char_len(content.as_str()) > 0 {
            let ms = sort_marks(&marks(ds));
            problem_pieces_of(content.as_str(), &ms, left)
        } else if has_syntax && h.len() > 0 {
            highlighted(h)
        } else {
            single(content, Look::plain())
        }
    } else {
        let sp = highlighted(h);
        if has_syntax && sp.len() > 0 {
            sp
        } else {
            single(content, Look::plain())
        }
    }
}

/// A row of the text screen: the line number `number` in `width` columns,
/// then the text of `line` from column `left` on (see [`text_body`]).
pub open spec fn text_row(
    line: Seq<char>,
    number: nat,
    width: nat,
    left: int,
    changes: bool,
    against_disk: bool,
    modified: bool,
    differs: bool,
    diags: Option<Seq<Diagnostic>>,
    has_syntax: bool,
    h: Seq<HighlightedLine>,
) -> Seq<PieceModel> {
    seq![(number_label(number, width), number_look(changes, against_disk, modified, differs))] + text_body(
        changes,
        against_disk,
        modified,
        differs,
        diags,
        has_syntax,
        h,
        visible_part(line, left),
        left,
    )
}

/// The diagnostics of line `line` of the tab, if it has any.
pub open spec fn diags_at(t: Tab, line: int) -> Option<Seq<Diagnostic>> {
    if t.diagnostics.by_line().contains_key(line as usize) {
        Some(t.diagnostics.by_line()[line as usize])
    } else {
        None
    }
}

/// The highlighting handed over for the `i`-th visible row (none past the end).
pub open spec fn highlight_at(hs: Seq<Vec<HighlightedLine>>, i: int) -> Seq<HighlightedLine> {
    if 0 <= i < hs.len() { hs[i]@ } else { Seq::empty() }
}

/// Width of the line numbers: the digits of the number of lines.
pub open spec fn number_width(t: Tab) -> nat {
    decimal(t.buffer.lines@.len()).len()
}

/// The end of the visible lines: `height` lines from `top`, but no further
/// than the last line.
pub open spec fn visible_end(top: int, height: int, total: int) -> int {
    if top + height < total { top + height } else { total }
}

/// The row of the text screen for line `idx` of the current tab, whose
/// visible rows start at line `top`.
pub open spec fn area_row(
    e: Editor,
    hs: Seq<Vec<HighlightedLine>>,
    changes: bool,
    against_disk: bool,
    idx: int,
    top: int,
) -> Seq<PieceModel> {
    let t = e.tab();
    text_row(
        t.buffer.lines@[idx]@,
        (idx + 1) as nat,
        number_width(t),
        t.viewport.left_column as int,
        changes,
        against_disk,
        t.buffer.modified_lines@.contains(idx as usize),
        e.diff_lines@.contains(idx as usize),
        diags_at(t, idx),
        t.buffer.syntax is Some,
        highlight_at(hs, idx - top),
    )
}

/// The text area as drawn: its rows, where the cursor goes (`cursor_column`
/// and `cursor_row` within the text, after a gutter of `gutter` columns for
/// the line numbers), and the size of the text that the viewport takes on.
pub struct TextArea {
    pub rows: Vec<Vec<Piece>>,
    pub cursor_column: usize,
    pub cursor_row: usize,
    pub gutter: usize,
    pub update: ViewportUpdate,
}

/// The row of the text screen for line `idx` of `tab` (see [`text_row`]).
pub fn text_row_of(
    tab: &Tab,
    diff_lines: &std::collections::HashSet<usize>,
    idx: usize,
    width: usize,
    changes: bool,
    against_disk: bool,
    h: &Vec<HighlightedLine>,
) -> (r: Vec<Piece>)
    requires
        idx < tab.buffer.lines@.len(),
    ensures
        pieces_of(r@) == text_row(
            tab.buffer.lines@[idx as int]@,
            (idx + 1) as nat,
            width as nat,
            tab.viewport.left_column as int,
            changes,
            against_disk,
            tab.buffer.modified_lines@.contains(idx),
            diff_lines@.contains(idx),
            diags_at(*tab, idx as int),
            tab.buffer.syntax is Some,
            h@,
        ),
{
    let left = tab.viewport.left_column;
    let n = tab.buffer.lines.len();
    let modified = tab.buffer.is_line_modified(idx);
    let differs = diff_lines.contains(&idx);
    let label = line_number_label(idx + 1, width);
    let content = visible_text(tab.buffer.lines[idx].as_str(), left);
    let diags = tab.diagnostics.get_diagnostics_for_line(idx);
    let body = text_body_of(
        changes,
        against_disk,
        modified,
        differs,
        diags,
        tab.buffer.syntax.is_some(),
        h,
        content,
        left,
    );
    let mut r: Vec<Piece> = Vec::new();
    r.push(Piece::new(label, number_look_of(changes, against_disk, modified, differs)));
    let ghost head = pieces_of(r@);
    let mut body = body;
    r.append(&mut body);
    assert(pieces_of(r@) =~= head + text_body(
        changes,
        against_disk,
        modified,
        differs,
        diags_at(*tab, idx as int),
        tab.buffer.syntax is Some,
        h@,
        visible_part(tab.buffer.lines@[idx as int]@, left as int),
        left as int,
    ));
    r
}

/// `10^k`.
pub open spec fn pow10(k: nat) -> nat
    decreases k,
{
    if k == 0 { 1 } else { 10 * pow10((k - 1) as nat) }
}

/// A number below `10^k` has at most `k` digits.
proof fn lemma_decimal_len(n: nat, k: nat)
    requires
        k >= 1,
        n < pow10(k),
    ensures
        decimal(n).len() <= k,
    decreases k,
{
    if n >= 10 {
        if k == 1 {
            assert(pow10(1) == 10) by {
                reveal_with_fuel(pow10, 2);
            }
        } else {
            assert(n / 10 < pow10((k - 1) as nat));
            lemma_decimal_len(n / 10, (k - 1) as nat);
        }
    }
}

/// Width of the line numbers of `tab` (at most 20 digits).
fn number_width_of(tab: &Tab) -> (w: usize)
    ensures
        w == number_width(*tab),
        w <= 20,
{
    let total = tab.buffer.line_count();
    let digits = decimal_string(total);
    proof {
        assert(pow10(20) == 100000000000000000000nat) by {
            reveal_with_fuel(pow10, 21);
        }
        lemma_decimal_len(total as nat, 20);
    }
    char_len(digits.as_str())
}

/// The text screen in an area whose inside is `inner_width` by
/// `inner_height`: one row per visible line of the current tab (see
/// [`area_row`]), the cursor's place, and the size of the text (the inside
/// less five columns for the line numbers). `highlights` holds the
/// highlighting of the visible lines, in order. Changes are highlighted
/// where `changes`, against disk where `against_disk`.
pub fn text_area(
    editor: &Editor,
    inner_width: usize,
    inner_height: usize,
    highlights: &Vec<Vec<HighlightedLine>>,
    changes: bool,
    against_disk: bool,
) -> (a: TextArea)
    requires
        editor.wf(),
        editor.tab().viewport.top_line + inner_height <= usize::MAX,
        editor.tab().viewport.top_line <= editor.tab().buffer.lines@.len(),
    ensures
        a.update == (ViewportUpdate { width: sat_sub(inner_width as int, 5) as usize, height: inner_height }),
        a.rows@.len() == visible_end(
            editor.tab().viewport.top_line as int,
            inner_height as int,
            editor.tab().buffer.lines@.len() as int,
        ) - editor.tab().viewport.top_line,
        forall|i: int|
            0 <= i < a.rows@.len() ==> pieces_of(#[trigger] a.rows@[i]@) == area_row(
                *editor,
                highlights@,
                changes,
                against_disk,
                editor.tab().viewport.top_line + i,
                editor.tab().viewport.top_line as int,
            ),
        a.gutter == number_width(editor.tab()) + 1,
        a.cursor_column == sat_sub(editor.tab().cursor.x as int, editor.tab().viewport.left_column as int),
        a.cursor_row == sat_sub(editor.tab().cursor.y as int, editor.tab().viewport.top_line as int),
{
    let tab = editor.current_tab();
    let top = tab.viewport.top_line;
    let total = tab.buffer.line_count();
    let end = if top + inner_height < total { top + inner_height } else { total };
    let width = number_width_of(tab);
    let mut rows: Vec<Vec<Piece>> = Vec::new();
    let mut idx = top;
    while idx < end
        invariant
            top <= idx <= end,
            end <= tab.buffer.lines@.len(),
            *tab == editor.tab(),
            top == tab.viewport.top_line,
            width == number_width(*tab),
            rows@.len() == idx - top,
            forall|i: int|
                0 <= i < rows@.len() ==> pieces_of(#[trigger] rows@[i]@) == area_row(
                    *editor,
                    highlights@,
                    changes,
                    against_disk,
                    top + i,
                    top as int,
                ),
        decreases end - idx,
    {
        let empty: Vec<HighlightedLine> = Vec::new();
        let h = if idx - top < highlights.len() { &highlights[idx - top] } else { &empty };
        assert(h@ == highlight_at(highlights@, idx - top));
        let row = text_row_of(tab, &editor.diff_lines, idx, width, changes, against_disk, h);
        rows.push(row);
        idx += 1;
    }
    let content_width = if inner_width > 5 { inner_width - 5 } else { 0 };
    let cx = tab.cursor.x;
    let left = tab.viewport.left_column;
    let cy = tab.cursor.y;
    TextArea {
        rows,
        cursor_column: if cx > left { cx - left } else { 0 },
        cursor_row: if cy > top { cy - top } else { 0 },
        gutter: width + 1,
        update: ViewportUpdate { width: content_width, height: inner_height },
    }
}

/// `t`, whose first character is at column `c0` of line `line`, cut into
/// its longest runs of characters that are all selected or all not (for the
/// selection from `sel` to `cursor`, whole lines if `whole_lines`), each
/// with whether it is selected.
pub open spec fn selection_runs(
    t: Seq<char>,
    line: usize,
    c0: int,
    sel: Option<(usize, usize)>,
    cursor: Cursor,
    whole_lines: bool,
) -> Seq<(Seq<char>, bool)>
    decreases t.len(),
{
    if t.len() == 0 {
        Seq::empty()
    } else {
        let before = selection_runs(t.drop_last(), line, c0, sel, cursor, whole_lines);
        let b = position_selected(sel, line, (c0 + t.len() - 1) as usize, cursor, whole_lines);
        if before.len() > 0 && before.last().1 == b {
            before.update(before.len() - 1, (before.last().0.push(t.last()), b))
        } else {
            before.push((seq![t.last()], b))
        }
    }
}

/// The runs as pieces: drawn in `base`, with the selection's look over it
/// where selected.
pub open spec fn run_pieces(runs: Seq<(Seq<char>, bool)>, base: Look) -> Seq<PieceModel> {
    runs.map_values(|r: (Seq<char>, bool)| (r.0, if r.1 { patched(base, selection_look()) } else { base }))
}

/// The runs of a list of strings as texts.
pub open spec fn runs_view(v: Seq<(String, bool)>) -> Seq<(Seq<char>, bool)> {
    v.map_values(|r: (String, bool)| (r.0@, r.1))
}

/// Like [`problem_pieces`], with the text before, inside and after each mark
/// split by the selection.
pub open spec fn selection_problem_pieces(
    content: Seq<char>,
    ms: Seq<Mark>,
    left: int,
    pos: int,
    line: usize,
    sel: Option<(usize, usize)>,
    cursor: Cursor,
    whole_lines: bool,
) -> Seq<PieceModel>
    decreases ms.len(),
{
    if ms.len() == 0 {
        if pos < content.len() {
            run_pieces(
                selection_runs(content.subrange(pos, content.len() as int), line, left + pos, sel, cursor, whole_lines),
                plain_look(),
            )
        } else {
            Seq::empty()
        }
    } else {
        let m = ms[0];
        let start = sat_sub(m.0 as int, left);
        let end = sat_sub(m.1 as int, left);
        if start >= content.len() || end == 0 {
            selection_problem_pieces(content, ms.drop_first(), left, pos, line, sel, cursor, whole_lines)
        } else {
            let e = if end < content.len() { end } else { content.len() as int };
            let before = if start > pos {
                run_pieces(
                    selection_runs(content.subrange(pos, start), line, left + pos, sel, cursor, whole_lines),
                    plain_look(),
                )
            } else {
                Seq::empty()
            };
            let marked = if start < e {
                run_pieces(
                    selection_runs(content.subrange(start, e), line, left + start, sel, cursor, whole_lines),
                    problem_look(m.2),
                )
            } else {
                Seq::empty()
            };
            before + marked + selection_problem_pieces(
                content,
                ms.drop_first(),
                left,
                e,
                line,
                sel,
                cursor,
                whole_lines,
            )
        }
    }
}

/// The column where a highlighted piece `t` of `line_text` is taken to
/// start: where it first occurs in the line, else 0.
pub open spec fn piece_column(line_text: Seq<char>, t: Seq<char>) -> int {
    match find(line_text, t) {
        Some(i) => i,
        None => 0,
    }
}

/// The non-empty syntax pieces of `ranges` that start at or after column
/// `left` (see [`piece_column`]), split by the selection.
pub open spec fn selection_syntax_pieces(
    line_text: Seq<char>,
    ranges: Seq<(TextStyle, String)>,
    left: int,
    line: usize,
    sel: Option<(usize, usize)>,
    cursor: Cursor,
    whole_lines: bool,
) -> Seq<PieceModel>
    decreases ranges.len(),
{
    if ranges.len() == 0 {
        Seq::empty()
    } else {
        let before = selection_syntax_pieces(line_text, ranges.drop_last(), left, line, sel, cursor, whole_lines);
        let last = ranges.last();
        let t = last.1@;
        if t.len() == 0 {
            before
        } else if piece_column(line_text, t) >= left {
            before + run_pieces(
                selection_runs(t, line, piece_column(line_text, t), sel, cursor, whole_lines),
                syntax_look(last.0),
            )
        } else {
            before
        }
    }
}

/// The text of a row of the selection screen after its number: the
/// diagnostics marked, where the line has some and shows text; else the
/// syntax pieces split by the selection, or the visible text split by it.
pub open spec fn selection_body(
    diags: Option<Seq<Diagnostic>>,
    has_syntax: bool,
    h: Seq<HighlightedLine>,
    line_text: Seq<char>,
    left: int,
    line: usize,
    sel: Option<(usize, usize)>,
    cursor: Cursor,
    whole_lines: bool,
) -> Seq<PieceModel> {
    let content = visible_part(line_text, left);
    let plain = run_pieces(selection_runs(content, line, left, sel, cursor, whole_lines), plain_look());
    if diags is Some && diags->0.len() > 0 && content.len() > 0 {
        selection_problem_pieces(content, sorted_marks(marks_of(diags->0)), left, 0, line, sel, cursor, whole_lines)
    } else if content.len() > 0 {
        if has_syntax && h.len() > 0 && selection_syntax_pieces(
            line_text,
            h[0].ranges@,
            left,
            line,
            sel,
            cursor,
            whole_lines,
        ).len() > 0 {
            selection_syntax_pieces(line_text, h[0].ranges@, left, line, sel, cursor, whole_lines)
        } else {
            plain
        }
    } else {
        Seq::empty()
    }
}

/// The row of the selection screen for line `idx` of the current tab,
/// highlighted as `h`.
pub open spec fn selection_row(e: Editor, idx: int, h: Seq<HighlightedLine>) -> Seq<PieceModel> {
    let t = e.tab();
    seq![(number_label((idx + 1) as nat, number_width(t)), fg_look(Colour::DarkGray))] + selection_body(
        diags_at(t, idx),
        t.buffer.syntax is Some,
        h,
        t.buffer.lines@[idx]@,
        t.viewport.left_column as int,
        idx as usize,
        t.buffer.selection_start,
        t.cursor,
        t.buffer.selection_start is Some && e.mode == Mode::VisualLine,
    )
}

/// `t` from column `c0` of line `line`, cut by the selection (see
/// [`selection_runs`]) and drawn in `base` with the selection over it.
pub fn selection_pieces(
    t: &str,
    line: usize,
    c0: usize,
    buffer: &Buffer,
    cursor: &Cursor,
    whole_lines: bool,
    base: Look,
) -> (r: Vec<Piece>)
    requires
        c0 + t@.len() <= usize::MAX,
    ensures
        pieces_of(r@) == run_pieces(
            selection_runs(t@, line, c0 as int, buffer.selection_start, *cursor, whole_lines),
            base,
        ),
{
    let v = chars_of(t);
    let mut done: Vec<(String, bool)> = Vec::new();
    let mut cur: Vec<char> = Vec::new();
    let mut flag = false;
    let mut i: usize = 0;
    while i < v.len()
        invariant
            v@ == t@,
            i <= v@.len(),
            c0 + v@.len() <= usize::MAX,
            i == 0 ==> cur@.len() == 0 && done@.len() == 0,
            i > 0 ==> cur@.len() > 0 && selection_runs(
                v@.subrange(0, i as int),
                line,
                c0 as int,
                buffer.selection_start,
                *cursor,
                whole_lines,
            ) == runs_view(done@).push((cur@, flag)),
            i > 0 && done@.len() > 0 ==> done@.last().1 != flag,
        decreases v.len() - i,
    {
        let c = v[i];
        let b = buffer.is_position_selected(line, c0 + i, cursor, whole_lines);
        proof {
            assert(v@.subrange(0, i + 1).drop_last() =~= v@.subrange(0, i as int));
            assert(v@.subrange(0, i + 1).last() == c);
        }
        if i == 0 {
            cur.push(c);
            flag = b;
            assert(runs_view(done@) =~= Seq::<(Seq<char>, bool)>::empty());
            assert(v@.subrange(0, 0) =~= Seq::<char>::empty());
            assert(selection_runs(v@.subrange(0, 0), line, c0 as int, buffer.selection_start, *cursor, whole_lines)
                =~= Seq::<(Seq<char>, bool)>::empty());
            assert(cur@ =~= seq![c]);
            assert(selection_runs(v@.subrange(0, 1), line, c0 as int, buffer.selection_start, *cursor, whole_lines)
                =~= runs_view(done@).push((cur@, flag)));
        } else if b == flag {
            let ghost old_cur = cur@;
            cur.push(c);
            assert(selection_runs(v@.subrange(0, i + 1), line, c0 as int, buffer.selection_start, *cursor, whole_lines)
                =~= runs_view(done@).push((cur@, flag)));
        } else {
            let piece = string_of(cur.as_slice());
            let ghost old_done = done@;
            done.push((piece, flag));
            assert(runs_view(done@) =~= runs_view(old_done).push((piece@, flag)));
            cur = Vec::new();
            cur.push(c);
            flag = b;
            assert(selection_runs(v@.subrange(0, i + 1), line, c0 as int, buffer.selection_start, *cursor, whole_lines)
                =~= runs_view(done@).push((cur@, flag)));
        }
        i += 1;
    }
    if i > 0 {
        let piece = string_of(cur.as_slice());
        let ghost old_done = done@;
        done.push((piece, flag));
        assert(runs_view(done@) =~= runs_view(old_done).push((piece@, flag)));
    }
    assert(v@.subrange(0, v@.len() as int) =~= v@);
    let sel_look = selection_look_of();
    let over = base.patch(&sel_look);
    let mut r: Vec<Piece> = Vec::new();
    let mut k: usize = 0;
    while k < done.len()
        invariant
            k <= done@.len(),
            over == patched(base, selection_look()),
            pieces_of(r@) == run_pieces(runs_view(done@.subrange(0, k as int)), base),
        decreases done.len() - k,
    {
        let look = if done[k].1 { over } else { base };
        let ghost old_r = r@;
        let p = Piece::new(done[k].0.clone(), look);
        r.push(p);
        proof {
            let f = |q: (Seq<char>, bool)| (q.0, if q.1 { patched(base, selection_look()) } else { base });
            assert(done@.subrange(0, k + 1) =~= done@.subrange(0, k as int).push(done@[k as int]));
            assert(runs_view(done@.subrange(0, k + 1)) =~= runs_view(done@.subrange(0, k as int)).push(
                (done@[k as int].0@, done@[k as int].1),
            ));
            assert(pieces_of(r@) =~= pieces_of(old_r).push((done@[k as int].0@, look)));
        }
        k += 1;
        assert(pieces_of(r@) =~= run_pieces(runs_view(done@.subrange(0, k as int)), base));
    }
    assert(done@.subrange(0, done@.len() as int) =~= done@);
    r
}

/// One step of [`selection_problem_pieces`] from the `k`-th mark.
proof fn lemma_selection_problem_step(
    content: Seq<char>,
    ms: Seq<Mark>,
    k: int,
    left: int,
    pos: int,
    line: usize,
    sel: Option<(usize, usize)>,
    cursor: Cursor,
    whole_lines: bool,
)
    requires
        0 <= k < ms.len(),
    ensures
        ({
            let m = ms[k];
            let start = sat_sub(m.0 as int, left);
            let end = sat_sub(m.1 as int, left);
            let e = if end < content.len() { end } else { content.len() as int };
            let tail = selection_problem_pieces(content, ms.skip(k + 1), left, e, line, sel, cursor, whole_lines);
            selection_problem_pieces(content, ms.skip(k), left, pos, line, sel, cursor, whole_lines) == if start
                >= content.len() || end == 0 {
                selection_problem_pieces(content, ms.skip(k + 1), left, pos, line, sel, cursor, whole_lines)
            } else {
                (if start > pos {
                    run_pieces(
                        selection_runs(content.subrange(pos, start), line, left + pos, sel, cursor, whole_lines),
                        plain_look(),
                    )
                } else {
                    Seq::empty()
                }) + (if start < e {
                    run_pieces(
                        selection_runs(content.subrange(start, e), line, left + start, sel, cursor, whole_lines),
                        problem_look(m.2),
                    )
                } else {
                    Seq::empty()
                }) + tail
            }
        }),
{
    assert(ms.skip(k)[0] == ms[k]);
    assert(ms.skip(k).drop_first() =~= ms.skip(k + 1));
}

/// The pieces of `content` with the marks `ms` drawn and the selection over
/// them (see [`selection_problem_pieces`]).
#[verifier::spinoff_prover]
#[verifier::rlimit(50)]
pub fn selection_problem_pieces_of(
    content: &str,
    ms: &Vec<Mark>,
    left: usize,
    line: usize,
    buffer: &Buffer,
    cursor: &Cursor,
    whole_lines: bool,
) -> (r: Vec<Piece>)
    requires
        left + content@.len() <= usize::MAX,
    ensures
        pieces_of(r@) == selection_problem_pieces(
            content@,
            ms@,
            left as int,
            0,
            line,
            buffer.selection_start,
            *cursor,
            whole_lines,
        ),
{
    let n = char_len(content);
    let mut r: Vec<Piece> = Vec::new();
    let mut pos: usize = 0;
    let mut k: usize = 0;
    let ghost goal = selection_problem_pieces(
        content@,
        ms@,
        left as int,
        0,
        line,
        buffer.selection_start,
        *cursor,
        whole_lines,
    );
    assert(ms@.skip(0) =~= ms@);
    while k < ms.len()
        invariant
            k <= ms@.len(),
            n == content@.len(),
            left + n <= usize::MAX,
            pos <= n,
            pieces_of(r@) + selection_problem_pieces(
                content@,
                ms@.skip(k as int),
                left as int,
                pos as int,
                line,
                buffer.selection_start,
                *cursor,
                whole_lines,
            ) == goal,
        decreases ms.len() - k,
    {
        let m = ms[k];
        proof {
            lemma_selection_problem_step(
                content@,
                ms@,
                k as int,
                left as int,
                pos as int,
                line,
                buffer.selection_start,
                *cursor,
                whole_lines,
            );
        }
        let start = if m.0 > left { m.0 - left } else { 0 };
        let end = if m.1 > left { m.1 - left } else { 0 };
        if !(start >= n || end == 0) {
            let e = if end < n { end } else { n };
            let ghost before_r = pieces_of(r@);
            let mut b: Vec<Piece> = Vec::new();
            if start > pos {
                let part = substring(content, pos, start);
                b = selection_pieces(part.as_str(), line, left + pos, buffer, cursor, whole_lines, Look::plain());
            }
            let mut mk: Vec<Piece> = Vec::new();
            if start < e {
                let part = substring(content, start, e);
                mk = selection_pieces(part.as_str(), line, left + start, buffer, cursor, whole_lines, problem_look_of(m.2));
            }
            let ghost bv = pieces_of(b@);
            let ghost mv = pieces_of(mk@);
            r.append(&mut b);
            r.append(&mut mk);
            proof {
                assert(pieces_of(r@) =~= before_r + bv + mv);
                let tail = selection_problem_pieces(
                    content@,
                    ms@.skip(k + 1),
                    left as int,
                    e as int,
                    line,
                    buffer.selection_start,
                    *cursor,
                    whole_lines,
                );
                assert(pieces_of(r@) + tail =~= before_r + (bv + mv + tail));
            }
            pos = e;
        }
        k += 1;
    }
    let ghost before_r = pieces_of(r@);
    if pos < n {
        let part = substring(content, pos, n);
        let mut ps = selection_pieces(part.as_str(), line, left + pos, buffer, cursor, whole_lines, Look::plain());
        r.append(&mut ps);
    }
    assert(ms@.skip(ms@.len() as int) =~= Seq::<Mark>::empty());
    assert(pieces_of(r@) =~= before_r + selection_problem_pieces(
        content@,
        ms@.skip(k as int),
        left as int,
        pos as int,
        line,
        buffer.selection_start,
        *cursor,
        whole_lines,
    ));
    r
}

/// The syntax pieces of `ranges` split by the selection (see
/// [`selection_syntax_pieces`]); `line_text` is the whole line.
pub fn selection_syntax_pieces_of(
    line_text: &str,
    ranges: &Vec<(TextStyle, String)>,
    left: usize,
    line: usize,
    buffer: &Buffer,
    cursor: &Cursor,
    whole_lines: bool,
) -> (r: Vec<Piece>)
    ensures
        pieces_of(r@) == selection_syntax_pieces(
            line_text@,
            ranges@,
            left as int,
            line,
            buffer.selection_start,
            *cursor,
            whole_lines,
        ),
{
    let line_len = char_len(line_text);
    let mut r: Vec<Piece> = Vec::new();
    let mut i: usize = 0;
    while i < ranges.len()
        invariant
            i <= ranges@.len(),
            line_len == line_text@.len(),
            pieces_of(r@) == selection_syntax_pieces(
                line_text@,
                ranges@.subrange(0, i as int),
                left as int,
                line,
                buffer.selection_start,
                *cursor,
                whole_lines,
            ),
        decreases ranges.len() - i,
    {
        proof {
            assert(ranges@.subrange(0, i + 1).drop_last() =~= ranges@.subrange(0, i as int));
        }
        let t = ranges[i].1.as_str();
        let t_len = char_len(t);
        if t_len > 0 {
            let at = match find_text(line_text, t) {
                Some(j) => j,
                None => 0,
            };
            if at >= left {
                proof {
                    crate::text::lemma_find_from(line_text@, t@, 0);
                }
                assert(at + t@.len() <= usize::MAX);
                let ghost old_r = pieces_of(r@);
                let mut ps = selection_pieces(t, line, at, buffer, cursor, whole_lines, syntax_look_of(ranges[i].0));
                r.append(&mut ps);
                assert(pieces_of(r@) =~= old_r + run_pieces(
                    selection_runs(t@, line, at as int, buffer.selection_start, *cursor, whole_lines),
                    syntax_look(ranges@[i as int].0),
                ));
            }
        }
        i += 1;
    }
    assert(ranges@.subrange(0, ranges@.len() as int) =~= ranges@);
    r
}

/// The row of the selection screen for line `idx` of the current tab (see
/// [`selection_row`]).
pub fn selection_row_of(editor: &Editor, idx: usize, width: usize, h: &Vec<HighlightedLine>) -> (r: Vec<Piece>)
    requires
        editor.wf(),
        idx < editor.tab().buffer.lines@.len(),
        width == number_width(editor.tab()),
    ensures
        pieces_of(r@) == selection_row(*editor, idx as int, h@),
{
    let tab = editor.current_tab();
    let left = tab.viewport.left_column;
    let nl = tab.buffer.lines.len();
    let line_text = tab.buffer.lines[idx].as_str();
    let line_len = char_len(line_text);
    let content = visible_text(line_text, left);
    let n = char_len(content.as_str());
    let whole_lines = tab.buffer.selection_start.is_some() && editor.mode == Mode::VisualLine;
    let diags = tab.diagnostics.get_diagnostics_for_line(idx);
    proof {
        if n > 0 {
            assert(left + n == line_len);
        }
    }
    let mut body: Vec<Piece> = if diags.is_some() && diags.unwrap().len() > 0 && n > 0 {
        let ms = sort_marks(&marks(diags.unwrap()));
        selection_problem_pieces_of(content.as_str(), &ms, left, idx, &tab.buffer, &tab.cursor, whole_lines)
    } else if n > 0 {
        let plain = selection_pieces(content.as_str(), idx, left, &tab.buffer, &tab.cursor, whole_lines, Look::plain());
        if tab.buffer.syntax.is_some() && h.len() > 0 {
            let sp = selection_syntax_pieces_of(line_text, &h[0].ranges, left, idx, &tab.buffer, &tab.cursor, whole_lines);
            if sp.len() > 0 {
                sp
            } else {
                plain
            }
        } else {
            plain
        }
    } else {
        let e: Vec<Piece> = Vec::new();
        assert(pieces_of(e@) =~= Seq::<PieceModel>::empty());
        e
    };
    let mut r: Vec<Piece> = Vec::new();
    r.push(Piece::new(line_number_label(idx + 1, width), Look::fg(Colour::DarkGray)));
    let ghost head = pieces_of(r@);
    let ghost bv = pieces_of(body@);
    r.append(&mut body);
    assert(pieces_of(r@) =~= head + bv);
    r
}

/// The selection screen in an area whose inside is `inner_width` by
/// `inner_height`: like [`text_area`], with rows as [`selection_row`].
pub fn selection_area(
    editor: &Editor,
    inner_width: usize,
    inner_height: usize,
    highlights: &Vec<Vec<HighlightedLine>>,
) -> (a: TextArea)
    requires
        editor.wf(),
        editor.tab().viewport.top_line + inner_height <= usize::MAX,
        editor.tab().viewport.top_line <= editor.tab().buffer.lines@.len(),
    ensures
        a.update == (ViewportUpdate { width: sat_sub(inner_width as int, 5) as usize, height: inner_height }),
        a.rows@.len() == visible_end(
            editor.tab().viewport.top_line as int,
            inner_height as int,
            editor.tab().buffer.lines@.len() as int,
        ) - editor.tab().viewport.top_line,
        forall|i: int|
            0 <= i < a.rows@.len() ==> pieces_of(#[trigger] a.rows@[i]@) == selection_row(
                *editor,
                editor.tab().viewport.top_line + i,
                highlight_at(highlights@, i),
            ),
        a.gutter == number_width(editor.tab()) + 1,
        a.cursor_column == sat_sub(editor.tab().cursor.x as int, editor.tab().viewport.left_column as int),
        a.cursor_row == sat_sub(editor.tab().cursor.y as int, editor.tab().viewport.top_line as int),
{
    let tab = editor.current_tab();
    let top = tab.viewport.top_line;
    let total = tab.buffer.line_count();
    let end = if top + inner_height < total { top + inner_height } else { total };
    let width = number_width_of(tab);
    let mut rows: Vec<Vec<Piece>> = Vec::new();
    let mut idx = top;
    while idx < end
        invariant
            editor.wf(),
            top <= idx <= end,
            end <= tab.buffer.lines@.len(),
            *tab == editor.tab(),
            top == tab.viewport.top_line,
            width == number_width(*tab),
            rows@.len() == idx - top,
            forall|i: int|
                0 <= i < rows@.len() ==> pieces_of(#[trigger] rows@[i]@) == selection_row(
                    *editor,
                    top + i,
                    highlight_at(highlights@, i),
                ),
        decreases end - idx,
    {
        let empty: Vec<HighlightedLine> = Vec::new();
        let h = if idx - top < highlights.len() { &highlights[idx - top] } else { &empty };
        assert(h@ == highlight_at(highlights@, idx - top));
        let row = selection_row_of(editor, idx, width, h);
        rows.push(row);
        idx += 1;
    }
    let content_width = if inner_width > 5 { inner_width - 5 } else { 0 };
    let cx = tab.cursor.x;
    let left = tab.viewport.left_column;
    let cy = tab.cursor.y;
    TextArea {
        rows,
        cursor_column: if cx > left { cx - left } else { 0 },
        cursor_row: if cy > top { cy - top } else { 0 },
        gutter: width + 1,
        update: ViewportUpdate { width: content_width, height: inner_height },
    }
}

} // verus!
