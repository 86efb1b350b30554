use vstd::prelude::*;
use std::collections::HashSet;
use vstd::std_specs::iter::IteratorSpec;
use super::cursor::Cursor;
use super::history::{History, EditorAction, ActionType, ActionModel, EditorActionModel, pushed_actions};
use crate::text::{push_char_to, spec_is_whitespace, spec_is_alphanumeric, is_whitespace, is_alphanumeric, text_of, char_len, spaces, chars_of, string_of, insert_char, remove_char, substring, concat, char_at, pad_and_push, same_text, copy_strings};

verus! {

/// The lines of a buffer as character sequences.
pub type Text = Seq<Seq<char>>;

/// `t` with empty lines appended so that line `y` exists.
pub open spec fn extended_to(t: Text, y: int) -> Text {
    if y < t.len() {
        t
    } else {
        t + Seq::new((y + 1 - t.len()) as nat, |i: int| Seq::<char>::empty())
    }
}

/// The line indices `[lo, hi)`.
pub open spec fn index_range(lo: int, hi: int) -> Set<usize> {
    Set::new(|i: usize| lo <= i < hi)
}

/// The modified-line set after `count` lines starting at `lo` are removed:
/// lines before `lo` keep their index, lines after the removed ones move up
/// by `count`, and the removed lines are forgotten.
pub open spec fn lines_removed(s: Set<usize>, lo: int, count: int) -> Set<usize> {
    Set::new(
        |j: usize|
            (j < lo && s.contains(j)) || (j >= lo && j + count <= usize::MAX && s.contains(
                (j + count) as usize,
            )),
    )
}

/// `l` with `c` written at column `x`: inserted when `x` is within the line,
/// otherwise placed after spaces that fill the line up to column `x`.
pub open spec fn insert_padded(l: Seq<char>, x: int, c: char) -> Seq<char> {
    if x > l.len() {
        l + spaces((x - l.len()) as nat) + seq![c]
    } else {
        l.insert(x, c)
    }
}

/// The lines joined by newline characters.
pub open spec fn join_lines(t: Text) -> Seq<char>
    decreases t.len(),
{
    if t.len() == 0 {
        Seq::empty()
    } else if t.len() == 1 {
        t[0]
    } else {
        join_lines(t.drop_last()) + seq!['\n'] + t.last()
    }
}

/// The pieces of `s` between newline characters (one more piece than there
/// are newlines).
pub open spec fn split_newlines(s: Seq<char>) -> Text
    decreases s.len(),
{
    if s.len() == 0 {
        seq![Seq::<char>::empty()]
    } else {
        let rest = split_newlines(s.drop_last());
        if s.last() == '\n' {
            rest.push(Seq::<char>::empty())
        } else {
            rest.update(rest.len() - 1, rest.last().push(s.last()))
        }
    }
}

/// The set `s` after `count` lines starting at `lo` are removed (see [`lines_removed`]).
pub fn remove_line_range(s: &HashSet<usize>, lo: usize, count: usize) -> (r: HashSet<usize>)
    ensures
        r@ == lines_removed(s@, lo as int, count as int),
{
    let mut r: HashSet<usize> = HashSet::new();
    let ghost keys = vstd::std_specs::hash::spec_hash_keys_iter(s).remaining();
    proof {
        vstd::std_specs::hash::axiom_spec_hash_keys_iter(s);
    }
    for m in it: s.iter()
        invariant
            it.seq() == keys,
            keys.unref().to_set() == s@,
            forall|j: usize| #[trigger] r@.contains(j) ==> lines_removed(s@, lo as int, count as int).contains(j),
            forall|k: int|
                0 <= k < it.index() ==> {
                    let m = *#[trigger] keys[k];
                    (m < lo ==> r@.contains(m)) && (m >= lo + count ==> r@.contains(
                        (m - count) as usize,
                    ))
                },
    {
        let m: usize = *m;
        if m < lo {
            r.insert(m);
        } else if m >= lo && m - lo >= count {
            r.insert(m - count);
        }
    }
    assert(r@ =~= lines_removed(s@, lo as int, count as int)) by {
        assert forall|j: usize| lines_removed(s@, lo as int, count as int).contains(j) implies r@.contains(j) by {
            let m: usize = if j < lo { j } else { (j + count) as usize };
            assert(s@.contains(m));
            assert(keys.unref().to_set().contains(m));
            let k = choose|k: int| 0 <= k < keys.len() && keys.unref()[k] == m;
            assert(*keys[k] == m);
        }
    }
    r
}

/// `l` without one trailing carriage return.
pub open spec fn strip_cr(l: Seq<char>) -> Seq<char> {
    if l.len() > 0 && l.last() == '\r' {
        l.drop_last()
    } else {
        l
    }
}

/// The lines of file content `s`: split at newlines, each line that ended
/// with a newline losing one carriage return before it. Content that ends
/// with a newline has an empty last line; empty content is one empty line.
pub open spec fn loaded_lines(s: Seq<char>) -> Text {
    let p = split_newlines(s);
    p.drop_last().map_values(|l: Seq<char>| strip_cr(l)).push(p.last())
}

/// The lines of `s` as `str::lines` yields them: like [`loaded_lines`], but
/// without the empty piece after a final newline, and none at all for empty `s`.
pub open spec fn std_lines(s: Seq<char>) -> Text {
    if s.len() == 0 {
        Seq::empty()
    } else if s.last() == '\n' {
        loaded_lines(s).drop_last()
    } else {
        loaded_lines(s)
    }
}

/// Splits `s` at each newline (see [`split_newlines`]).
pub fn split_at_newlines(s: &str) -> (r: Vec<String>)
    ensures
        text_of(r@) == split_newlines(s@),
        r@.len() >= 1,
{
    let v = chars_of(s);
    let mut lines: Vec<String> = Vec::new();
    let mut cur: Vec<char> = Vec::new();
    let mut i: usize = 0;
    while i < v.len()
        invariant
            i <= v@.len(),
            v@ == s@,
            text_of(lines@).push(cur@) == split_newlines(s@.take(i as int)),
        decreases v.len() - i,
    {
        let ghost before = text_of(lines@).push(cur@);
        assert(s@.take(i + 1).drop_last() =~= s@.take(i as int));
        if v[i] == '\n' {
            let piece = string_of(cur.as_slice());
            lines.push(piece);
            cur = Vec::new();
            assert(text_of(lines@).push(cur@) =~= before.push(Seq::<char>::empty()));
        } else {
            cur.push(v[i]);
            assert(text_of(lines@).push(cur@) =~= before.update(
                before.len() - 1,
                before.last().push(v@[i as int]),
            ));
        }
        i += 1;
    }
    assert(s@.take(v.len() as int) =~= s@);
    let last = string_of(cur.as_slice());
    lines.push(last);
    assert(text_of(lines@) =~= split_newlines(s@));
    lines
}

/// `s` without one trailing carriage return.
pub fn strip_cr_string(s: &String) -> (r: String)
    ensures
        r@ == strip_cr(s@),
{
    let n = char_len(s.as_str());
    if n > 0 && char_at(s.as_str(), n - 1) == '\r' {
        let r = substring(s.as_str(), 0, n - 1);
        assert(r@ =~= s@.drop_last());
        r
    } else {
        s.clone()
    }
}

/// The lines of file content `s` (see [`loaded_lines`]).
pub fn lines_of_content(s: &str) -> (r: Vec<String>)
    ensures
        text_of(r@) == loaded_lines(s@),
        r@.len() >= 1,
{
    let pieces = split_at_newlines(s);
    let n = pieces.len();
    let mut r: Vec<String> = Vec::new();
    let mut i: usize = 0;
    while i < n - 1
        invariant
            n == pieces@.len(),
            n >= 1,
            i <= n - 1,
            text_of(pieces@) == split_newlines(s@),
            text_of(r@) == split_newlines(s@).take(i as int).map_values(|l: Seq<char>| strip_cr(l)),
        decreases n - 1 - i,
    {
        let piece = strip_cr_string(&pieces[i]);
        assert(text_of(pieces@)[i as int] == pieces@[i as int]@);
        let ghost prev = text_of(r@);
        let ghost sp = split_newlines(s@);
        r.push(piece);
        assert(text_of(r@) =~= prev.push(piece@));
        assert(sp.take(i + 1).map_values(|l: Seq<char>| strip_cr(l)) =~= sp.take(
            i as int,
        ).map_values(|l: Seq<char>| strip_cr(l)).push(strip_cr(sp[i as int])));
        i += 1;
    }
    r.push(pieces[n - 1].clone());
    assert(text_of(r@) =~= loaded_lines(s@));
    r
}

/// The lines of `s` as `str::lines` yields them (see [`std_lines`]).
pub fn std_lines_of(s: &str) -> (r: Vec<String>)
    ensures
        text_of(r@) == std_lines(s@),
{
    let n = char_len(s);
    if n == 0 {
        let r: Vec<String> = Vec::new();
        assert(text_of(r@) =~= std_lines(s@));
        return r;
    }
    let mut r = lines_of_content(s);
    if char_at(s, n - 1) == '\n' {
        r.pop();
        assert(text_of(r@) =~= std_lines(s@));
    }
    r
}

/// Word characters: alphanumeric ones and the underscore.
pub open spec fn is_word_char(c: char) -> bool {
    spec_is_alphanumeric(c) || c == '_'
}

/// Whether `c` continues a run that started with `first`: whitespace after
/// whitespace, word characters after a word character, and other symbols
/// (neither word characters nor whitespace) after another symbol.
pub open spec fn same_run(first: char, c: char) -> bool {
    if spec_is_whitespace(first) {
        spec_is_whitespace(c)
    } else if is_word_char(first) {
        is_word_char(c)
    } else {
        !(is_word_char(c) || spec_is_whitespace(c))
    }
}

/// The end of the run of characters of `l` that continue the run started by
/// `first`, scanning from position `k`.
pub open spec fn run_end(l: Seq<char>, first: char, k: int) -> int
    decreases l.len() - k,
{
    if k < 0 || k >= l.len() || !same_run(first, l[k]) {
        k
    } else {
        run_end(l, first, k + 1)
    }
}

/// The end of the word (or whitespace run, or symbol run) that starts at `x`.
pub open spec fn word_end(l: Seq<char>, x: int) -> int {
    run_end(l, l[x], x)
}

/// Whether `c` continues a run started by `first` (see [`same_run`]).
fn run_continues(first: char, c: char) -> (r: bool)
    ensures
        r == same_run(first, c),
{
    if is_whitespace(first) {
        is_whitespace(c)
    } else if is_alphanumeric(first) || first == '_' {
        is_alphanumeric(c) || c == '_'
    } else {
        !(is_alphanumeric(c) || c == '_' || is_whitespace(c))
    }
}

/// The selection bounds `(first_line, first_col, last_line, last_col)`:
/// the two ends of a selection in document order.
pub open spec fn ordered(
    start: (usize, usize),
    end: (usize, usize),
) -> (usize, usize, usize, usize) {
    if start.0 < end.0 || (start.0 == end.0 && start.1 <= end.1) {
        (start.0, start.1, end.0, end.1)
    } else {
        (end.0, end.1, start.0, start.1)
    }
}

/// Whether (`line`, `column`) lies in the selection from `sel` to `cursor`:
/// whole lines in visual-line mode; otherwise from the first position
/// (included) to the last (excluded).
pub open spec fn position_selected(
    sel: Option<(usize, usize)>,
    line: usize,
    column: usize,
    cursor: Cursor,
    visual_line: bool,
) -> bool {
    match sel {
        None => false,
        Some(start) => {
            let (fl, fc, ll, lc) = ordered(start, (cursor.y, cursor.x));
            if line < fl || line > ll {
                false
            } else if visual_line {
                true
            } else if line == fl && line == ll {
                fc <= column < lc
            } else if line == fl {
                column >= fc
            } else if line == ll {
                column < lc
            } else {
                true
            }
        }
    }
}

/// Each existing line among `[from, to)` followed by a newline, concatenated.
pub open spec fn lines_block(t: Text, from: int, to: int) -> Seq<char>
    decreases to - from,
{
    if to <= from {
        Seq::empty()
    } else {
        lines_block(t, from, to - 1) + (if 0 <= to - 1 < t.len() {
            t[to - 1] + seq!['\n']
        } else {
            Seq::empty()
        })
    }
}

/// Lines past the end add nothing to a block.
pub proof fn lemma_lines_block_cap(t: Text, from: int, to: int)
    requires
        0 <= from,
        t.len() <= to,
    ensures
        lines_block(t, from, to) == lines_block(t, from, if from < t.len() as int {
            t.len() as int
        } else {
            from
        }),
    decreases to - from,
{
    if to > t.len() && to > from {
        lemma_lines_block_cap(t, from, to - 1);
    } else if to > from && from >= t.len() {
        lemma_lines_block_cap(t, from, to - 1);
    }
}

/// `min(a, b)` on integers.
pub open spec fn min_int(a: int, b: int) -> int {
    if a <= b {
        a
    } else {
        b
    }
}

/// The selected text from `start` to `cursor` in `t`: in visual-line mode the
/// selected lines each followed by a newline (at least a newline); otherwise
/// the characters between the two ends, with a newline after each line end
/// that the selection reaches (except at the end of the last line).
pub open spec fn selected_text(t: Text, start: (usize, usize), cursor: Cursor, visual_line: bool) -> Seq<
    char,
> {
    let (fl, fc, ll, lc) = ordered(start, (cursor.y, cursor.x));
    if visual_line {
        let r = lines_block(t, fl as int, ll + 1);
        if r.len() == 0 {
            seq!['\n']
        } else {
            r
        }
    } else if fl == ll {
        if fl < t.len() {
            let l = t[fl as int];
            let e = min_int(lc as int, l.len() as int);
            let s = min_int(fc as int, l.len() as int);
            if s <= e && s < l.len() {
                let c = l.subrange(s, e);
                if e >= l.len() && fl < t.len() - 1 {
                    c + seq!['\n']
                } else {
                    c
                }
            } else {
                Seq::empty()
            }
        } else {
            Seq::empty()
        }
    } else {
        let first = if fl < t.len() {
            let l = t[fl as int];
            l.subrange(min_int(fc as int, l.len() as int), l.len() as int) + seq!['\n']
        } else {
            Seq::empty()
        };
        let last = if ll < t.len() {
            let l = t[ll as int];
            let e = min_int(lc as int, l.len() as int);
            l.subrange(0, e) + if e >= l.len() && ll < t.len() - 1 {
                seq!['\n']
            } else {
                Seq::<char>::empty()
            }
        } else {
            Seq::empty()
        };
        first + lines_block(t, fl + 1, ll as int) + last
    }
}

/// The text after deleting from (`sl`, `sc`) to (`el`, `ec`), when both
/// positions exist and are in order.
pub open spec fn between_deleted(t: Text, sl: int, sc: int, el: int, ec: int) -> Option<Text> {
    if sl < 0 || el < 0 || sc < 0 || ec < 0 || sl >= t.len() || el >= t.len() {
        None
    } else if sl == el {
        let l = t[sl];
        if sc <= l.len() && ec <= l.len() && sc <= ec {
            Some(t.update(sl, l.subrange(0, sc) + l.subrange(ec, l.len() as int)))
        } else {
            None
        }
    } else if sl < el {
        let lf = t[sl];
        let ll = t[el];
        if sc <= lf.len() && ec <= ll.len() {
            Some(
                t.subrange(0, sl).push(lf.subrange(0, sc) + ll.subrange(ec, ll.len() as int))
                    + t.subrange(el + 1, t.len() as int),
            )
        } else {
            None
        }
    } else {
        None
    }
}

/// The lines that inserting `s` adds: those of `str::lines`, or `s` itself
/// when that gives none.
pub open spec fn inserted_lines(s: Seq<char>) -> Text {
    if std_lines(s).len() == 0 {
        seq![s]
    } else {
        std_lines(s)
    }
}

/// The text and cursor after inserting `s` at cursor `c`, when `s` is not
/// empty and the cursor is on a line and within it: the first inserted line
/// joins the text before the cursor, the last one the text after it.
pub open spec fn text_inserted(t: Text, c: Cursor, s: Seq<char>) -> Option<(Text, Cursor)> {
    let ls = inserted_lines(s);
    let x = c.x as int;
    let y = c.y as int;
    if s.len() == 0 || y >= t.len() || x > t[y].len() {
        None
    } else {
        let l = t[y];
        let n = ls.len();
        if n == 1 {
            Some(
                (
                    t.update(y, l.subrange(0, x) + ls[0] + l.subrange(x, l.len() as int)),
                    Cursor { x: (x + ls[0].len()) as usize, y: c.y },
                ),
            )
        } else {
            Some(
                (
                    t.subrange(0, y).push(l.subrange(0, x) + ls[0]) + ls.subrange(1, n - 1) + seq![
                        ls[n - 1] + l.subrange(x, l.len() as int),
                    ] + t.subrange(y + 1, t.len() as int),
                    Cursor { x: ls[n - 1].len() as usize, y: (y + n - 1) as usize },
                ),
            )
        }
    }
}

/// Whether inserting `s` at `c` keeps the cursor arithmetic within `usize`.
pub open spec fn insert_fits(c: Cursor, s: Seq<char>) -> bool {
    let ls = inserted_lines(s);
    &&& ls.len() == 1 ==> c.x + ls[0].len() <= usize::MAX
    &&& c.y + ls.len() <= usize::MAX
}

/// What replaying (undoing or redoing) an action does: whether it applied,
/// and the resulting text, modified-line set and cursor.
pub struct Replay {
    pub done: bool,
    pub text: Text,
    pub modified: Set<usize>,
    pub cursor: Cursor,
}

/// A replay that did not apply: nothing changes but the cursor.
pub open spec fn not_applied(t: Text, m: Set<usize>, c: Cursor) -> Replay {
    Replay { done: false, text: t, modified: m, cursor: c }
}

/// A replay that applied.
pub open spec fn applied(t: Text, m: Set<usize>, c: Cursor) -> Replay {
    Replay { done: true, text: t, modified: m, cursor: c }
}

/// Number of characters of line `y` of `t` (0 past the end).
pub open spec fn line_len(t: Text, y: int) -> int {
    if 0 <= y < t.len() {
        t[y].len() as int
    } else {
        0
    }
}

/// Replacing the selection from (`sl`, `sc`) to (`el`, `ec`) by `s`: the
/// cursor goes to (`sc`, `sl`), the span is deleted and `s` inserted there.
pub open spec fn selection_replaced(
    t: Text,
    m: Set<usize>,
    sl: usize,
    sc: usize,
    el: usize,
    ec: usize,
    s: Seq<char>,
) -> Replay {
    let c0 = Cursor { x: sc, y: sl };
    match between_deleted(t, sl as int, sc as int, el as int, ec as int) {
        Some(t1) => {
            let m1 = m.insert(sl);
            match text_inserted(t1, c0, s) {
                Some((t2, c2)) => applied(
                    t2,
                    m1 + index_range(sl as int, sl + inserted_lines(s).len()),
                    c2,
                ),
                None => applied(t1, m1, c0),
            }
        },
        None => not_applied(t, m, c0),
    }
}

/// Where text `s` inserted at line `sl`, column `sc` ends (see
/// [`text_inserted`]); at (`sl`, `sc`) itself when `s` is empty.
pub open spec fn inserted_end(sl: usize, sc: usize, s: Seq<char>) -> (usize, usize) {
    let ls = inserted_lines(s);
    if s.len() == 0 {
        (sl, sc)
    } else if ls.len() == 1 {
        (sl, (sc + ls[0].len()) as usize)
    } else {
        ((sl + ls.len() - 1) as usize, ls[ls.len() - 1].len() as usize)
    }
}

/// What undoing action `a` does to text `t` with modified lines `m`; the
/// cursor first goes back to where it was before the action. A selection
/// replacement is undone by deleting the text that replaced the selection,
/// from where the selection started to where that text ends, and putting
/// the old text back there.
pub open spec fn undo_replay(t: Text, m: Set<usize>, a: EditorActionModel) -> Replay {
    let cb = a.cursor_before;
    match a.action_type {
        ActionModel::InsertChar { x, y, c } => if y < t.len() && x < t[y as int].len() {
            applied(t.update(y as int, t[y as int].remove(x as int)), m.insert(y), cb)
        } else {
            not_applied(t, m, cb)
        },
        ActionModel::DeleteChar { x, y, c } => if y < t.len() && x <= t[y as int].len() {
            applied(t.update(y as int, t[y as int].insert(x as int, c)), m.insert(y), cb)
        } else {
            not_applied(t, m, cb)
        },
        ActionModel::InsertNewline { x, y, remaining_text } => if y + 1 < t.len() {
            applied(
                t.update(y as int, t[y as int] + remaining_text).remove(y + 1),
                m.insert(y),
                cb,
            )
        } else {
            not_applied(t, m, cb)
        },
        ActionModel::DeleteLine { y, content } => if y <= t.len() {
            applied(t.insert(y as int, content), m.insert(y), cb)
        } else {
            not_applied(t, m, cb)
        },
        ActionModel::JoinLines { y, column_pos } => if y < t.len() && column_pos <= t[y as int].len() {
            let l = t[y as int];
            applied(
                t.update(y as int, l.subrange(0, column_pos as int)).insert(
                    y + 1,
                    l.subrange(column_pos as int, l.len() as int),
                ),
                m.insert(y).insert((y + 1) as usize),
                cb,
            )
        } else {
            not_applied(t, m, cb)
        },
        ActionModel::ReplaceSelection { old_text, new_text, selection_start, selection_end } => {
            let end = inserted_end(selection_start.0, selection_start.1, new_text);
            selection_replaced(t, m, selection_start.0, selection_start.1, end.0, end.1, old_text)
        },
        ActionModel::SetContent { old_lines, new_lines } => applied(
            old_lines,
            index_range(0, old_lines.len() as int),
            cb,
        ),
        ActionModel::OpenLineBelow { y } => if y + 1 < t.len() {
            applied(t.remove(y + 1), m.insert(y), cb)
        } else {
            not_applied(t, m, cb)
        },
        ActionModel::OpenLineAbove { y } => if y < t.len() {
            let t1 = t.remove(y as int);
            applied(
                t1,
                if y < t1.len() {
                    m.insert(y)
                } else {
                    m
                },
                cb,
            )
        } else {
            not_applied(t, m, cb)
        },
        ActionModel::DeleteWord { position, deleted_text } => {
            let (y, x) = position;
            if y < t.len() && x <= t[y as int].len() {
                let l = t[y as int];
                applied(
                    t.update(
                        y as int,
                        l.subrange(0, x as int) + deleted_text + l.subrange(x as int, l.len() as int),
                    ),
                    m.insert(y),
                    cb,
                )
            } else {
                not_applied(t, m, cb)
            }
        },
        ActionModel::DeleteToEndOfLine { position, deleted_text } => {
            let (y, x) = position;
            if y < t.len() && x <= t[y as int].len() {
                applied(t.update(y as int, t[y as int] + deleted_text), m.insert(y), cb)
            } else {
                not_applied(t, m, cb)
            }
        },
        ActionModel::DeleteToStartOfLine { position, deleted_text } => {
            let (y, x) = position;
            if y < t.len() {
                applied(t.update(y as int, deleted_text + t[y as int]), m.insert(y), cb)
            } else {
                not_applied(t, m, cb)
            }
        },
    }
}

/// Whether undoing `a` keeps the arithmetic within `usize`.
pub open spec fn undo_fits(a: EditorActionModel) -> bool {
    match a.action_type {
        ActionModel::OpenLineBelow { y } => y < usize::MAX,
        ActionModel::ReplaceSelection { old_text, new_text, selection_start, .. } => insert_fits(
            Cursor { x: selection_start.1, y: selection_start.0 },
            old_text,
        ) && insert_fits(Cursor { x: selection_start.1, y: selection_start.0 }, new_text),
        _ => true,
    }
}

/// What redoing action `a` does before the cursor is kept within its line;
/// the cursor first goes back to where it was before the action.
pub open spec fn redo_steps(t: Text, m: Set<usize>, a: EditorActionModel) -> Replay {
    let cb = a.cursor_before;
    match a.action_type {
        ActionModel::InsertChar { x, y, c } => if y < t.len() && x <= t[y as int].len() {
            applied(
                t.update(y as int, t[y as int].insert(x as int, c)),
                m.insert(y),
                Cursor { x: (x + 1) as usize, y: cb.y },
            )
        } else {
            not_applied(t, m, cb)
        },
        ActionModel::DeleteChar { x, y, c } => if y < t.len() && x < t[y as int].len() {
            applied(t.update(y as int, t[y as int].remove(x as int)), m.insert(y), cb)
        } else {
            not_applied(t, m, cb)
        },
        ActionModel::InsertNewline { x, y, remaining_text } => if y < t.len() && x
            <= t[y as int].len() {
            let l = t[y as int];
            applied(
                t.update(y as int, l.subrange(0, x as int)).insert(
                    y + 1,
                    l.subrange(x as int, l.len() as int),
                ),
                m.insert(y).insert((y + 1) as usize),
                Cursor { x: 0, y: (y + 1) as usize },
            )
        } else {
            not_applied(t, m, cb)
        },
        ActionModel::DeleteLine { y, content } => if y < t.len() {
            let t1 = t.remove(y as int);
            let last = if t1.len() > 0 {
                t1.len() - 1
            } else {
                0
            };
            applied(
                t1,
                if y < t1.len() {
                    m.insert(y)
                } else {
                    m
                },
                if cb.y >= t1.len() {
                    Cursor { x: line_len(t1, last) as usize, y: last as usize }
                } else {
                    cb
                },
            )
        } else {
            not_applied(t, m, cb)
        },
        ActionModel::JoinLines { y, column_pos } => if y + 1 < t.len() {
            applied(
                t.update(y as int, t[y as int] + t[y + 1]).remove(y + 1),
                m.insert(y),
                Cursor { x: column_pos, y: cb.y },
            )
        } else {
            not_applied(t, m, cb)
        },
        ActionModel::ReplaceSelection { old_text, new_text, selection_start, selection_end } =>
            selection_replaced(
            t,
            m,
            selection_start.0,
            selection_start.1,
            selection_end.0,
            selection_end.1,
            new_text,
        ),
        ActionModel::SetContent { old_lines, new_lines } => applied(
            new_lines,
            index_range(0, new_lines.len() as int),
            cb,
        ),
        ActionModel::OpenLineBelow { y } => if y < t.len() {
            applied(
                t.insert(y + 1, Seq::<char>::empty()),
                m.insert((y + 1) as usize),
                Cursor { x: 0, y: (y + 1) as usize },
            )
        } else {
            not_applied(t, m, cb)
        },
        ActionModel::OpenLineAbove { y } => if y <= t.len() {
            applied(t.insert(y as int, Seq::<char>::empty()), m.insert(y), Cursor { x: 0, y })
        } else {
            not_applied(t, m, cb)
        },
        ActionModel::DeleteWord { position, deleted_text } => {
            let (y, x) = position;
            let d = deleted_text.len();
            if y < t.len() && x + d <= t[y as int].len() && t[y as int].subrange(
                x as int,
                x + d,
            ) == deleted_text {
                let l = t[y as int];
                applied(
                    t.update(y as int, l.subrange(0, x as int) + l.subrange(x + d, l.len() as int)),
                    m.insert(y),
                    Cursor { x, y },
                )
            } else {
                not_applied(t, m, cb)
            }
        },
        ActionModel::DeleteToEndOfLine { position, deleted_text } => {
            let (y, x) = position;
            if y < t.len() && x <= t[y as int].len() {
                applied(
                    t.update(y as int, t[y as int].subrange(0, x as int)),
                    m.insert(y),
                    Cursor { x, y },
                )
            } else {
                not_applied(t, m, cb)
            }
        },
        ActionModel::DeleteToStartOfLine { position, deleted_text } => {
            let (y, x) = position;
            if y < t.len() && x <= t[y as int].len() {
                let l = t[y as int];
                applied(
                    t.update(y as int, l.subrange(x as int, l.len() as int)),
                    m.insert(y),
                    Cursor { x: 0, y },
                )
            } else {
                not_applied(t, m, cb)
            }
        },
    }
}

/// What redoing action `a` does: [`redo_steps`], then, if it applied, the
/// cursor's column is kept within its line.
pub open spec fn redo_replay(t: Text, m: Set<usize>, a: EditorActionModel) -> Replay {
    let r = redo_steps(t, m, a);
    if r.done {
        Replay {
            cursor: Cursor {
                x: min_int(r.cursor.x as int, line_len(r.text, r.cursor.y as int)) as usize,
                y: r.cursor.y,
            },
            ..r
        }
    } else {
        r
    }
}

/// Whether redoing `a` keeps the arithmetic within `usize`.
pub open spec fn redo_fits(a: EditorActionModel) -> bool {
    match a.action_type {
        ActionModel::InsertChar { x, .. } => x < usize::MAX,
        ActionModel::DeleteWord { position, deleted_text } => position.1 + deleted_text.len()
            <= usize::MAX,
        ActionModel::ReplaceSelection { new_text, selection_start, .. } => insert_fits(
            Cursor { x: selection_start.1, y: selection_start.0 },
            new_text,
        ),
        _ => true,
    }
}

/// Where `s` inserted at line `sl`, column `sc` ends (see [`inserted_end`]).
fn end_of_inserted(sl: usize, sc: usize, s: &str) -> (r: (usize, usize))
    requires
        insert_fits(Cursor { x: sc, y: sl }, s@),
    ensures
        r == inserted_end(sl, sc, s@),
{
    if char_len(s) == 0 {
        return (sl, sc);
    }
    let lines = std_lines_of(s);
    if lines.len() == 0 {
        assert(inserted_lines(s@) =~= seq![s@]);
        (sl, sc + char_len(s))
    } else if lines.len() == 1 {
        (sl, sc + char_len(lines[0].as_str()))
    } else {
        let n = lines.len();
        (sl + (n - 1), char_len(lines[n - 1].as_str()))
    }
}

/// Whether buffer `n` is `o` after deleting the character at cursor `c`
/// (see [`Buffer::delete_char_at_cursor`]).
pub open spec fn char_deleted(o: Buffer, n: Buffer, c: Cursor) -> bool {
    let t = o.text();
    let (x, y) = (c.x as int, c.y as int);
    if y < t.len() && x < t[y].len() {
        &&& n.text() == t.update(y, t[y].remove(x))
        &&& n.modified_lines@ == o.modified_lines@.insert(c.y)
        &&& n.is_modified
        &&& Buffer::recorded(
            &n.history,
            &o.history,
            EditorActionModel {
                action_type: ActionModel::DeleteChar {
                    x: c.x,
                    y: c.y,
                    c: t[y][x],
                },
                cursor_before: c,
                cursor_after: c,
            },
        )
    } else {
        &&& n.text() == t
        &&& n.modified_lines@ == o.modified_lines@
        &&& n.is_modified == o.is_modified
        &&& n.history == o.history
    }
}

/// Whether buffer `n` is `o` after deleting line `line_idx` (see [`Buffer::delete_line`]).
pub open spec fn line_deleted(o: Buffer, n: Buffer, line_idx: usize) -> bool {
    let t = o.text();
    let y = line_idx as int;
    if y < t.len() {
        let r = t.remove(y);
        &&& n.text() == (if r.len() == 0 {
            seq![Seq::<char>::empty()]
        } else {
            r
        })
        &&& n.modified_lines@ == lines_removed(
            o.modified_lines@,
            y,
            1,
        )
        &&& n.is_modified
        &&& Buffer::recorded(
            &n.history,
            &o.history,
            EditorActionModel {
                action_type: ActionModel::DeleteLine { y: line_idx, content: t[y] },
                cursor_before: Cursor { x: 0, y: line_idx },
                cursor_after: if y + 1 < t.len() {
                    Cursor { x: 0, y: line_idx }
                } else if y > 0 {
                    Cursor { x: t[y - 1].len() as usize, y: (y - 1) as usize }
                } else {
                    Cursor { x: 0, y: 0 }
                },
            },
        )
    } else {
        &&& n.text() == t
        &&& n.modified_lines@ == o.modified_lines@
        &&& n.is_modified == o.is_modified
        &&& n.history == o.history
    }
}

/// Whether buffer `n` is `o` after deleting the word at cursor `c` (see
/// [`Buffer::delete_word_at_cursor`]).
pub open spec fn word_deleted(o: Buffer, n: Buffer, c: Cursor) -> bool {
    let t = o.text();
    let (x, y) = (c.x as int, c.y as int);
    if y < t.len() && x < t[y].len() {
        let l = t[y];
        let e = word_end(l, x);
        &&& x < e <= l.len()
        &&& n.text() == t.update(y, l.subrange(0, x) + l.subrange(e, l.len() as int))
        &&& n.modified_lines@ == o.modified_lines@.insert(c.y)
        &&& n.is_modified
        &&& Buffer::recorded(
            &n.history,
            &o.history,
            EditorActionModel {
                action_type: ActionModel::DeleteWord {
                    position: (c.y, c.x),
                    deleted_text: l.subrange(x, e),
                },
                cursor_before: c,
                cursor_after: c,
            },
        )
    } else {
        &&& n.text() == t
        &&& n.modified_lines@ == o.modified_lines@
        &&& n.is_modified == o.is_modified
        &&& n.history == o.history
    }
}

/// Whether buffer `n` is `o` after deleting from cursor `c` to the end of
/// its line (see [`Buffer::delete_to_end_of_line`]).
pub open spec fn end_deleted(o: Buffer, n: Buffer, c: Cursor) -> bool {
    let t = o.text();
    let (x, y) = (c.x as int, c.y as int);
    if y < t.len() && x < t[y].len() {
        let l = t[y];
        &&& n.text() == t.update(y, l.subrange(0, x))
        &&& n.modified_lines@ == o.modified_lines@.insert(c.y)
        &&& n.is_modified
        &&& Buffer::recorded(
            &n.history,
            &o.history,
            EditorActionModel {
                action_type: ActionModel::DeleteToEndOfLine {
                    position: (c.y, c.x),
                    deleted_text: l.subrange(x, l.len() as int),
                },
                cursor_before: c,
                cursor_after: c,
            },
        )
    } else {
        &&& n.text() == t
        &&& n.modified_lines@ == o.modified_lines@
        &&& n.is_modified == o.is_modified
        &&& n.history == o.history
    }
}

/// Whether buffer `n` is `o` after deleting from the start of the cursor's
/// line to cursor `c` (see [`Buffer::delete_to_beginning_of_line`]).
pub open spec fn start_deleted(o: Buffer, n: Buffer, c: Cursor) -> bool {
    let t = o.text();
    let (x, y) = (c.x as int, c.y as int);
    if y < t.len() && x > 0 {
        let l = t[y];
        &&& n.text() == t.update(y, l.subrange(x, l.len() as int))
        &&& n.modified_lines@ == o.modified_lines@.insert(c.y)
        &&& n.is_modified
        &&& Buffer::recorded(
            &n.history,
            &o.history,
            EditorActionModel {
                action_type: ActionModel::DeleteToStartOfLine {
                    position: (c.y, c.x),
                    deleted_text: l.subrange(0, x),
                },
                cursor_before: c,
                cursor_after: Cursor { x: 0, y: c.y },
            },
        )
    } else {
        &&& n.text() == t
        &&& n.modified_lines@ == o.modified_lines@
        &&& n.is_modified == o.is_modified
        &&& n.history == o.history
    }
}

/// Whether buffer `n` with cursor `nc` is buffer `o` with cursor `c` after
/// deleting the selection, line-wise where `visual_line`, `r` telling
/// whether text was deleted (see [`Buffer::delete_selection`]).
pub open spec fn selection_deleted(o: Buffer, n: Buffer, c: Cursor, nc: Cursor, visual_line: bool, r: bool) -> bool {
    match o.selection_start {
        None => {
            &&& !r
            &&& n.selection_start is None
            &&& n.text() == o.text()
            &&& n.modified_lines == o.modified_lines
            &&& n.is_modified == o.is_modified
            &&& n.history == o.history
            &&& nc == c
        },
        Some(start) => {
            let t = o.text();
            let (fl, fc, ll, lc) = ordered(start, (c.y, c.x));
            let action = |after: Cursor|
                EditorActionModel {
                    action_type: ActionModel::ReplaceSelection {
                        old_text: selected_text(t, start, c, visual_line),
                        new_text: Seq::<char>::empty(),
                        selection_start: (fl, fc),
                        selection_end: (ll, lc),
                    },
                    cursor_before: c,
                    cursor_after: after,
                };
            &&& n.selection_start is None
            &&& if visual_line && ll < t.len() {
                let count = ll - fl + 1;
                let rest = if count < t.len() {
                    t.subrange(0, fl as int) + t.subrange(ll + 1, t.len() as int)
                } else {
                    seq![Seq::<char>::empty()]
                };
                &&& r
                &&& n.text() == rest
                &&& n.modified_lines@ == lines_removed(
                    o.modified_lines@,
                    fl as int,
                    count,
                )
                &&& n.is_modified
                &&& nc.y == min_int(fl as int, rest.len() - 1)
                &&& nc.x == 0
                &&& Buffer::recorded(&n.history, &o.history, action(nc))
            } else if !visual_line && fl == ll && fl < t.len() && min_int(
                fc as int,
                t[fl as int].len() as int,
            ) < min_int(lc as int, t[fl as int].len() as int) {
                let l = t[fl as int];
                let s = min_int(fc as int, l.len() as int);
                let e = min_int(lc as int, l.len() as int);
                &&& r
                &&& n.text() == t.update(
                    fl as int,
                    l.subrange(0, s) + l.subrange(e, l.len() as int),
                )
                &&& n.modified_lines@ == o.modified_lines@.insert(fl)
                &&& n.is_modified
                &&& nc == Cursor { x: s as usize, y: fl }
                &&& Buffer::recorded(&n.history, &o.history, action(nc))
            } else if !visual_line && fl != ll && ll < t.len() {
                let lf = t[fl as int];
                let lt = t[ll as int];
                let prefix = if fc <= lf.len() {
                    lf.subrange(0, fc as int)
                } else {
                    lf
                };
                let suffix = if lc < lt.len() {
                    lt.subrange(lc as int, lt.len() as int)
                } else {
                    Seq::<char>::empty()
                };
                &&& r
                &&& n.text() == t.subrange(0, fl as int).push(prefix + suffix)
                    + t.subrange(ll + 1, t.len() as int)
                &&& n.modified_lines@ == lines_removed(
                    o.modified_lines@.insert(fl),
                    fl + 1,
                    ll - fl,
                )
                &&& n.is_modified
                &&& nc == Cursor { x: fc, y: fl }
                &&& Buffer::recorded(&n.history, &o.history, action(nc))
            } else {
                &&& !r
                &&& n.text() == t
                &&& n.modified_lines == o.modified_lines
                &&& n.is_modified == o.is_modified
                &&& n.history == o.history
                &&& nc == c
            }
        },
    }
}

/// Whether history `n` is `o` after one or more actions were recorded: outside
/// an undo or redo, the last recorded action can be undone and none redone;
/// during one, nothing changes.
pub open spec fn some_recorded(o: History, n: History) -> bool {
    &&& n.wf()
    &&& n.max() == o.max()
    &&& n.replaying() == o.replaying()
    &&& o.replaying() ==> n.actions() == o.actions() && n.index() == o.index()
    &&& !o.replaying() ==> 0 < n.index() && n.index() == n.actions().len()
}

/// Recording an action in a well-formed history records some action.
pub proof fn lemma_recorded_some(o: History, n: History, a: EditorActionModel)
    requires
        o.wf(),
        Buffer::recorded(&n, &o, a),
    ensures
        some_recorded(o, n),
{
    if !o.replaying() {
        let t = o.actions().take(o.index() as int).push(a);
        assert(t.len() >= 1);
        if t.len() > o.max() {
            assert(t.skip(t.len() - o.max()).len() == o.max());
        }
    }
}

/// Recording one more action after some were recorded still counts as some recorded.
pub proof fn lemma_recorded_more(o: History, m: History, n: History, a: EditorActionModel)
    requires
        some_recorded(o, m),
        Buffer::recorded(&n, &m, a),
    ensures
        some_recorded(o, n),
{
    lemma_recorded_some(m, n, a);
}

/// Some actions recorded after some others are some actions recorded.
pub proof fn lemma_some_recorded_trans(o: History, m: History, n: History)
    requires
        some_recorded(o, m),
        some_recorded(m, n),
    ensures
        some_recorded(o, n),
{
}

/// Errors of buffer operations.
#[derive(Debug, Clone, Copy, PartialEq, Eq, Structural)]
pub enum BufferError {
    /// Saving needs a file path and the buffer has none.
    NoFilePath,
}

/// A text buffer: its lines, file path, modification state, selection and
/// undo history.
pub struct Buffer {
    pub lines: Vec<String>,
    pub file_path: Option<String>,
    pub modified_lines: HashSet<usize>,
    pub is_modified: bool,
    /// Name of the syntax used to highlight the buffer, if one was found.
    pub syntax: Option<String>,
    /// Start of the selection as (line, column).
    pub selection_start: Option<(usize, usize)>,
    pub history: History,
}

impl Buffer {
    /// The buffer's lines as character sequences.
    pub open spec fn text(&self) -> Text {
        text_of(self.lines@)
    }

    /// The buffer's invariant (that of its history).
    pub open spec fn wf(&self) -> bool {
        self.history.wf()
    }

    /// Whether the buffer differs from `old` only in `lines`, `modified_lines`,
    /// `is_modified` and `history`.
    pub open spec fn same_settings(&self, old: &Buffer) -> bool {
        &&& self.file_path == old.file_path
        &&& self.syntax == old.syntax
        &&& self.selection_start == old.selection_start
    }

    /// The history after `a` is recorded (unchanged during an undo or redo).
    pub open spec fn recorded(new: &History, old: &History, a: EditorActionModel) -> bool {
        &&& new.wf()
        &&& new.max() == old.max()
        &&& new.replaying() == old.replaying()
        &&& old.replaying() ==> new.actions() == old.actions() && new.index() == old.index()
        &&& !old.replaying() ==> new.actions() == pushed_actions(
            old.actions(),
            old.index() as int,
            a,
            old.max() as int,
        ) && new.index() == new.actions().len()
    }

    pub fn new() -> (b: Self)
        ensures
            b.wf(),
            b.text() == seq![Seq::<char>::empty()],
            b.file_path is None,
            b.modified_lines@ == Set::<usize>::empty(),
            !b.is_modified,
            b.syntax is None,
            b.selection_start is None,
            b.history.actions().len() == 0,
            b.history.index() == 0,
            !b.history.replaying(),
    {
        let mut lines: Vec<String> = Vec::new();
        lines.push(String::new());
        let b = Buffer {
            lines,
            file_path: None,
            modified_lines: HashSet::new(),
            is_modified: false,
            syntax: None,
            selection_start: None,
            history: History::new(),
        };
        assert(b.text() =~= seq![Seq::<char>::empty()]);
        b
    }

    /// Starts a selection at `position`, given as (line, column).
    pub fn start_selection(&mut self, position: (usize, usize))
        ensures
            final(self).selection_start == Some(position),
            final(self).lines == old(self).lines,
            final(self).file_path == old(self).file_path,
            final(self).modified_lines == old(self).modified_lines,
            final(self).is_modified == old(self).is_modified,
            final(self).syntax == old(self).syntax,
            final(self).history == old(self).history,
    {
        self.selection_start = Some(position);
    }

    /// Clears the selection.
    pub fn clear_selection(&mut self)
        ensures
            final(self).selection_start is None,
            final(self).lines == old(self).lines,
            final(self).file_path == old(self).file_path,
            final(self).modified_lines == old(self).modified_lines,
            final(self).is_modified == old(self).is_modified,
            final(self).syntax == old(self).syntax,
            final(self).history == old(self).history,
    {
        self.selection_start = None;
    }

    /// Sets the name of the syntax used for highlighting.
    pub fn set_syntax(&mut self, syntax: Option<String>)
        ensures
            final(self).syntax == syntax,
            final(self).lines == old(self).lines,
            final(self).file_path == old(self).file_path,
            final(self).modified_lines == old(self).modified_lines,
            final(self).is_modified == old(self).is_modified,
            final(self).selection_start == old(self).selection_start,
            final(self).history == old(self).history,
    {
        self.syntax = syntax;
    }

    /// Line `y`, or the empty line past the end.
    pub fn get_line(&self, y: usize) -> (r: &str)
        ensures
            r@ == (if y < self.text().len() {
                self.text()[y as int]
            } else {
                Seq::<char>::empty()
            }),
    {
        if y < self.lines.len() {
            self.lines[y].as_str()
        } else {
            proof {
                reveal_strlit("");
            }
            ""
        }
    }

    pub fn line_count(&self) -> (n: usize)
        ensures
            n == self.text().len(),
    {
        self.lines.len()
    }

    /// Number of characters in line `y` (0 past the end).
    pub fn line_length(&self, y: usize) -> (n: usize)
        ensures
            n == (if y < self.text().len() {
                self.text()[y as int].len()
            } else {
                0
            }),
    {
        if y < self.lines.len() {
            char_len(self.lines[y].as_str())
        } else {
            0
        }
    }

    pub fn is_line_modified(&self, line_idx: usize) -> (r: bool)
        ensures
            r == self.modified_lines@.contains(line_idx),
    {
        self.modified_lines.contains(&line_idx)
    }

    /// Marks a line as modified, and the buffer with it.
    pub fn mark_line_modified(&mut self, line_idx: usize)
        ensures
            final(self).modified_lines@ == old(self).modified_lines@.insert(line_idx),
            final(self).is_modified,
            final(self).lines == old(self).lines,
            final(self).history == old(self).history,
            final(self).same_settings(old(self)),
    {
        self.modified_lines.insert(line_idx);
        self.is_modified = true;
    }

    /// The set of modified line indices.
    pub fn get_modified_lines(&self) -> (r: &HashSet<usize>)
        ensures
            r@ == self.modified_lines@,
    {
        &self.modified_lines
    }

    /// Appends empty lines until line `y` exists, marking each as modified.
    fn extend_to(&mut self, y: usize)
        requires
            y < usize::MAX,
        ensures
            final(self).text() == extended_to(old(self).text(), y as int),
            y < final(self).lines@.len(),
            final(self).modified_lines@ == old(self).modified_lines@ + index_range(
                old(self).text().len() as int,
                y + 1,
            ),
            final(self).is_modified == old(self).is_modified,
            final(self).history == old(self).history,
            final(self).same_settings(old(self)),
    {
        let ghost t0 = self.text();
        let ghost m0 = self.modified_lines@;
        if y < self.lines.len() {
            assert(self.modified_lines@ =~= m0 + index_range(t0.len() as int, y + 1));
            return;
        }
        while y >= self.lines.len()
            invariant
                y < usize::MAX,
                t0.len() <= self.text().len() <= y + 1,
                self.text() =~= t0 + Seq::new(
                    (self.text().len() - t0.len()) as nat,
                    |i: int| Seq::<char>::empty(),
                ),
                self.modified_lines@ == m0 + index_range(t0.len() as int, self.text().len() as int),
                self.is_modified == old(self).is_modified,
                self.history == old(self).history,
                self.same_settings(old(self)),
            decreases y + 1 - self.lines.len(),
        {
            let ghost before = self.text();
            self.lines.push(String::new());
            assert(self.text() =~= before.push(Seq::<char>::empty()));
            self.modified_lines.insert(self.lines.len() - 1);
            assert(self.modified_lines@ =~= m0 + index_range(
                t0.len() as int,
                self.text().len() as int,
            ));
        }
        assert(self.text() =~= extended_to(t0, y as int));
        assert(self.modified_lines@ =~= m0 + index_range(t0.len() as int, y + 1));
    }

    /// Writes `c` at the cursor (see [`insert_padded`]), first appending empty
    /// lines if the cursor is past the last line, and records the action.
    pub fn insert_char_at_cursor(&mut self, c: char, cursor: &Cursor)
        requires
            old(self).wf(),
            cursor.x < usize::MAX,
            cursor.y < usize::MAX,
        ensures
            final(self).wf(),
            final(self).text() == ({
                let t = extended_to(old(self).text(), cursor.y as int);
                t.update(cursor.y as int, insert_padded(t[cursor.y as int], cursor.x as int, c))
            }),
            final(self).modified_lines@ == (old(self).modified_lines@ + index_range(
                old(self).text().len() as int,
                cursor.y + 1,
            )).insert(cursor.y),
            final(self).is_modified,
            Self::recorded(
                &final(self).history,
                &old(self).history,
                EditorActionModel {
                    action_type: ActionModel::InsertChar { x: cursor.x, y: cursor.y, c },
                    cursor_before: *cursor,
                    cursor_after: Cursor { x: (cursor.x + 1) as usize, y: cursor.y },
                },
            ),
            final(self).same_settings(old(self)),
    {
        let cursor_before = *cursor;
        let cursor_after = Cursor { x: cursor.x + 1, y: cursor.y };
        self.extend_to(cursor.y);
        let ghost t = self.text();
        let len = char_len(self.lines[cursor.y].as_str());
        let new_line = if cursor.x > len {
            pad_and_push(&self.lines[cursor.y], cursor.x - len, c)
        } else {
            insert_char(&self.lines[cursor.y], cursor.x, c)
        };
        self.lines[cursor.y] = new_line;
        assert(self.text() =~= t.update(
            cursor.y as int,
            insert_padded(t[cursor.y as int], cursor.x as int, c),
        ));
        self.modified_lines.insert(cursor.y);
        self.is_modified = true;
        let action = EditorAction {
            action_type: ActionType::InsertChar { x: cursor.x, y: cursor.y, c },
            cursor_before,
            cursor_after,
        };
        self.history.push(action);
    }

    /// Deletes the character under the cursor, if there is one, and records the action.
    pub fn delete_char_at_cursor(&mut self, cursor: &Cursor)
        requires
            old(self).wf(),
        ensures
            final(self).wf(),
            final(self).same_settings(old(self)),
            char_deleted(*old(self), *final(self), *cursor),
    {
        if cursor.y < self.lines.len() {
            let len = char_len(self.lines[cursor.y].as_str());
            if cursor.x < len {
                let ghost t = self.text();
                let c = char_at(self.lines[cursor.y].as_str(), cursor.x);
                let new_line = remove_char(&self.lines[cursor.y], cursor.x);
                self.lines[cursor.y] = new_line;
                assert(self.text() =~= t.update(
                    cursor.y as int,
                    t[cursor.y as int].remove(cursor.x as int),
                ));
                self.modified_lines.insert(cursor.y);
                self.is_modified = true;
                self.history.push(
                    EditorAction {
                        action_type: ActionType::DeleteChar { x: cursor.x, y: cursor.y, c },
                        cursor_before: *cursor,
                        cursor_after: *cursor,
                    },
                );
            }
        }
    }

    /// Deletes line `line_idx` (a buffer keeps at least one line) and records the action.
    pub fn delete_line(&mut self, line_idx: usize)
        requires
            old(self).wf(),
        ensures
            final(self).wf(),
            final(self).same_settings(old(self)),
            line_deleted(*old(self), *final(self), line_idx),
    {
        if line_idx < self.lines.len() {
            let ghost t = self.text();
            let content = self.lines[line_idx].clone();
            let cursor_before = Cursor { x: 0, y: line_idx };
            let cursor_after = if line_idx + 1 < self.lines.len() {
                Cursor { x: 0, y: line_idx }
            } else if line_idx > 0 {
                Cursor { x: char_len(self.lines[line_idx - 1].as_str()), y: line_idx - 1 }
            } else {
                Cursor { x: 0, y: 0 }
            };
            self.lines.remove(line_idx);
            assert(self.text() =~= t.remove(line_idx as int));
            if self.lines.len() == 0 {
                self.lines.push(String::new());
                assert(self.text() =~= seq![Seq::<char>::empty()]);
            }
            self.is_modified = true;
            self.modified_lines = remove_line_range(&self.modified_lines, line_idx, 1);
            self.history.push(
                EditorAction {
                    action_type: ActionType::DeleteLine { y: line_idx, content },
                    cursor_before,
                    cursor_after,
                },
            );
        }
    }

    /// Appends line `line_idx + 1` to line `line_idx`, if there is such a
    /// line, and records the action.
    pub fn join_line(&mut self, line_idx: usize)
        requires
            old(self).wf(),
            old(self).text().len() > 0,
        ensures
            final(self).wf(),
            final(self).same_settings(old(self)),
            ({
                let t = old(self).text();
                let y = line_idx as int;
                if y + 1 < t.len() {
                    &&& final(self).text() == t.update(y, t[y] + t[y + 1]).remove(y + 1)
                    &&& final(self).modified_lines@ == lines_removed(
                        old(self).modified_lines@.insert(line_idx),
                        y + 1,
                        1,
                    )
                    &&& final(self).is_modified
                    &&& Self::recorded(
                        &final(self).history,
                        &old(self).history,
                        EditorActionModel {
                            action_type: ActionModel::JoinLines {
                                y: line_idx,
                                column_pos: t[y].len() as usize,
                            },
                            cursor_before: Cursor { x: t[y].len() as usize, y: line_idx },
                            cursor_after: Cursor { x: t[y].len() as usize, y: line_idx },
                        },
                    )
                } else {
                    &&& final(self).text() == t
                    &&& final(self).modified_lines@ == old(self).modified_lines@
                    &&& final(self).is_modified == old(self).is_modified
                    &&& final(self).history == old(self).history
                }
            }),
    {
        if line_idx < self.lines.len() - 1 {
            let ghost t = self.text();
            let column_pos = char_len(self.lines[line_idx].as_str());
            let cursor_before = Cursor { x: column_pos, y: line_idx };
            let cursor_after = Cursor { x: column_pos, y: line_idx };
            let joined = concat(self.lines[line_idx].as_str(), self.lines[line_idx + 1].as_str());
            self.lines[line_idx] = joined;
            self.lines.remove(line_idx + 1);
            assert(self.text() =~= t.update(
                line_idx as int,
                t[line_idx as int] + t[line_idx + 1],
            ).remove(line_idx + 1));
            self.modified_lines.insert(line_idx);
            self.is_modified = true;
            self.modified_lines = remove_line_range(&self.modified_lines, line_idx + 1, 1);
            self.history.push(
                EditorAction {
                    action_type: ActionType::JoinLines { y: line_idx, column_pos },
                    cursor_before,
                    cursor_after,
                },
            );
        }
    }

    /// Splits the cursor's line at the cursor (first appending empty lines if
    /// the cursor is past the last line) and records the action.
    pub fn insert_newline_at_cursor(&mut self, cursor: &Cursor)
        requires
            old(self).wf(),
            cursor.y < usize::MAX,
        ensures
            final(self).wf(),
            final(self).same_settings(old(self)),
            ({
                let t = extended_to(old(self).text(), cursor.y as int);
                let y = cursor.y as int;
                let x = cursor.x as int;
                let l = t[y];
                let head = if x < l.len() {
                    l.subrange(0, x)
                } else {
                    l
                };
                let tail = if x < l.len() {
                    l.subrange(x, l.len() as int)
                } else {
                    Seq::<char>::empty()
                };
                &&& final(self).text() == t.update(y, head).insert(y + 1, tail)
                &&& final(self).modified_lines@ == (old(self).modified_lines@ + index_range(
                    old(self).text().len() as int,
                    y + 1,
                )).insert(cursor.y).insert((cursor.y + 1) as usize)
                &&& final(self).is_modified
                &&& Self::recorded(
                    &final(self).history,
                    &old(self).history,
                    EditorActionModel {
                        action_type: ActionModel::InsertNewline {
                            x: cursor.x,
                            y: cursor.y,
                            remaining_text: tail,
                        },
                        cursor_before: *cursor,
                        cursor_after: Cursor { x: 0, y: (cursor.y + 1) as usize },
                    },
                )
            }),
    {
        let cursor_before = *cursor;
        let cursor_after = Cursor { x: 0, y: cursor.y + 1 };
        self.extend_to(cursor.y);
        let ghost t = self.text();
        let len = char_len(self.lines[cursor.y].as_str());
        let new_line = if cursor.x >= len {
            String::new()
        } else {
            substring(self.lines[cursor.y].as_str(), cursor.x, len)
        };
        let remaining_text = new_line.clone();
        if cursor.x < len {
            let head = substring(self.lines[cursor.y].as_str(), 0, cursor.x);
            self.lines[cursor.y] = head;
        }
        proof {
            assert(self.text() =~= t.update(
                cursor.y as int,
                if (cursor.x as int) < t[cursor.y as int].len() {
                    t[cursor.y as int].subrange(0, cursor.x as int)
                } else {
                    t[cursor.y as int]
                },
            ));
        }
        let ghost t1 = self.text();
        self.lines.insert(cursor.y + 1, new_line);
        assert(self.text() =~= t1.insert(cursor.y + 1, remaining_text@));
        self.modified_lines.insert(cursor.y);
        self.modified_lines.insert(cursor.y + 1);
        self.is_modified = true;
        self.history.push(
            EditorAction {
                action_type: ActionType::InsertNewline { x: cursor.x, y: cursor.y, remaining_text },
                cursor_before,
                cursor_after,
            },
        );
    }

    /// Opens an empty line after line `line_idx` (at the end when that line
    /// does not exist), records the action and returns `line_idx + 1`.
    pub fn open_line_below(&mut self, line_idx: usize) -> (r: usize)
        requires
            old(self).wf(),
            line_idx < usize::MAX,
        ensures
            r == line_idx + 1,
            final(self).wf(),
            final(self).same_settings(old(self)),
            final(self).text() == (if line_idx < old(self).text().len() {
                old(self).text().insert(line_idx + 1, Seq::<char>::empty())
            } else {
                old(self).text().push(Seq::<char>::empty())
            }),
            final(self).modified_lines@ == old(self).modified_lines@.insert(r),
            final(self).is_modified,
            Self::recorded(
                &final(self).history,
                &old(self).history,
                EditorActionModel {
                    action_type: ActionModel::OpenLineBelow { y: line_idx },
                    cursor_before: Cursor { x: 0, y: line_idx },
                    cursor_after: Cursor { x: 0, y: r },
                },
            ),
    {
        let cursor_before = Cursor { x: 0, y: line_idx };
        let cursor_after = Cursor { x: 0, y: line_idx + 1 };
        let ghost t = self.text();
        if line_idx >= self.lines.len() {
            self.lines.push(String::new());
            assert(self.text() =~= t.push(Seq::<char>::empty()));
        } else {
            self.lines.insert(line_idx + 1, String::new());
            assert(self.text() =~= t.insert(line_idx + 1, Seq::<char>::empty()));
        }
        self.modified_lines.insert(line_idx + 1);
        self.is_modified = true;
        self.history.push(
            EditorAction {
                action_type: ActionType::OpenLineBelow { y: line_idx },
                cursor_before,
                cursor_after,
            },
        );
        line_idx + 1
    }

    /// Opens an empty line before line `line_idx`, records the action and
    /// returns `line_idx`.
    pub fn open_line_above(&mut self, line_idx: usize) -> (r: usize)
        requires
            old(self).wf(),
            line_idx <= old(self).text().len(),
        ensures
            r == line_idx,
            final(self).wf(),
            final(self).same_settings(old(self)),
            final(self).text() == old(self).text().insert(line_idx as int, Seq::<char>::empty()),
            final(self).modified_lines@ == old(self).modified_lines@.insert(line_idx),
            final(self).is_modified,
            Self::recorded(
                &final(self).history,
                &old(self).history,
                EditorActionModel {
                    action_type: ActionModel::OpenLineAbove { y: line_idx },
                    cursor_before: Cursor { x: 0, y: line_idx },
                    cursor_after: Cursor { x: 0, y: line_idx },
                },
            ),
    {
        let cursor_before = Cursor { x: 0, y: line_idx };
        let cursor_after = Cursor { x: 0, y: line_idx };
        let ghost t = self.text();
        self.lines.insert(line_idx, String::new());
        assert(self.text() =~= t.insert(line_idx as int, Seq::<char>::empty()));
        self.modified_lines.insert(line_idx);
        self.is_modified = true;
        self.history.push(
            EditorAction {
                action_type: ActionType::OpenLineAbove { y: line_idx },
                cursor_before,
                cursor_after,
            },
        );
        line_idx
    }

    /// The whole text: the lines joined by newlines.
    pub fn get_content(&self) -> (r: String)
        ensures
            r@ == join_lines(self.text()),
    {
        let ghost t = self.text();
        if self.lines.len() == 0 {
            return String::new();
        }
        let mut content = chars_of(self.lines[0].as_str());
        assert(t.take(1).drop_last() =~= t.take(0));
        let mut i: usize = 1;
        while i < self.lines.len()
            invariant
                1 <= i <= t.len(),
                t == self.text(),
                t.len() == self.lines@.len(),
                content@ == join_lines(t.take(i as int)),
            decreases self.lines.len() - i,
        {
            content.push('\n');
            let next = chars_of(self.lines[i].as_str());
            let mut k: usize = 0;
            let ghost base = content@;
            while k < next.len()
                invariant
                    k <= next@.len(),
                    content@ == base + next@.take(k as int),
                decreases next.len() - k,
            {
                content.push(next[k]);
                k += 1;
                assert(content@ =~= base + next@.take(k as int));
            }
            assert(t.take(i + 1).drop_last() =~= t.take(i as int));
            assert(next@.take(k as int) =~= t[i as int]);
            assert(content@ =~= join_lines(t.take(i + 1)));
            i += 1;
        }
        assert(t.take(t.len() as int) =~= t);
        string_of(content.as_slice())
    }

    /// Replaces the whole text by `content` split at its newlines, marks every
    /// line as modified and records the action.
    pub fn set_content(&mut self, content: &str) -> (r: Result<(), BufferError>)
        requires
            old(self).wf(),
        ensures
            r is Ok,
            final(self).wf(),
            final(self).same_settings(old(self)),
            final(self).text() == split_newlines(content@),
            final(self).modified_lines@ == index_range(0, final(self).text().len() as int),
            final(self).is_modified,
            Self::recorded(
                &final(self).history,
                &old(self).history,
                EditorActionModel {
                    action_type: ActionModel::SetContent {
                        old_lines: old(self).text(),
                        new_lines: split_newlines(content@),
                    },
                    cursor_before: Cursor { x: 0, y: 0 },
                    cursor_after: Cursor { x: 0, y: 0 },
                },
            ),
    {
        let old_lines = copy_strings(&self.lines);
        self.lines = split_at_newlines(content);
        self.set_all_modified();
        self.is_modified = true;
        let new_lines = copy_strings(&self.lines);
        self.history.push(
            EditorAction {
                action_type: ActionType::SetContent { old_lines, new_lines },
                cursor_before: Cursor { x: 0, y: 0 },
                cursor_after: Cursor { x: 0, y: 0 },
            },
        );
        Ok(())
    }

    /// Marks exactly the existing lines as modified.
    fn set_all_modified(&mut self)
        ensures
            final(self).modified_lines@ == index_range(0, final(self).text().len() as int),
            final(self).lines == old(self).lines,
            final(self).is_modified == old(self).is_modified,
            final(self).history == old(self).history,
            final(self).same_settings(old(self)),
    {
        self.modified_lines.clear();
        let n = self.lines.len();
        let mut i: usize = 0;
        while i < n
            invariant
                i <= n,
                n == self.lines@.len(),
                self.modified_lines@ == index_range(0, i as int),
                self.lines == old(self).lines,
                self.is_modified == old(self).is_modified,
                self.history == old(self).history,
                self.same_settings(old(self)),
            decreases n - i,
        {
            self.modified_lines.insert(i);
            i += 1;
            assert(self.modified_lines@ =~= index_range(0, i as int));
        }
        assert(self.modified_lines@ =~= index_range(0, self.text().len() as int));
    }

    /// Replaces the text by file content `content` read from `path` (see
    /// [`loaded_lines`]), sets the file path and clears the modification state.
    pub fn load_content(&mut self, path: &str, content: &str)
        ensures
            final(self).text() == loaded_lines(content@),
            final(self).file_path matches Some(p) && p@ == path@,
            final(self).modified_lines@ == Set::<usize>::empty(),
            !final(self).is_modified,
            final(self).syntax == old(self).syntax,
            final(self).selection_start == old(self).selection_start,
            final(self).history == old(self).history,
    {
        self.lines = lines_of_content(content);
        self.file_path = Some(path.to_owned());
        self.modified_lines.clear();
        self.is_modified = false;
    }

    /// The path that saving with `path` writes to: `path` if given, else the
    /// buffer's file path; an error when there is neither.
    pub fn save_target(&self, path: Option<&str>) -> (r: Result<String, BufferError>)
        ensures
            path matches Some(p) ==> (r matches Ok(q) && q@ == p@),
            path is None ==> match self.file_path {
                Some(f) => r matches Ok(q) && q@ == f@,
                None => r == Err::<String, BufferError>(BufferError::NoFilePath),
            },
    {
        match path {
            Some(p) => Ok(p.to_owned()),
            None => match &self.file_path {
                Some(f) => Ok(f.clone()),
                None => Err(BufferError::NoFilePath),
            },
        }
    }

    /// Records that the buffer was written to `saved_to`: a given path becomes
    /// the file path, and the modification state is cleared.
    pub fn finish_save(&mut self, path: Option<&str>, saved_to: &str)
        ensures
            path is Some ==> (final(self).file_path matches Some(f) && f@ == saved_to@),
            path is None ==> final(self).file_path == old(self).file_path,
            final(self).modified_lines@ == Set::<usize>::empty(),
            !final(self).is_modified,
            final(self).lines == old(self).lines,
            final(self).syntax == old(self).syntax,
            final(self).selection_start == old(self).selection_start,
            final(self).history == old(self).history,
    {
        if path.is_some() {
            self.file_path = Some(saved_to.to_owned());
        }
        self.modified_lines.clear();
        self.is_modified = false;
    }

    /// Deletes from the cursor to the end of the word under it (see
    /// [`word_end`]) and records the action; false when the cursor is not on
    /// a character. The cursor does not move.
    pub fn delete_word_at_cursor(&mut self, cursor: &mut Cursor) -> (r: bool)
        requires
            old(self).wf(),
        ensures
            final(self).wf(),
            final(self).same_settings(old(self)),
            *final(cursor) == *old(cursor),
            r == (old(cursor).y < old(self).text().len() && old(cursor).x < old(self).text()[old(cursor).y as int].len()),
            word_deleted(*old(self), *final(self), *old(cursor)),
    {
        let cursor_before = *cursor;
        let cursor_after = *cursor;
        if cursor.y >= self.lines.len() {
            return false;
        }
        let chars = chars_of(self.lines[cursor.y].as_str());
        if cursor.x >= chars.len() {
            return false;
        }
        let ghost t = self.text();
        let ghost l = chars@;
        let x = cursor.x;
        let y = cursor.y;
        let first = chars[x];
        let mut end_idx = x;
        assert(same_run(first, first));
        while end_idx < chars.len() && run_continues(first, chars[end_idx])
            invariant
                x <= end_idx <= l.len(),
                l == chars@,
                l[x as int] == first,
                run_end(l, first, x as int) == run_end(l, first, end_idx as int),
                end_idx == x ==> same_run(first, l[x as int]),
            decreases chars.len() - end_idx,
        {
            end_idx += 1;
        }
        assert(run_end(l, first, end_idx as int) == end_idx as int);
        let deleted_text = substring(self.lines[y].as_str(), x, end_idx);
        let head = substring(self.lines[y].as_str(), 0, x);
        let tail = substring(self.lines[y].as_str(), end_idx, chars.len());
        let new_line = concat(head.as_str(), tail.as_str());
        self.lines[y] = new_line;
        assert(self.text() =~= t.update(
            y as int,
            l.subrange(0, x as int) + l.subrange(end_idx as int, l.len() as int),
        ));
        self.mark_line_modified(y);
        self.history.push(
            EditorAction {
                action_type: ActionType::DeleteWord { position: (y, x), deleted_text },
                cursor_before,
                cursor_after,
            },
        );
        true
    }

    /// Deletes from the cursor to the end of its line and records the action;
    /// false when the cursor is not on a character.
    pub fn delete_to_end_of_line(&mut self, cursor: &Cursor) -> (r: bool)
        requires
            old(self).wf(),
        ensures
            final(self).wf(),
            final(self).same_settings(old(self)),
            r == (cursor.y < old(self).text().len() && cursor.x < old(self).text()[cursor.y as int].len()),
            end_deleted(*old(self), *final(self), *cursor),
    {
        if cursor.y >= self.lines.len() {
            return false;
        }
        let len = char_len(self.lines[cursor.y].as_str());
        if cursor.x >= len {
            return false;
        }
        let ghost t = self.text();
        let deleted_text = substring(self.lines[cursor.y].as_str(), cursor.x, len);
        let head = substring(self.lines[cursor.y].as_str(), 0, cursor.x);
        self.lines[cursor.y] = head;
        assert(self.text() =~= t.update(
            cursor.y as int,
            t[cursor.y as int].subrange(0, cursor.x as int),
        ));
        self.mark_line_modified(cursor.y);
        self.history.push(
            EditorAction {
                action_type: ActionType::DeleteToEndOfLine {
                    position: (cursor.y, cursor.x),
                    deleted_text,
                },
                cursor_before: *cursor,
                cursor_after: *cursor,
            },
        );
        true
    }

    /// Deletes from the start of the cursor's line to the cursor and records
    /// the action; false when the cursor is at the start of its line or past
    /// the last line.
    pub fn delete_to_beginning_of_line(&mut self, cursor: &Cursor) -> (r: bool)
        requires
            old(self).wf(),
            cursor.y < old(self).text().len() && cursor.x > 0 ==> cursor.x <= old(self).text()[cursor.y as int].len(),
        ensures
            final(self).wf(),
            final(self).same_settings(old(self)),
            r == (cursor.y < old(self).text().len() && cursor.x > 0),
            start_deleted(*old(self), *final(self), *cursor),
    {
        if cursor.y >= self.lines.len() {
            return false;
        }
        if cursor.x == 0 {
            return false;
        }
        let ghost t = self.text();
        let len = char_len(self.lines[cursor.y].as_str());
        let deleted_text = substring(self.lines[cursor.y].as_str(), 0, cursor.x);
        let tail = substring(self.lines[cursor.y].as_str(), cursor.x, len);
        self.lines[cursor.y] = tail;
        assert(self.text() =~= t.update(
            cursor.y as int,
            t[cursor.y as int].subrange(cursor.x as int, len as int),
        ));
        self.mark_line_modified(cursor.y);
        self.history.push(
            EditorAction {
                action_type: ActionType::DeleteToStartOfLine {
                    position: (cursor.y, cursor.x),
                    deleted_text,
                },
                cursor_before: *cursor,
                cursor_after: Cursor { x: 0, y: cursor.y },
            },
        );
        true
    }

    /// Whether (`line`, `column`) is selected (see [`position_selected`]).
    pub fn is_position_selected(
        &self,
        line: usize,
        column: usize,
        cursor: &Cursor,
        is_visual_line: bool,
    ) -> (r: bool)
        ensures
            r == position_selected(self.selection_start, line, column, *cursor, is_visual_line),
    {
        if let Some(start) = self.selection_start {
            let (start_line, start_col) = start;
            let (end_line, end_col) = (cursor.y, cursor.x);
            let (first_line, first_col, last_line, last_col) = if start_line < end_line || (
            start_line == end_line && start_col <= end_col) {
                (start_line, start_col, end_line, end_col)
            } else {
                (end_line, end_col, start_line, start_col)
            };
            if line < first_line || line > last_line {
                return false;
            }
            if is_visual_line {
                return true;
            }
            if line == first_line && line == last_line {
                return column >= first_col && column < last_col;
            } else if line == first_line {
                return column >= first_col;
            } else if line == last_line {
                return column < last_col;
            }
            return true;
        }
        false
    }

    /// The existing lines among `[from, to)`, each followed by a newline.
    fn block_chars(&self, from: usize, to: usize) -> (r: Vec<char>)
        requires
            from <= to,
        ensures
            r@ == lines_block(self.text(), from as int, to as int),
    {
        let ghost t = self.text();
        let n = self.lines.len();
        let end = if to < n { to } else if from < n { n } else { from };
        proof {
            if to >= n {
                lemma_lines_block_cap(t, from as int, to as int);
            }
        }
        let mut out: Vec<char> = Vec::new();
        let mut i = from;
        while i < end
            invariant
                from <= i <= end,
                end <= n || end == from,
                n == t.len(),
                t == self.text(),
                out@ == lines_block(t, from as int, i as int),
            decreases end - i,
        {
            let l = chars_of(self.lines[i].as_str());
            let ghost base = out@;
            let mut k: usize = 0;
            while k < l.len()
                invariant
                    k <= l@.len(),
                    out@ == base + l@.take(k as int),
                decreases l.len() - k,
            {
                out.push(l[k]);
                k += 1;
                assert(out@ =~= base + l@.take(k as int));
            }
            out.push('\n');
            assert(l@.take(k as int) =~= t[i as int]);
            assert(out@ =~= lines_block(t, from as int, i + 1));
            i += 1;
        }
        out
    }

    /// The selected text (see [`selected_text`]); empty without a selection.
    pub fn get_selected_text(&self, cursor: &Cursor, is_visual_line: bool) -> (r: String)
        ensures
            r@ == match self.selection_start {
                None => Seq::<char>::empty(),
                Some(start) => selected_text(self.text(), start, *cursor, is_visual_line),
            },
    {
        let ghost t = self.text();
        if let Some(start) = self.selection_start {
            let (start_line, start_col) = start;
            let (end_line, end_col) = (cursor.y, cursor.x);
            let (first_line, first_col, last_line, last_col) = if start_line < end_line || (
            start_line == end_line && start_col <= end_col) {
                (start_line, start_col, end_line, end_col)
            } else {
                (end_line, end_col, start_line, start_col)
            };
            let n = self.lines.len();
            if is_visual_line {
                let upto = if last_line < n { last_line + 1 } else { n };
                let mut r = if first_line <= upto { self.block_chars(first_line, upto) } else { Vec::new() };
                proof {
                    if last_line >= n {
                        if first_line <= upto {
                            lemma_lines_block_cap(t, first_line as int, last_line + 1);
                            lemma_lines_block_cap(t, first_line as int, upto as int);
                        } else {
                            lemma_lines_block_cap(t, first_line as int, last_line + 1);
                        }
                    }
                }
                if r.len() == 0 {
                    r.push('\n');
                    assert(r@ =~= seq!['\n']);
                }
                return string_of(r.as_slice());
            }
            if first_line == last_line {
                if first_line < n {
                    let len = char_len(self.lines[first_line].as_str());
                    let e = if last_col < len { last_col } else { len };
                    let s = if first_col < len { first_col } else { len };
                    if s <= e && s < len {
                        let content = substring(self.lines[first_line].as_str(), s, e);
                        if e >= len && first_line < n - 1 {
                            return push_char_to(&content, '\n');
                        }
                        return content;
                    }
                }
                return String::new();
            }
            let mut out: Vec<char> = Vec::new();
            if first_line < n {
                let len = char_len(self.lines[first_line].as_str());
                let s = if first_col < len { first_col } else { len };
                let part = substring(self.lines[first_line].as_str(), s, len);
                out = chars_of(part.as_str());
                out.push('\n');
            }
            let ghost first_part = out@;
            let middle = self.block_chars(first_line + 1, last_line);
            let mut k: usize = 0;
            while k < middle.len()
                invariant
                    k <= middle@.len(),
                    out@ == first_part + middle@.take(k as int),
                decreases middle.len() - k,
            {
                out.push(middle[k]);
                k += 1;
                assert(out@ =~= first_part + middle@.take(k as int));
            }
            assert(middle@.take(k as int) =~= middle@);
            let ghost with_middle = out@;
            if last_line < n {
                let len = char_len(self.lines[last_line].as_str());
                let e = if last_col < len { last_col } else { len };
                let part = chars_of(substring(self.lines[last_line].as_str(), 0, e).as_str());
                let mut j: usize = 0;
                while j < part.len()
                    invariant
                        j <= part@.len(),
                        out@ == with_middle + part@.take(j as int),
                    decreases part.len() - j,
                {
                    out.push(part[j]);
                    j += 1;
                    assert(out@ =~= with_middle + part@.take(j as int));
                }
                assert(part@.take(j as int) =~= part@);
                if e >= len && last_line < n - 1 {
                    out.push('\n');
                }
            }
            let r = string_of(out.as_slice());
            assert(r@ =~= selected_text(t, start, *cursor, is_visual_line));
            return r;
        }
        String::new()
    }

    /// Removes `count` lines starting at `lo`.
    fn remove_lines(&mut self, lo: usize, count: usize)
        requires
            lo + count <= old(self).text().len(),
        ensures
            final(self).text() == old(self).text().subrange(0, lo as int) + old(self).text().subrange(
                lo + count,
                old(self).text().len() as int,
            ),
            final(self).modified_lines == old(self).modified_lines,
            final(self).is_modified == old(self).is_modified,
            final(self).history == old(self).history,
            final(self).same_settings(old(self)),
    {
        let ghost t = self.text();
        let mut k: usize = 0;
        while k < count
            invariant
                k <= count,
                lo + count <= t.len(),
                self.text() =~= t.subrange(0, lo as int) + t.subrange(lo + k, t.len() as int),
                self.lines@.len() == t.len() - k,
                self.modified_lines == old(self).modified_lines,
                self.is_modified == old(self).is_modified,
                self.history == old(self).history,
                self.same_settings(old(self)),
            decreases count - k,
        {
            let ghost prev = self.text();
            self.lines.remove(lo);
            assert(self.text() =~= prev.remove(lo as int));
            k += 1;
        }
    }

    /// Deletes the selected text, records the deletion as a selection
    /// replacement, moves the cursor to where the selection started and clears
    /// the selection. Returns whether text was deleted. In visual-line mode
    /// whole lines go (a buffer keeps at least one line).
    pub fn delete_selection(&mut self, cursor: &mut Cursor, is_visual_line: bool) -> (r: bool)
        requires
            old(self).wf(),
        ensures
            final(self).wf(),
            final(self).file_path == old(self).file_path,
            final(self).syntax == old(self).syntax,
            selection_deleted(*old(self), *final(self), *old(cursor), *final(cursor), is_visual_line, r),
    {
        let ghost t = self.text();
        if let Some(start) = self.selection_start {
            let (start_line, start_col) = start;
            let (end_line, end_col) = (cursor.y, cursor.x);
            let cursor_before = *cursor;
            let (first_line, first_col, last_line, last_col) = if start_line < end_line || (
            start_line == end_line && start_col <= end_col) {
                (start_line, start_col, end_line, end_col)
            } else {
                (end_line, end_col, start_line, start_col)
            };
            let selected_text = self.get_selected_text(cursor, is_visual_line);
            let n = self.lines.len();
            if is_visual_line {
                if first_line < n {
                    if first_line <= last_line && last_line < n {
                        let lines_to_delete = last_line - first_line + 1;
                        if lines_to_delete < n {
                            self.remove_lines(first_line, lines_to_delete);
                            assert(self.text() =~= t.subrange(0, first_line as int) + t.subrange(
                                last_line + 1,
                                t.len() as int,
                            ));
                        } else {
                            let mut v: Vec<String> = Vec::new();
                            v.push(String::new());
                            self.lines = v;
                            assert(self.text() =~= seq![Seq::<char>::empty()]);
                        }
                        self.is_modified = true;
                        self.modified_lines = remove_line_range(
                            &self.modified_lines,
                            first_line,
                            lines_to_delete,
                        );
                        let len_now = self.lines.len();
                        cursor.y = if first_line < len_now - 1 { first_line } else { len_now - 1 };
                        cursor.x = 0;
                        let cursor_after = *cursor;
                        self.history.push(
                            EditorAction {
                                action_type: ActionType::ReplaceSelection {
                                    old_text: selected_text,
                                    new_text: String::new(),
                                    selection_start: (first_line, first_col),
                                    selection_end: (last_line, last_col),
                                },
                                cursor_before,
                                cursor_after,
                            },
                        );
                        self.selection_start = None;
                        return true;
                    }
                }
            } else if first_line == last_line && first_line < n {
                let len = char_len(self.lines[first_line].as_str());
                let end_col = if last_col < len { last_col } else { len };
                let start_col = if first_col < len { first_col } else { len };
                if start_col < end_col && start_col < len {
                    let head = substring(self.lines[first_line].as_str(), 0, start_col);
                    let tail = substring(self.lines[first_line].as_str(), end_col, len);
                    self.lines[first_line] = concat(head.as_str(), tail.as_str());
                    assert(self.text() =~= t.update(
                        first_line as int,
                        t[first_line as int].subrange(0, start_col as int) + t[first_line as int].subrange(
                            end_col as int,
                            len as int,
                        ),
                    ));
                    self.modified_lines.insert(first_line);
                    self.is_modified = true;
                    cursor.y = first_line;
                    cursor.x = start_col;
                    let cursor_after = *cursor;
                    self.history.push(
                        EditorAction {
                            action_type: ActionType::ReplaceSelection {
                                old_text: selected_text,
                                new_text: String::new(),
                                selection_start: (first_line, first_col),
                                selection_end: (last_line, last_col),
                            },
                            cursor_before,
                            cursor_after,
                        },
                    );
                    self.selection_start = None;
                    return true;
                }
            } else if first_line < n && last_line < n {
                let flen = char_len(self.lines[first_line].as_str());
                let first_line_prefix = if first_col <= flen {
                    substring(self.lines[first_line].as_str(), 0, first_col)
                } else {
                    self.lines[first_line].clone()
                };
                let llen = char_len(self.lines[last_line].as_str());
                let last_line_suffix = if last_col < llen {
                    substring(self.lines[last_line].as_str(), last_col, llen)
                } else {
                    String::new()
                };
                self.lines[first_line] = concat(
                    first_line_prefix.as_str(),
                    last_line_suffix.as_str(),
                );
                let ghost t1 = self.text();
                self.remove_lines(first_line + 1, last_line - first_line);
                assert(self.text() =~= t.subrange(0, first_line as int).push(
                    first_line_prefix@ + last_line_suffix@,
                ) + t.subrange(last_line + 1, t.len() as int));
                self.modified_lines.insert(first_line);
                self.is_modified = true;
                self.modified_lines = remove_line_range(
                    &self.modified_lines,
                    first_line + 1,
                    last_line - first_line,
                );
                cursor.y = first_line;
                cursor.x = first_col;
                let cursor_after = *cursor;
                self.history.push(
                    EditorAction {
                        action_type: ActionType::ReplaceSelection {
                            old_text: selected_text,
                            new_text: String::new(),
                            selection_start: (first_line, first_col),
                            selection_end: (last_line, last_col),
                        },
                        cursor_before,
                        cursor_after,
                    },
                );
                self.selection_start = None;
                return true;
            }
            self.selection_start = None;
        }
        false
    }

    /// Deletes from (`start_line`, `start_col`) to (`end_line`, `end_col`)
    /// (see [`between_deleted`]); false, with nothing changed, when that does
    /// not apply.
    fn delete_between(
        &mut self,
        start_line: usize,
        start_col: usize,
        end_line: usize,
        end_col: usize,
    ) -> (r: bool)
        ensures
            r == between_deleted(
                old(self).text(),
                start_line as int,
                start_col as int,
                end_line as int,
                end_col as int,
            ) is Some,
            r ==> final(self).text() == between_deleted(
                old(self).text(),
                start_line as int,
                start_col as int,
                end_line as int,
                end_col as int,
            )->0 && final(self).modified_lines@ == old(self).modified_lines@.insert(start_line)
                && final(self).is_modified,
            !r ==> final(self).text() == old(self).text() && final(self).modified_lines
                == old(self).modified_lines && final(self).is_modified == old(self).is_modified,
            final(self).history == old(self).history,
            final(self).same_settings(old(self)),
    {
        let ghost t = self.text();
        let n = self.lines.len();
        if start_line >= n || end_line >= n {
            return false;
        }
        if start_line == end_line {
            let len = char_len(self.lines[start_line].as_str());
            if start_col <= len && end_col <= len && start_col <= end_col {
                let head = substring(self.lines[start_line].as_str(), 0, start_col);
                let tail = substring(self.lines[start_line].as_str(), end_col, len);
                self.lines[start_line] = concat(head.as_str(), tail.as_str());
                assert(self.text() =~= between_deleted(
                    t,
                    start_line as int,
                    start_col as int,
                    end_line as int,
                    end_col as int,
                )->0);
                self.mark_line_modified(start_line);
                return true;
            }
        } else if start_line < end_line {
            let flen = char_len(self.lines[start_line].as_str());
            let llen = char_len(self.lines[end_line].as_str());
            if start_col <= flen && end_col <= llen {
                let head = substring(self.lines[start_line].as_str(), 0, start_col);
                let tail = substring(self.lines[end_line].as_str(), end_col, llen);
                self.lines[start_line] = concat(head.as_str(), tail.as_str());
                self.remove_lines(start_line + 1, end_line - start_line);
                assert(self.text() =~= between_deleted(
                    t,
                    start_line as int,
                    start_col as int,
                    end_line as int,
                    end_col as int,
                )->0);
                self.mark_line_modified(start_line);
                return true;
            }
        }
        false
    }

    /// Inserts `text` at the cursor and moves the cursor to the end of the
    /// inserted text (see [`text_inserted`]); nothing happens when that does
    /// not apply.
    fn insert_text_at_cursor(&mut self, text: String, cursor: &mut Cursor)
        requires
            insert_fits(*old(cursor), text@),
        ensures
            match text_inserted(old(self).text(), *old(cursor), text@) {
                Some((t2, c2)) => {
                    &&& final(self).text() == t2
                    &&& *final(cursor) == c2
                    &&& final(self).modified_lines@ == old(self).modified_lines@ + index_range(
                        old(cursor).y as int,
                        old(cursor).y + inserted_lines(text@).len(),
                    )
                    &&& final(self).is_modified
                },
                None => {
                    &&& final(self).text() == old(self).text()
                    &&& *final(cursor) == *old(cursor)
                    &&& final(self).modified_lines == old(self).modified_lines
                    &&& final(self).is_modified == old(self).is_modified
                },
            },
            final(self).history == old(self).history,
            final(self).same_settings(old(self)),
    {
        let ghost t = self.text();
        let ghost m0 = self.modified_lines@;
        if char_len(text.as_str()) == 0 {
            return;
        }
        let mut lines = std_lines_of(text.as_str());
        if lines.len() == 0 {
            lines.push(text);
            assert(text_of(lines@) =~= inserted_lines(text@));
        }
        let n = lines.len();
        let x = cursor.x;
        let y = cursor.y;
        if y >= self.lines.len() {
            return;
        }
        let len = char_len(self.lines[y].as_str());
        if x > len {
            return;
        }
        let ghost ls = text_of(lines@);
        assert(ls == inserted_lines(text@));
        let before = substring(self.lines[y].as_str(), 0, x);
        let after = substring(self.lines[y].as_str(), x, len);
        if n == 1 {
            assert(ls[0] == lines@[0]@);
            let joined = concat(before.as_str(), lines[0].as_str());
            self.lines[y] = concat(joined.as_str(), after.as_str());
            cursor.x = x + char_len(lines[0].as_str());
            assert(self.text() =~= t.update(
                y as int,
                t[y as int].subrange(0, x as int) + ls[0] + t[y as int].subrange(
                    x as int,
                    len as int,
                ),
            ));
            self.mark_line_modified(y);
            assert(self.modified_lines@ =~= m0 + index_range(y as int, y + 1));
        } else {
            assert(ls[0] == lines@[0]@);
            self.lines[y] = concat(before.as_str(), lines[0].as_str());
            self.mark_line_modified(y);
            let mut i: usize = 0;
            while i < n - 2
                invariant
                    n == lines@.len(),
                    n >= 2,
                    ls == text_of(lines@),
                    i <= n - 2,
                    y < t.len(),
                    y + n <= usize::MAX,
                    self.text() =~= t.subrange(0, y as int).push(before@ + ls[0]) + ls.subrange(
                        1,
                        1 + i,
                    ) + t.subrange(y + 1, t.len() as int),
                    self.lines@.len() == t.len() + i,
                    self.modified_lines@ == m0 + index_range(y as int, y + 1 + i),
                    self.is_modified,
                    self.history == old(self).history,
                    self.same_settings(old(self)),
                decreases n - 2 - i,
            {
                let ghost prev = self.text();
                assert(ls[1 + i] == lines@[1 + i]@);
                self.lines.insert(y + 1 + i, lines[1 + i].clone());
                assert(self.text() =~= prev.insert(y + 1 + i, ls[1 + i]));
                self.mark_line_modified(y + 1 + i);
                i += 1;
                assert(self.modified_lines@ =~= m0 + index_range(y as int, y + 1 + i));
                assert(self.text() =~= t.subrange(0, y as int).push(before@ + ls[0])
                    + ls.subrange(1, 1 + i) + t.subrange(y + 1, t.len() as int));
            }
            assert(ls[n - 1] == lines@[n - 1]@);
            let last = concat(lines[n - 1].as_str(), after.as_str());
            let ghost prev = self.text();
            self.lines.insert(y + n - 1, last);
            assert(self.text() =~= prev.insert(y + n - 1, ls[n - 1] + after@));
            self.mark_line_modified(y + n - 1);
            assert(self.modified_lines@ =~= m0 + index_range(y as int, y + n));
            cursor.y = y + (n - 1);
            cursor.x = char_len(lines[n - 1].as_str());
            let ghost res = text_inserted(t, *old(cursor), text@)->0;
            assert(self.text() =~= res.0);
        }
    }

    /// Undoes the last done action (see [`undo_replay`]): the history steps
    /// back one action even when the action no longer applies to the text.
    /// Returns whether the text was changed back.
    #[verifier::rlimit(40)]
    pub fn undo(&mut self, cursor: &mut Cursor) -> (r: bool)
        requires
            old(self).wf(),
            old(self).history.index() > 0 ==> undo_fits(
                old(self).history.actions()[old(self).history.index() - 1],
            ),
        ensures
            final(self).wf(),
            final(self).same_settings(old(self)),
            final(self).history.actions() == old(self).history.actions(),
            final(self).history.max() == old(self).history.max(),
            !final(self).history.replaying(),
            old(self).history.index() == 0 ==> {
                &&& !r
                &&& final(self).history.index() == 0
                &&& final(self).text() == old(self).text()
                &&& final(self).modified_lines@ == old(self).modified_lines@
                &&& final(self).is_modified == old(self).is_modified
                &&& *final(cursor) == *old(cursor)
            },
            old(self).history.index() > 0 ==> {
                let a = old(self).history.actions()[old(self).history.index() - 1];
                let o = undo_replay(old(self).text(), old(self).modified_lines@, a);
                &&& r == o.done
                &&& final(self).history.index() == old(self).history.index() - 1
                &&& final(self).text() == o.text
                &&& final(self).modified_lines@ == o.modified
                &&& final(self).is_modified == (old(self).is_modified || o.done)
                &&& *final(cursor) == o.cursor
            },
    {
        let ghost t = self.text();
        let ghost m = self.modified_lines@;
        self.history.start_undo_or_redo();
        let result = if let Some(action) = self.history.undo_action() {
            *cursor = action.cursor_before;
            match action.action_type {
                ActionType::InsertChar { x, y, c: _ } => {
                    if y < self.lines.len() {
                        let len = char_len(self.lines[y].as_str());
                        if x < len {
                            let new_line = remove_char(&self.lines[y], x);
                            self.lines[y] = new_line;
                            assert(self.text() =~= t.update(y as int, t[y as int].remove(x as int)));
                            self.mark_line_modified(y);
                            self.is_modified = true;
                            true
                        } else {
                            false
                        }
                    } else {
                        false
                    }
                },
                ActionType::DeleteChar { x, y, c } => {
                    if y < self.lines.len() {
                        let len = char_len(self.lines[y].as_str());
                        if x <= len {
                            let new_line = insert_char(&self.lines[y], x, c);
                            self.lines[y] = new_line;
                            assert(self.text() =~= t.update(y as int, t[y as int].insert(x as int, c)));
                            self.mark_line_modified(y);
                            self.is_modified = true;
                            true
                        } else {
                            false
                        }
                    } else {
                        false
                    }
                },
                ActionType::InsertNewline { x: _, y, remaining_text } => {
                    if y < self.lines.len() && y + 1 < self.lines.len() {
                        let joined = concat(self.lines[y].as_str(), remaining_text.as_str());
                        self.lines[y] = joined;
                        self.lines.remove(y + 1);
                        assert(self.text() =~= t.update(y as int, t[y as int] + remaining_text@).remove(
                            y + 1,
                        ));
                        self.mark_line_modified(y);
                        self.is_modified = true;
                        true
                    } else {
                        false
                    }
                },
                ActionType::DeleteLine { y, content } => {
                    if y <= self.lines.len() {
                        let ghost cv = content@;
                        self.lines.insert(y, content);
                        assert(self.text() =~= t.insert(y as int, cv));
                        self.mark_line_modified(y);
                        self.is_modified = true;
                        true
                    } else {
                        false
                    }
                },
                ActionType::JoinLines { y, column_pos } => {
                    if y < self.lines.len() {
                        let len = char_len(self.lines[y].as_str());
                        if column_pos <= len {
                            let before = substring(self.lines[y].as_str(), 0, column_pos);
                            let after = substring(self.lines[y].as_str(), column_pos, len);
                            self.lines[y] = before;
                            self.lines.insert(y + 1, after);
                            assert(self.text() =~= t.update(
                                y as int,
                                t[y as int].subrange(0, column_pos as int),
                            ).insert(y + 1, t[y as int].subrange(column_pos as int, len as int)));
                            self.mark_line_modified(y);
                            self.mark_line_modified(y + 1);
                            self.is_modified = true;
                            true
                        } else {
                            false
                        }
                    } else {
                        false
                    }
                },
                ActionType::ReplaceSelection { old_text, new_text, selection_start, .. } => {
                    let (start_line, start_col) = selection_start;
                    let (end_line, end_col) = end_of_inserted(start_line, start_col, new_text.as_str());
                    cursor.y = start_line;
                    cursor.x = start_col;
                    if self.delete_between(start_line, start_col, end_line, end_col) {
                        self.insert_text_at_cursor(old_text, cursor);
                        self.is_modified = true;
                        true
                    } else {
                        false
                    }
                },
                ActionType::SetContent { old_lines, .. } => {
                    self.lines = old_lines;
                    self.set_all_modified();
                    self.is_modified = true;
                    true
                },
                ActionType::OpenLineBelow { y } => {
                    if y + 1 < self.lines.len() {
                        self.lines.remove(y + 1);
                        assert(self.text() =~= t.remove(y + 1));
                        self.mark_line_modified(y);
                        self.is_modified = true;
                        true
                    } else {
                        false
                    }
                },
                ActionType::OpenLineAbove { y } => {
                    if y < self.lines.len() {
                        self.lines.remove(y);
                        assert(self.text() =~= t.remove(y as int));
                        if y < self.lines.len() {
                            self.mark_line_modified(y);
                        }
                        self.is_modified = true;
                        true
                    } else {
                        false
                    }
                },
                ActionType::DeleteWord { position, deleted_text } => {
                    let (y, x) = position;
                    if y < self.lines.len() {
                        let len = char_len(self.lines[y].as_str());
                        if x <= len {
                            let before = substring(self.lines[y].as_str(), 0, x);
                            let after = substring(self.lines[y].as_str(), x, len);
                            let with_word = concat(before.as_str(), deleted_text.as_str());
                            self.lines[y] = concat(with_word.as_str(), after.as_str());
                            assert(self.text() =~= t.update(
                                y as int,
                                t[y as int].subrange(0, x as int) + deleted_text@ + t[y as int].subrange(
                                    x as int,
                                    len as int,
                                ),
                            ));
                            self.mark_line_modified(y);
                            self.is_modified = true;
                            true
                        } else {
                            false
                        }
                    } else {
                        false
                    }
                },
                ActionType::DeleteToEndOfLine { position, deleted_text } => {
                    let (y, x) = position;
                    if y < self.lines.len() {
                        let len = char_len(self.lines[y].as_str());
                        if x <= len {
                            let joined = concat(self.lines[y].as_str(), deleted_text.as_str());
                            self.lines[y] = joined;
                            assert(self.text() =~= t.update(y as int, t[y as int] + deleted_text@));
                            self.mark_line_modified(y);
                            self.is_modified = true;
                            true
                        } else {
                            false
                        }
                    } else {
                        false
                    }
                },
                ActionType::DeleteToStartOfLine { position, deleted_text } => {
                    let (y, _) = position;
                    if y < self.lines.len() {
                        let joined = concat(deleted_text.as_str(), self.lines[y].as_str());
                        self.lines[y] = joined;
                        assert(self.text() =~= t.update(y as int, deleted_text@ + t[y as int]));
                        self.mark_line_modified(y);
                        self.is_modified = true;
                        true
                    } else {
                        false
                    }
                },
            }
        } else {
            false
        };
        self.history.end_undo_or_redo();
        result
    }

    /// Redoes the next undone action (see [`redo_replay`]): the history
    /// steps forward one action even when the action no longer applies.
    /// Returns whether the action was applied again.
    #[verifier::rlimit(40)]
    pub fn redo(&mut self, cursor: &mut Cursor) -> (r: bool)
        requires
            old(self).wf(),
            old(self).history.index() < old(self).history.actions().len() ==> redo_fits(
                old(self).history.actions()[old(self).history.index() as int],
            ),
        ensures
            final(self).wf(),
            final(self).same_settings(old(self)),
            final(self).history.actions() == old(self).history.actions(),
            final(self).history.max() == old(self).history.max(),
            !final(self).history.replaying(),
            old(self).history.index() == old(self).history.actions().len() ==> {
                &&& !r
                &&& final(self).history.index() == old(self).history.index()
                &&& final(self).text() == old(self).text()
                &&& final(self).modified_lines@ == old(self).modified_lines@
                &&& final(self).is_modified == old(self).is_modified
                &&& *final(cursor) == *old(cursor)
            },
            old(self).history.index() < old(self).history.actions().len() ==> {
                let a = old(self).history.actions()[old(self).history.index() as int];
                let o = redo_replay(old(self).text(), old(self).modified_lines@, a);
                &&& r == o.done
                &&& final(self).history.index() == old(self).history.index() + 1
                &&& final(self).text() == o.text
                &&& final(self).modified_lines@ == o.modified
                &&& final(self).is_modified == (old(self).is_modified || o.done)
                &&& *final(cursor) == o.cursor
            },
    {
        let ghost t = self.text();
        let ghost m = self.modified_lines@;
        self.history.start_undo_or_redo();
        let result = if let Some(action) = self.history.redo_action() {
            *cursor = action.cursor_before;
            match action.action_type {
                ActionType::InsertChar { x, y, c } => {
                    if y < self.lines.len() {
                        let len = char_len(self.lines[y].as_str());
                        if x <= len {
                            let new_line = insert_char(&self.lines[y], x, c);
                            self.lines[y] = new_line;
                            assert(self.text() =~= t.update(y as int, t[y as int].insert(x as int, c)));
                            self.mark_line_modified(y);
                            self.is_modified = true;
                            cursor.x = x + 1;
                            true
                        } else {
                            false
                        }
                    } else {
                        false
                    }
                },
                ActionType::DeleteChar { x, y, .. } => {
                    if y < self.lines.len() {
                        let len = char_len(self.lines[y].as_str());
                        if x < len {
                            let new_line = remove_char(&self.lines[y], x);
                            self.lines[y] = new_line;
                            assert(self.text() =~= t.update(y as int, t[y as int].remove(x as int)));
                            self.mark_line_modified(y);
                            self.is_modified = true;
                            true
                        } else {
                            false
                        }
                    } else {
                        false
                    }
                },
                ActionType::InsertNewline { x, y, .. } => {
                    if y < self.lines.len() {
                        let len = char_len(self.lines[y].as_str());
                        if x <= len {
                            let before = substring(self.lines[y].as_str(), 0, x);
                            let after = substring(self.lines[y].as_str(), x, len);
                            self.lines[y] = before;
                            self.lines.insert(y + 1, after);
                            assert(self.text() =~= t.update(
                                y as int,
                                t[y as int].subrange(0, x as int),
                            ).insert(y + 1, t[y as int].subrange(x as int, len as int)));
                            self.mark_line_modified(y);
                            self.mark_line_modified(y + 1);
                            self.is_modified = true;
                            cursor.y = y + 1;
                            cursor.x = 0;
                            true
                        } else {
                            false
                        }
                    } else {
                        false
                    }
                },
                ActionType::DeleteLine { y, .. } => {
                    if y < self.lines.len() {
                        self.lines.remove(y);
                        assert(self.text() =~= t.remove(y as int));
                        if y < self.lines.len() {
                            self.mark_line_modified(y);
                        }
                        self.is_modified = true;
                        if cursor.y >= self.lines.len() {
                            cursor.y = if self.lines.len() > 0 { self.lines.len() - 1 } else { 0 };
                            cursor.x = self.line_length(cursor.y);
                        }
                        true
                    } else {
                        false
                    }
                },
                ActionType::JoinLines { y, column_pos } => {
                    if y < self.lines.len() && y + 1 < self.lines.len() {
                        let next_line = self.lines.remove(y + 1);
                        let joined = concat(self.lines[y].as_str(), next_line.as_str());
                        self.lines[y] = joined;
                        assert(self.text() =~= t.update(y as int, t[y as int] + t[y + 1]).remove(
                            y + 1,
                        ));
                        self.mark_line_modified(y);
                        self.is_modified = true;
                        cursor.x = column_pos;
                        true
                    } else {
                        false
                    }
                },
                ActionType::ReplaceSelection { new_text, selection_start, selection_end, .. } => {
                    let (start_line, start_col) = selection_start;
                    let (end_line, end_col) = selection_end;
                    cursor.y = start_line;
                    cursor.x = start_col;
                    if self.delete_between(start_line, start_col, end_line, end_col) {
                        self.insert_text_at_cursor(new_text, cursor);
                        self.is_modified = true;
                        true
                    } else {
                        false
                    }
                },
                ActionType::SetContent { new_lines, .. } => {
                    self.lines = new_lines;
                    self.set_all_modified();
                    self.is_modified = true;
                    true
                },
                ActionType::OpenLineBelow { y } => {
                    if y < self.lines.len() {
                        self.lines.insert(y + 1, String::new());
                        assert(self.text() =~= t.insert(y + 1, Seq::<char>::empty()));
                        self.mark_line_modified(y + 1);
                        self.is_modified = true;
                        cursor.y = y + 1;
                        cursor.x = 0;
                        true
                    } else {
                        false
                    }
                },
                ActionType::OpenLineAbove { y } => {
                    if y <= self.lines.len() {
                        self.lines.insert(y, String::new());
                        assert(self.text() =~= t.insert(y as int, Seq::<char>::empty()));
                        self.mark_line_modified(y);
                        self.is_modified = true;
                        cursor.y = y;
                        cursor.x = 0;
                        true
                    } else {
                        false
                    }
                },
                ActionType::DeleteWord { position, deleted_text } => {
                    let (line_idx, col_idx) = position;
                    if line_idx < self.lines.len() {
                        let len = char_len(self.lines[line_idx].as_str());
                        let d = char_len(deleted_text.as_str());
                        if col_idx + d <= len {
                            let word = substring(self.lines[line_idx].as_str(), col_idx, col_idx + d);
                            if same_text(word.as_str(), deleted_text.as_str()) {
                                let before = substring(self.lines[line_idx].as_str(), 0, col_idx);
                                let after = substring(
                                    self.lines[line_idx].as_str(),
                                    col_idx + d,
                                    len,
                                );
                                self.lines[line_idx] = concat(before.as_str(), after.as_str());
                                assert(self.text() =~= t.update(
                                    line_idx as int,
                                    t[line_idx as int].subrange(0, col_idx as int) + t[line_idx as int].subrange(
                                        col_idx + d,
                                        len as int,
                                    ),
                                ));
                                self.mark_line_modified(line_idx);
                                self.is_modified = true;
                                cursor.y = line_idx;
                                cursor.x = col_idx;
                                true
                            } else {
                                false
                            }
                        } else {
                            false
                        }
                    } else {
                        false
                    }
                },
                ActionType::DeleteToEndOfLine { position, .. } => {
                    let (line_idx, col_idx) = position;
                    if line_idx < self.lines.len() {
                        let len = char_len(self.lines[line_idx].as_str());
                        if col_idx <= len {
                            let head = substring(self.lines[line_idx].as_str(), 0, col_idx);
                            self.lines[line_idx] = head;
                            assert(self.text() =~= t.update(
                                line_idx as int,
                                t[line_idx as int].subrange(0, col_idx as int),
                            ));
                            self.mark_line_modified(line_idx);
                            self.is_modified = true;
                            cursor.y = line_idx;
                            cursor.x = col_idx;
                            true
                        } else {
                            false
                        }
                    } else {
                        false
                    }
                },
                ActionType::DeleteToStartOfLine { position, .. } => {
                    let (line_idx, col_idx) = position;
                    if line_idx < self.lines.len() {
                        let len = char_len(self.lines[line_idx].as_str());
                        if col_idx <= len {
                            let tail = substring(self.lines[line_idx].as_str(), col_idx, len);
                            self.lines[line_idx] = tail;
                            assert(self.text() =~= t.update(
                                line_idx as int,
                                t[line_idx as int].subrange(col_idx as int, len as int),
                            ));
                            self.mark_line_modified(line_idx);
                            self.is_modified = true;
                            cursor.y = line_idx;
                            cursor.x = 0;
                            true
                        } else {
                            false
                        }
                    } else {
                        false
                    }
                },
            }
        } else {
            false
        };
        if result {
            let len = self.line_length(cursor.y);
            if len < cursor.x {
                cursor.x = len;
            }
        }
        self.history.end_undo_or_redo();
        result
    }
}

} // verus!
