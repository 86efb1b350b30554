//! Laws of the editing core: what undo and redo give back after an edit, how
//! the history relates recording to undoing, how lists that wrap around are
//! walked, how scrolling keeps the cursor in view, how the content of a buffer
//! reads back, how the selection cuts a line into pieces and what copying it
//! takes, what deleting a word removes, and what a diagnostic keeps of the
//! lines that follow its location.

use vstd::prelude::*;
use super::buffer::{
    Text, insert_padded, join_lines, lines_block, loaded_lines, min_int, ordered, position_selected, selected_text,
    std_lines, strip_cr, undo_replay, redo_replay, word_end, split_newlines,
};
use super::viewport::scroll_to_show;
use super::cargo_output::{context_from, diagnostic_at, explain_note, header_of, reported_path_at, reported_paths_upto};
use crate::text::{contains_text, lemma_find_from, spec_is_alphanumeric, spec_is_whitespace, trim, trim_start};
use super::wrap::{wrap_next, wrap_prev};
use crate::ui::text_area::selection_runs;
use crate::config::key_bindings::{
    BindingModel, binding_matches, plain, with_ctrl, default_command_mode, default_file_finder_mode, default_help_mode,
    default_insert_mode, default_normal_mode, default_token_search_mode, first_bound,
};
use crate::keys::{KeyCode, KeyEvent, KeyModifiers};
use super::mode::Mode;
use super::modes::{first_bound_among, search_commands};
use super::panels::key_effect;
use super::commands::{NormalCommand, named_command, normal_command};
use super::session::{Editor, Step};
use super::cursor::Cursor;
use super::history::{ActionModel, EditorActionModel, History, pushed_actions};
use super::buffer::{Buffer, text_inserted, insert_fits, run_end, same_run, inserted_lines, selection_deleted, char_deleted, end_deleted, line_deleted, redo_fits, start_deleted, undo_fits, word_deleted};
use super::normal_mode::{redone, undone};
use super::diagnostics::{Diagnostic, DiagnosticFilter, diagnostics_in_order, enumerates, passes};

verus! {

/// After an action is recorded, it is the one that the next undo takes back,
/// and nothing is left to redo.
pub proof fn recorded_action_is_undone_next(
    actions: Seq<EditorActionModel>,
    index: nat,
    a: EditorActionModel,
    max: nat,
)
    requires
        index <= actions.len() <= max,
        max > 0,
    ensures
        ({
            let p = pushed_actions(actions, index as int, a, max as int);
            &&& p.len() > 0
            &&& p.len() <= max
            &&& p[p.len() - 1] == a
        }),
{
}

/// Undoing an action and then redoing it hands out the same recorded action,
/// and the position in the history comes back to where it was.
pub proof fn undo_then_redo_same_action(actions: Seq<EditorActionModel>, index: nat)
    requires
        0 < index <= actions.len(),
    ensures
        actions[index - 1] == actions[(index - 1) as int],
        (index - 1) + 1 == index,
{
}

/// Undoing a character insertion within a line restores the text, and
/// redoing it inserts the character again.
pub proof fn undo_redo_insert_char(
    t: Text,
    m: Set<usize>,
    x: usize,
    y: usize,
    c: char,
    before: Cursor,
    after: Cursor,
)
    requires
        y < t.len(),
        x <= t[y as int].len(),
        x < usize::MAX,
    ensures
        ({
            let edited = t.update(y as int, insert_padded(t[y as int], x as int, c));
            let a = EditorActionModel {
                action_type: ActionModel::InsertChar { x, y, c },
                cursor_before: before,
                cursor_after: after,
            };
            let u = undo_replay(edited, m, a);
            &&& u.done
            &&& u.text == t
            &&& redo_replay(u.text, u.modified, a).text == edited
        }),
{
    let edited = t.update(y as int, insert_padded(t[y as int], x as int, c));
    assert(edited[y as int].remove(x as int) =~= t[y as int]);
    assert(t.update(y as int, edited[y as int].remove(x as int)) =~= t);
    assert(t.update(y as int, t[y as int].insert(x as int, c)) =~= edited);
}

/// Undoing a character deletion restores the text; redoing deletes it again.
pub proof fn undo_redo_delete_char(t: Text, m: Set<usize>, x: usize, y: usize, cur: Cursor)
    requires
        y < t.len(),
        x < t[y as int].len(),
    ensures
        ({
            let edited = t.update(y as int, t[y as int].remove(x as int));
            let a = EditorActionModel {
                action_type: ActionModel::DeleteChar { x, y, c: t[y as int][x as int] },
                cursor_before: cur,
                cursor_after: cur,
            };
            let u = undo_replay(edited, m, a);
            &&& u.done
            &&& u.text == t
            &&& redo_replay(u.text, u.modified, a).text == edited
        }),
{
    let edited = t.update(y as int, t[y as int].remove(x as int));
    assert(edited[y as int].insert(x as int, t[y as int][x as int]) =~= t[y as int]);
    assert(t.update(y as int, edited[y as int].insert(x as int, t[y as int][x as int])) =~= t);
    assert(t.update(y as int, t[y as int].remove(x as int)) =~= edited);
}

/// Undoing a line split restores the text; redoing splits the line again.
pub proof fn undo_redo_insert_newline(t: Text, m: Set<usize>, x: usize, y: usize, before: Cursor)
    requires
        y < t.len(),
    ensures
        ({
            let l = t[y as int];
            let head = if x < l.len() {
                l.subrange(0, x as int)
            } else {
                l
            };
            let tail = if x < l.len() {
                l.subrange(x as int, l.len() as int)
            } else {
                Seq::<char>::empty()
            };
            let edited = t.update(y as int, head).insert(y + 1, tail);
            let a = EditorActionModel {
                action_type: ActionModel::InsertNewline { x, y, remaining_text: tail },
                cursor_before: before,
                cursor_after: Cursor { x: 0, y: (y + 1) as usize },
            };
            let u = undo_replay(edited, m, a);
            &&& u.done
            &&& u.text == t
            &&& (x <= l.len() ==> redo_replay(u.text, u.modified, a).text == edited)
        }),
{
    let l = t[y as int];
    let head = if x < l.len() {
        l.subrange(0, x as int)
    } else {
        l
    };
    let tail = if x < l.len() {
        l.subrange(x as int, l.len() as int)
    } else {
        Seq::<char>::empty()
    };
    let edited = t.update(y as int, head).insert(y + 1, tail);
    assert(head + tail =~= l);
    assert(edited.update(y as int, edited[y as int] + tail).remove(y + 1) =~= t);
    if x <= l.len() {
        assert(l.subrange(0, x as int) =~= head);
        assert(l.subrange(x as int, l.len() as int) =~= tail);
        assert(t.update(y as int, l.subrange(0, x as int)).insert(
            y + 1,
            l.subrange(x as int, l.len() as int),
        ) =~= edited);
    }
}

/// Undoing the deletion of a line (in a text of more than one line)
/// restores the text; redoing deletes the line again.
pub proof fn undo_redo_delete_line(t: Text, m: Set<usize>, y: usize, before: Cursor, after: Cursor)
    requires
        y < t.len(),
        t.len() > 1,
    ensures
        ({
            let edited = t.remove(y as int);
            let a = EditorActionModel {
                action_type: ActionModel::DeleteLine { y, content: t[y as int] },
                cursor_before: before,
                cursor_after: after,
            };
            let u = undo_replay(edited, m, a);
            &&& u.done
            &&& u.text == t
            &&& redo_replay(u.text, u.modified, a).text == edited
        }),
{
    assert(t.remove(y as int).insert(y as int, t[y as int]) =~= t);
}

/// Undoing the joining of two lines restores the text; redoing joins them again.
pub proof fn undo_redo_join_lines(t: Text, m: Set<usize>, y: usize, cur: Cursor)
    requires
        y + 1 < t.len(),
        t[y as int].len() <= usize::MAX,
    ensures
        ({
            let edited = t.update(y as int, t[y as int] + t[y + 1]).remove(y + 1);
            let a = EditorActionModel {
                action_type: ActionModel::JoinLines { y, column_pos: t[y as int].len() as usize },
                cursor_before: cur,
                cursor_after: cur,
            };
            let u = undo_replay(edited, m, a);
            &&& u.done
            &&& u.text == t
            &&& redo_replay(u.text, u.modified, a).text == edited
        }),
{
    let edited = t.update(y as int, t[y as int] + t[y + 1]).remove(y + 1);
    let j = edited[y as int];
    let k = t[y as int].len() as int;
    assert(j.subrange(0, k) =~= t[y as int]);
    assert(j.subrange(k, j.len() as int) =~= t[y + 1]);
    assert(edited.update(y as int, j.subrange(0, k)).insert(y + 1, j.subrange(k, j.len() as int))
        =~= t);
}

/// Undoing the opening of a line below an existing line restores the text;
/// redoing opens it again.
pub proof fn undo_redo_open_line_below(t: Text, m: Set<usize>, y: usize, before: Cursor, after: Cursor)
    requires
        y < t.len(),
    ensures
        ({
            let edited = t.insert(y + 1, Seq::<char>::empty());
            let a = EditorActionModel {
                action_type: ActionModel::OpenLineBelow { y },
                cursor_before: before,
                cursor_after: after,
            };
            let u = undo_replay(edited, m, a);
            &&& u.done
            &&& u.text == t
            &&& redo_replay(u.text, u.modified, a).text == edited
        }),
{
    assert(t.insert(y + 1, Seq::<char>::empty()).remove(y + 1) =~= t);
}

/// Undoing the opening of a line above restores the text; redoing opens it again.
pub proof fn undo_redo_open_line_above(t: Text, m: Set<usize>, y: usize, before: Cursor, after: Cursor)
    requires
        y <= t.len(),
    ensures
        ({
            let edited = t.insert(y as int, Seq::<char>::empty());
            let a = EditorActionModel {
                action_type: ActionModel::OpenLineAbove { y },
                cursor_before: before,
                cursor_after: after,
            };
            let u = undo_replay(edited, m, a);
            &&& u.done
            &&& u.text == t
            &&& redo_replay(u.text, u.modified, a).text == edited
        }),
{
    assert(t.insert(y as int, Seq::<char>::empty()).remove(y as int) =~= t);
}

/// Undoing the deletion of a word restores the text; redoing deletes it again.
pub proof fn undo_redo_delete_word(t: Text, m: Set<usize>, x: usize, y: usize, cur: Cursor)
    requires
        y < t.len(),
        x < t[y as int].len(),
        x < word_end(t[y as int], x as int) <= t[y as int].len(),
    ensures
        ({
            let l = t[y as int];
            let e = word_end(l, x as int);
            let edited = t.update(y as int, l.subrange(0, x as int) + l.subrange(e, l.len() as int));
            let a = EditorActionModel {
                action_type: ActionModel::DeleteWord {
                    position: (y, x),
                    deleted_text: l.subrange(x as int, e),
                },
                cursor_before: cur,
                cursor_after: cur,
            };
            let u = undo_replay(edited, m, a);
            &&& u.done
            &&& u.text == t
            &&& redo_replay(u.text, u.modified, a).text == edited
        }),
{
    let l = t[y as int];
    let e = word_end(l, x as int);
    let d = l.subrange(x as int, e);
    let l2 = l.subrange(0, x as int) + l.subrange(e, l.len() as int);
    assert(l2.subrange(0, x as int) + d + l2.subrange(x as int, l2.len() as int) =~= l);
    let edited = t.update(y as int, l2);
    assert(edited.update(
        y as int,
        l2.subrange(0, x as int) + d + l2.subrange(x as int, l2.len() as int),
    ) =~= t);
    assert(l.subrange(x as int, x + d.len()) =~= d);
    assert(l.subrange(0, x as int) + l.subrange(x + d.len(), l.len() as int) =~= l2);
}

/// Undoing a deletion to the end of a line restores the text; redoing
/// deletes again.
pub proof fn undo_redo_delete_to_end(t: Text, m: Set<usize>, x: usize, y: usize, cur: Cursor)
    requires
        y < t.len(),
        x < t[y as int].len(),
    ensures
        ({
            let l = t[y as int];
            let edited = t.update(y as int, l.subrange(0, x as int));
            let a = EditorActionModel {
                action_type: ActionModel::DeleteToEndOfLine {
                    position: (y, x),
                    deleted_text: l.subrange(x as int, l.len() as int),
                },
                cursor_before: cur,
                cursor_after: cur,
            };
            let u = undo_replay(edited, m, a);
            &&& u.done
            &&& u.text == t
            &&& redo_replay(u.text, u.modified, a).text == edited
        }),
{
    let l = t[y as int];
    assert(l.subrange(0, x as int) + l.subrange(x as int, l.len() as int) =~= l);
    assert(t.update(y as int, l.subrange(0, x as int)).update(
        y as int,
        l.subrange(0, x as int) + l.subrange(x as int, l.len() as int),
    ) =~= t);
}

/// Undoing a deletion to the start of a line restores the text; redoing
/// deletes again.
pub proof fn undo_redo_delete_to_start(t: Text, m: Set<usize>, x: usize, y: usize, cur: Cursor, after: Cursor)
    requires
        y < t.len(),
        0 < x <= t[y as int].len(),
    ensures
        ({
            let l = t[y as int];
            let edited = t.update(y as int, l.subrange(x as int, l.len() as int));
            let a = EditorActionModel {
                action_type: ActionModel::DeleteToStartOfLine {
                    position: (y, x),
                    deleted_text: l.subrange(0, x as int),
                },
                cursor_before: cur,
                cursor_after: after,
            };
            let u = undo_replay(edited, m, a);
            &&& u.done
            &&& u.text == t
            &&& redo_replay(u.text, u.modified, a).text == edited
        }),
{
    let l = t[y as int];
    assert(l.subrange(0, x as int) + l.subrange(x as int, l.len() as int) =~= l);
    assert(t.update(y as int, l.subrange(x as int, l.len() as int)).update(
        y as int,
        l.subrange(0, x as int) + l.subrange(x as int, l.len() as int),
    ) =~= t);
}

/// `str::lines` of a piece without newlines, or of such a piece followed by
/// one newline when it does not end in a carriage return, is that piece.
proof fn lemma_std_lines_single(w: Seq<char>, newline: bool)
    requires
        w.len() > 0,
        forall|j: int| 0 <= j < w.len() ==> w[j] != '\n',
        newline ==> w.last() != '\r',
    ensures
        std_lines(if newline { w + seq!['\n'] } else { w }) == seq![w],
{
    lemma_split_single(w);
    if newline {
        lemma_split_after_newline(w, Seq::<char>::empty());
        let s = w + seq!['\n'];
        assert(s =~= w + seq!['\n'] + Seq::<char>::empty());
        assert(s.last() == '\n');
        let p = split_newlines(s);
        assert(p =~= seq![w, Seq::<char>::empty()]);
        assert(loaded_lines(s) =~= seq![strip_cr(w), Seq::<char>::empty()]);
        assert(strip_cr(w) == w);
        assert(std_lines(s) =~= seq![w]);
    } else {
        assert(w.last() == w[w.len() - 1]);
        assert(loaded_lines(w) =~= seq![w]);
    }
}

/// Undoing the deletion of a selection within one line restores the text;
/// redoing it, when the selection ends within the line, deletes it again.
/// The line holds no newline and, where the selection reaches its end
/// before the last line, does not end in a carriage return: text put back is
/// split as `str::lines` splits it, which would drop those.
pub proof fn undo_redo_delete_selection(t: Text, m: Set<usize>, start: (usize, usize), cur: Cursor, after: Cursor)
    requires
        ({
            let (fl, fc, ll, lc) = ordered(start, (cur.y, cur.x));
            &&& fl == ll
            &&& fl < t.len()
            &&& fc < lc
            &&& fc < t[fl as int].len()
            &&& forall|j: int| 0 <= j < t[fl as int].len() ==> t[fl as int][j] != '\n'
            &&& lc >= t[fl as int].len() && fl < t.len() - 1 ==> t[fl as int].last() != '\r'
        }),
    ensures
        ({
            let (fl, fc, ll, lc) = ordered(start, (cur.y, cur.x));
            let l = t[fl as int];
            let e = min_int(lc as int, l.len() as int);
            let edited = t.update(fl as int, l.subrange(0, fc as int) + l.subrange(e, l.len() as int));
            let a = EditorActionModel {
                action_type: ActionModel::ReplaceSelection {
                    old_text: selected_text(t, start, cur, false),
                    new_text: Seq::<char>::empty(),
                    selection_start: (fl, fc),
                    selection_end: (ll, lc),
                },
                cursor_before: cur,
                cursor_after: after,
            };
            let u = undo_replay(edited, m, a);
            &&& u.done
            &&& u.text == t
            &&& lc <= l.len() ==> redo_replay(u.text, u.modified, a).text == edited
        }),
{
    let (fl, fc, ll, lc) = ordered(start, (cur.y, cur.x));
    let l = t[fl as int];
    let e = min_int(lc as int, l.len() as int);
    let edited = t.update(fl as int, l.subrange(0, fc as int) + l.subrange(e, l.len() as int));
    let c = l.subrange(fc as int, e);
    let newline = e >= l.len() && fl < t.len() - 1;
    assert(selected_text(t, start, cur, false) == if newline { c + seq!['\n'] } else { c });
    assert forall|j: int| 0 <= j < c.len() implies c[j] != '\n' by {
        assert(c[j] == l[fc + j]);
    }
    if newline {
        assert(c.last() == l.last());
    }
    lemma_std_lines_single(c, newline);
    let el = edited[fl as int];
    assert(el.subrange(0, fc as int) + el.subrange(fc as int, el.len() as int) =~= el);
    assert(edited.update(fl as int, el.subrange(0, fc as int) + el.subrange(fc as int, el.len() as int)) =~= edited);
    assert(el.subrange(0, fc as int) =~= l.subrange(0, fc as int));
    assert(el.subrange(fc as int, el.len() as int) =~= l.subrange(e, l.len() as int));
    assert(l.subrange(0, fc as int) + c + l.subrange(e, l.len() as int) =~= l);
    assert(edited.update(fl as int, l.subrange(0, fc as int) + c + l.subrange(e, l.len() as int)) =~= t);
}

/// Undoing a replacement of the whole content restores the previous lines;
/// redoing puts the new content back.
pub proof fn undo_redo_set_content(t: Text, m: Set<usize>, content: Seq<char>, cur: Cursor)
    ensures
        ({
            let edited = split_newlines(content);
            let a = EditorActionModel {
                action_type: ActionModel::SetContent { old_lines: t, new_lines: edited },
                cursor_before: cur,
                cursor_after: cur,
            };
            let u = undo_replay(edited, m, a);
            &&& u.done
            &&& u.text == t
            &&& redo_replay(u.text, u.modified, a).text == edited
        }),
{
}

/// Moving to the next item of a wrapping list and then to the previous one
/// comes back to the same item, and so does the other way round (tabs, the
/// file finder's matches, the token search's results).
pub proof fn next_and_previous_undo_each_other(i: int, n: int)
    requires
        0 <= i < n,
    ensures
        wrap_prev(wrap_next(i, n), n) == i,
        wrap_next(wrap_prev(i, n), n) == i,
{
    if i + 1 < n {
        vstd::arithmetic::div_mod::lemma_small_mod((i + 1) as nat, n as nat);
    } else {
        vstd::arithmetic::div_mod::lemma_mod_self_0(n);
    }
    if i == 0 {
        vstd::arithmetic::div_mod::lemma_mod_self_0(n);
    } else {
        vstd::arithmetic::div_mod::lemma_small_mod(i as nat, n as nat);
    }
}

/// The item reached from `i` after `k` moves to the next one.
pub open spec fn next_times(i: int, n: int, k: nat) -> int
    decreases k,
{
    if k == 0 { i } else { wrap_next(next_times(i, n, (k - 1) as nat), n) }
}

/// `k` moves to the next item go `k` places further, modulo the length.
proof fn lemma_next_times(i: int, n: int, k: nat)
    requires
        0 <= i < n,
    ensures
        next_times(i, n, k) == (i + k) % n,
    decreases k,
{
    if k > 0 {
        lemma_next_times(i, n, (k - 1) as nat);
        let p = next_times(i, n, (k - 1) as nat);
        assert(p == (i + (k - 1)) % n);
        assert(next_times(i, n, k) == (p + 1) % n);
        vstd::arithmetic::div_mod::lemma_add_mod_noop_right(1, i + (k - 1), n);
        assert((1 + p) % n == (1 + (i + (k - 1))) % n);
        assert(1 + (i + (k - 1)) == i + k);
        assert(p + 1 == 1 + p);
    } else {
        vstd::arithmetic::div_mod::lemma_small_mod(i as nat, n as nat);
    }
}

/// Moving to the next item as many times as the list is long comes back to
/// where it started.
pub proof fn going_round_returns(i: int, n: int)
    requires
        0 <= i < n,
    ensures
        next_times(i, n, n as nat) == i,
{
    lemma_next_times(i, n, n as nat);
    vstd::arithmetic::div_mod::lemma_mod_add_multiples_vanish(i, n);
    vstd::arithmetic::div_mod::lemma_small_mod(i as nat, n as nat);
}

/// After scrolling to show a position, it is in view; and where it already
/// was in view, nothing scrolls.
pub proof fn scrolling_shows_the_position(first: int, size: int, pos: int)
    requires
        size > 0,
    ensures
        scroll_to_show(first, size, pos) <= pos < scroll_to_show(first, size, pos) + size,
        first <= pos < first + size ==> scroll_to_show(first, size, pos) == first,
{
}

/// Splitting `s`, then a newline, then a piece without newlines, gives the
/// pieces of `s` and then that piece.
proof fn lemma_split_after_newline(s: Seq<char>, w: Seq<char>)
    requires
        forall|j: int| 0 <= j < w.len() ==> w[j] != '\n',
    ensures
        split_newlines(s + seq!['\n'] + w) == split_newlines(s).push(w),
    decreases w.len(),
{
    let whole = s + seq!['\n'] + w;
    if w.len() == 0 {
        assert(whole =~= s.push('\n'));
        assert(whole.drop_last() =~= s);
        assert(whole.last() == '\n');
        assert(w =~= Seq::<char>::empty());
        assert(split_newlines(whole) == split_newlines(whole.drop_last()).push(Seq::<char>::empty()));
    } else {
        lemma_split_after_newline(s, w.drop_last());
        assert(whole.drop_last() =~= s + seq!['\n'] + w.drop_last());
        assert(whole.last() == w.last());
        assert(w.last() == w[w.len() - 1]);
        assert(w[w.len() - 1] != '\n');
        let rest = split_newlines(whole.drop_last());
        assert(split_newlines(whole) == rest.update(rest.len() - 1, rest.last().push(whole.last())));
        assert(w.drop_last().push(w.last()) =~= w);
        assert(w.drop_last().push(w.last()) =~= w);
        assert(split_newlines(s).push(w.drop_last()).update(
            split_newlines(s).len() as int,
            w.drop_last().push(w.last()),
        ) =~= split_newlines(s).push(w));
    }
}

/// A piece without newlines splits into itself.
proof fn lemma_split_single(w: Seq<char>)
    requires
        forall|j: int| 0 <= j < w.len() ==> w[j] != '\n',
    ensures
        split_newlines(w) == seq![w],
    decreases w.len(),
{
    if w.len() == 0 {
        assert(w =~= Seq::<char>::empty());
    } else {
        lemma_split_single(w.drop_last());
        assert(w.last() == w[w.len() - 1]);
        assert(w[w.len() - 1] != '\n');
        let rest = split_newlines(w.drop_last());
        assert(split_newlines(w) == rest.update(rest.len() - 1, rest.last().push(w.last())));
        assert(w.drop_last().push(w.last()) =~= w);
        assert(seq![w.drop_last()].update(0, w.drop_last().push(w.last())) =~= seq![w]);
    }
}

/// Setting a buffer's content to the text that `get_content` gives back
/// restores its lines, when no line holds a newline.
pub proof fn content_reads_back(t: Text)
    requires
        t.len() >= 1,
        forall|i: int, j: int| 0 <= i < t.len() && 0 <= j < t[i].len() ==> #[trigger] t[i][j] != '\n',
    ensures
        split_newlines(join_lines(t)) == t,
    decreases t.len(),
{
    if t.len() == 1 {
        assert forall|j: int| 0 <= j < t[0].len() implies t[0][j] != '\n' by {
            assert(t[0][j] != '\n');
        }
        lemma_split_single(t[0]);
        assert(seq![t[0]] =~= t);
    } else {
        let init = t.drop_last();
        assert forall|i: int, j: int| 0 <= i < init.len() && 0 <= j < init[i].len() implies #[trigger] init[i][j]
            != '\n' by {
            assert(init[i] == t[i]);
        }
        content_reads_back(init);
        assert forall|j: int| 0 <= j < t.last().len() implies t.last()[j] != '\n' by {
            assert(t[t.len() - 1][j] != '\n');
        }
        lemma_split_after_newline(join_lines(init), t.last());
        assert(init.push(t.last()) =~= t);
    }
}

/// The texts of a list of runs.
pub open spec fn run_texts(runs: Seq<(Seq<char>, bool)>) -> Seq<Seq<char>> {
    runs.map_values(|r: (Seq<char>, bool)| r.0)
}

/// Where run `k` starts: the length of the runs before it.
pub open spec fn run_start(runs: Seq<(Seq<char>, bool)>, k: int) -> int {
    run_texts(runs.take(k)).flatten().len() as int
}

/// Whether run `k` of `runs`, cut from text starting at column `c0` of
/// `line`, says rightly whether its `j`-th character is selected.
pub open spec fn run_says_selected(
    runs: Seq<(Seq<char>, bool)>,
    k: int,
    j: int,
    line: usize,
    c0: int,
    sel: Option<(usize, usize)>,
    cursor: Cursor,
    whole_lines: bool,
) -> bool {
    runs[k].1 == position_selected(sel, line, (c0 + run_start(runs, k) + j) as usize, cursor, whole_lines)
}

/// Cutting text by the selection loses nothing and cuts only where the
/// selection starts or ends: the runs put together give the text back, no
/// run is empty, two runs side by side differ in whether they are selected,
/// and each character lies in a run that says whether it is selected.
#[verifier::spinoff_prover]
#[verifier::rlimit(100)]
pub proof fn selection_cuts_only_at_its_ends(
    t: Seq<char>,
    line: usize,
    c0: int,
    sel: Option<(usize, usize)>,
    cursor: Cursor,
    whole_lines: bool,
)
    ensures
        ({
            let runs = selection_runs(t, line, c0, sel, cursor, whole_lines);
            &&& run_texts(runs).flatten() == t
            &&& forall|k: int| 0 <= k < runs.len() ==> (#[trigger] runs[k]).0.len() > 0
            &&& forall|k: int| 0 <= k < runs.len() - 1 ==> (#[trigger] runs[k]).1 != runs[k + 1].1
            &&& forall|k: int, j: int|
                0 <= k < runs.len() && 0 <= j < runs[k].0.len() ==> #[trigger] run_says_selected(
                    runs,
                    k,
                    j,
                    line,
                    c0,
                    sel,
                    cursor,
                    whole_lines,
                )
        }),
    decreases t.len(),
{
    broadcast use Seq::lemma_flatten_push;

    let runs = selection_runs(t, line, c0, sel, cursor, whole_lines);
    if t.len() > 0 {
        let init = t.drop_last();
        let before = selection_runs(init, line, c0, sel, cursor, whole_lines);
        selection_cuts_only_at_its_ends(init, line, c0, sel, cursor, whole_lines);
        let c = t.last();
        let b = position_selected(sel, line, (c0 + t.len() - 1) as usize, cursor, whole_lines);
        assert(init.push(c) =~= t);
        if before.len() > 0 && before.last().1 == b {
            let last = before.len() - 1;
            assert(before.take(last).push(before[last]) =~= before);
            assert(runs.take(last) =~= before.take(last));
            assert(run_texts(before) =~= run_texts(before.take(last)).push(before[last].0));
            assert(run_texts(runs) =~= run_texts(before.take(last)).push(before[last].0.push(c)));
            assert(run_texts(before.take(last)).flatten() + before[last].0 == init);
            assert(run_texts(runs).flatten() =~= t);
            assert forall|k: int, j: int| 0 <= k < runs.len() && 0 <= j < runs[k].0.len() implies #[trigger] run_says_selected(
                runs,
                k,
                j,
                line,
                c0,
                sel,
                cursor,
                whole_lines,
            ) by {
                if k < last {
                    assert(runs.take(k) =~= before.take(k));
                    assert(runs[k] == before[k]);
                    assert(run_says_selected(before, k, j, line, c0, sel, cursor, whole_lines));
                } else {
                    assert(runs.take(k) =~= before.take(last));
                    if j < before[last].0.len() {
                        assert(run_says_selected(before, last, j, line, c0, sel, cursor, whole_lines));
                    } else {
                        assert(run_start(runs, k) + j == t.len() - 1);
                    }
                }
            }
        } else {
            assert(runs == before.push((seq![c], b)));
            assert(runs.take(before.len() as int) =~= before);
            assert(run_texts(runs) =~= run_texts(before).push(seq![c]));
            assert(run_texts(runs).flatten() =~= t);
            assert forall|k: int, j: int| 0 <= k < runs.len() && 0 <= j < runs[k].0.len() implies #[trigger] run_says_selected(
                runs,
                k,
                j,
                line,
                c0,
                sel,
                cursor,
                whole_lines,
            ) by {
                if k < before.len() {
                    assert(runs.take(k) =~= before.take(k));
                    assert(runs[k] == before[k]);
                    assert(run_says_selected(before, k, j, line, c0, sel, cursor, whole_lines));
                } else {
                    assert(runs.take(k) =~= before);
                    assert(j == 0);
                }
            }
        }
    }
}

/// Every path that a diagnostic of cargo's output reports below its header
/// is among [`reported_paths_upto`] of all the lines: the table of
/// comparisons with the current file that is built from `reported_paths`
/// has an entry for each path the parser compares.
pub proof fn reported_paths_list_every_location(lines: Seq<Seq<char>>, i: int, n: int)
    requires
        0 <= i < n <= lines.len(),
        reported_path_at(lines, i) is Some,
    ensures
        reported_paths_upto(lines, n).contains(reported_path_at(lines, i)->0),
    decreases n,
{
    let p = reported_path_at(lines, i)->0;
    if i == n - 1 {
        let prev = reported_paths_upto(lines, n - 1);
        assert(reported_paths_upto(lines, n) == prev.push(p));
        assert(prev.push(p)[prev.len() as int] == p);
    } else {
        reported_paths_list_every_location(lines, i, n - 1);
        let prev = reported_paths_upto(lines, n - 1);
        let k = choose|k: int| 0 <= k < prev.len() && prev[k] == p;
        match reported_path_at(lines, n - 1) {
            Some(q) => {
                assert(prev.push(q)[k] == p);
            },
            None => {},
        }
    }
}

/// The Escape key, without modifiers.
pub open spec fn escape() -> KeyEvent {
    KeyEvent { code: KeyCode::Esc, modifiers: KeyModifiers { control: false, alt: false, shift: false } }
}

/// Whether the configuration of `e` leaves Escape to its own meaning: in
/// each mode with bindings it is bound to nothing, or to that mode's way
/// back to normal mode; and a snake game runs in snake mode.
pub open spec fn escape_unclaimed(e: Editor) -> bool {
    let k = e.config.key_bindings;
    let esc = escape();
    &&& first_bound(k.normal_mode.entries(), esc) is None
    &&& (first_bound(k.insert_mode.entries(), esc) is None || first_bound(k.insert_mode.entries(), esc) == Some(
        "normal_mode"@,
    ))
    &&& (first_bound(k.command_mode.entries(), esc) is None || first_bound(k.command_mode.entries(), esc) == Some(
        "normal_mode"@,
    ))
    &&& (first_bound(k.help_mode.entries(), esc) is None || first_bound(k.help_mode.entries(), esc) == Some(
        "normal_mode"@,
    ))
    &&& (first_bound(k.file_finder_mode.entries(), esc) is None || first_bound(k.file_finder_mode.entries(), esc)
        == Some("cancel"@))
    &&& (first_bound_among(k.token_search_mode.entries(), esc, search_commands()) is None || first_bound_among(
        k.token_search_mode.entries(),
        esc,
        search_commands(),
    ) == Some("cancel"@))
    &&& e.mode == Mode::Snake ==> e.snake_game is Some
}

/// Escape returns to normal mode from every mode, where the configuration
/// leaves Escape to its own meaning (see [`escape_unclaimed`]); it asks for
/// nothing outside, keeps the tabs and the current tab, and changes no text.
pub proof fn escape_returns_to_normal_mode(o: Editor, n: Editor, s: Step)
    requires
        escape_unclaimed(o),
        key_effect(o, n, escape(), s),
    ensures
        n.mode == Mode::Normal,
        s is Continue,
        n.tabs@.len() == o.tabs@.len(),
        n.current_tab == o.current_tab,
        n.tab().buffer.lines == o.tab().buffer.lines,
{
}

/// In normal mode a key that the configuration binds runs the bound
/// command, whatever the key means by default (a plain `d` excepted, which
/// always starts a delete command).
pub proof fn bound_keys_run_their_commands(e: Editor, key: KeyEvent, name: Seq<char>)
    requires
        first_bound(e.config.key_bindings.normal_mode.entries(), key) == Some(name),
        !(key.code == KeyCode::Char('d') && !key.modifiers.control && !key.modifiers.alt && !key.modifiers.shift),
    ensures
        normal_command(e.config.key_bindings.normal_mode.entries(), key) == named_command(name),
{
}

/// In normal mode, F1 to F12 (unless the configuration binds them) make
/// tabs 1 to 12 current, where they exist; the tabs stay as they are.
pub proof fn function_keys_go_to_tabs(o: Editor, n: Editor, s: Step, f: u8)
    requires
        o.mode == Mode::Normal,
        1 <= f <= 12,
        first_bound(
            o.config.key_bindings.normal_mode.entries(),
            KeyEvent { code: KeyCode::F(f), modifiers: KeyModifiers { control: false, alt: false, shift: false } },
        ) is None,
        key_effect(
            o,
            n,
            KeyEvent { code: KeyCode::F(f), modifiers: KeyModifiers { control: false, alt: false, shift: false } },
            s,
        ),
    ensures
        n.tabs == o.tabs,
        n.current_tab == (if f - 1 < o.tabs@.len() { (f - 1) as usize } else { o.current_tab }),
{
}

/// The diagnostics that `f` gives for each of the lines `ks`, in order.
spec fn concat_lines(f: spec_fn(usize) -> Seq<Diagnostic>, ks: Seq<usize>) -> Seq<Diagnostic>
    decreases ks.len(),
{
    if ks.len() == 0 {
        Seq::empty()
    } else {
        concat_lines(f, ks.drop_last()) + f(ks.last())
    }
}

/// Listing the lines of `m` in order `ks` and keeping those that pass `p`
/// is listing, line by line, the diagnostics of each that pass `p`.
proof fn lemma_listing_filtered(m: Map<usize, Seq<Diagnostic>>, ks: Seq<usize>, p: spec_fn(Diagnostic) -> bool)
    ensures
        diagnostics_in_order(m, ks).filter(p) == concat_lines(|k: usize| m[k].filter(p), ks),
    decreases ks.len(),
{
    if ks.len() == 0 {
        assert(diagnostics_in_order(m, ks) =~= Seq::<Diagnostic>::empty());
        reveal(Seq::filter);
        assert(Seq::<Diagnostic>::empty().filter(p) =~= Seq::<Diagnostic>::empty());
    } else {
        lemma_listing_filtered(m, ks.drop_last(), p);
        Seq::filter_distributes_over_add(diagnostics_in_order(m, ks.drop_last()), m[ks.last()], p);
    }
}

/// Leaving line `ks[i]` out of a listing takes its diagnostics out.
proof fn lemma_concat_remove(f: spec_fn(usize) -> Seq<Diagnostic>, ks: Seq<usize>, i: int)
    requires
        0 <= i < ks.len(),
    ensures
        concat_lines(f, ks).to_multiset() == concat_lines(f, ks.remove(i)).to_multiset().add(
            f(ks[i]).to_multiset(),
        ),
    decreases ks.len(),
{
    broadcast use vstd::seq_lib::lemma_multiset_commutative;
    broadcast use vstd::multiset::group_multiset_axioms;
    if i == ks.len() - 1 {
        assert(ks.remove(i) =~= ks.drop_last());
    } else {
        lemma_concat_remove(f, ks.drop_last(), i);
        assert(ks.remove(i).drop_last() =~= ks.drop_last().remove(i));
        assert(ks.remove(i).last() == ks.last());
        let a = concat_lines(f, ks.drop_last().remove(i)).to_multiset();
        let b = f(ks[i]).to_multiset();
        let c = f(ks.last()).to_multiset();
        assert(a.add(b).add(c) =~= a.add(c).add(b));
    }
}

/// Two listings of the same lines, each line once, hold the same diagnostics.
proof fn lemma_concat_permutation(f: spec_fn(usize) -> Seq<Diagnostic>, ks1: Seq<usize>, ks2: Seq<usize>)
    requires
        ks1.no_duplicates(),
        ks2.no_duplicates(),
        ks1.to_set() == ks2.to_set(),
    ensures
        concat_lines(f, ks1).to_multiset() == concat_lines(f, ks2).to_multiset(),
    decreases ks1.len(),
{
    if ks1.len() == 0 {
        if ks2.len() > 0 {
            assert(ks2.to_set().contains(ks2[0]));
            assert(false);
        }
        assert(ks2 =~= Seq::<usize>::empty());
    } else {
        let k = ks1.last();
        assert(ks1.to_set().contains(k));
        assert(ks2.contains(k));
        let i = choose|i: int| 0 <= i < ks2.len() && ks2[i] == k;
        let r1 = ks1.drop_last();
        let r2 = ks2.remove(i);
        assert(r1.no_duplicates()) by {
            assert forall|a: int, b: int| 0 <= a < b < r1.len() implies r1[a] != r1[b] by {
                assert(ks1[a] != ks1[b]);
            }
        }
        assert(r2.no_duplicates()) by {
            assert forall|a: int, b: int| 0 <= a < b < r2.len() implies r2[a] != r2[b] by {
                let a2 = if a < i { a } else { a + 1 };
                let b2 = if b < i { b } else { b + 1 };
                assert(r2[a] == ks2[a2] && r2[b] == ks2[b2]);
            }
        }
        assert(r1.to_set() =~= r2.to_set()) by {
            assert forall|x: usize| r1.contains(x) implies r2.contains(x) by {
                let a = choose|a: int| 0 <= a < r1.len() && r1[a] == x;
                assert(ks1[a] == x);
                assert(ks1.to_set().contains(x));
                assert(ks2.contains(x));
                let b = choose|b: int| 0 <= b < ks2.len() && ks2[b] == x;
                assert(x != k) by {
                    assert(ks1[a] != ks1[ks1.len() - 1]);
                }
                assert(b != i);
                if b < i {
                    assert(r2[b] == x);
                } else {
                    assert(r2[b - 1] == x);
                }
            }
            assert forall|x: usize| r2.contains(x) implies r1.contains(x) by {
                let b = choose|b: int| 0 <= b < r2.len() && r2[b] == x;
                let b2 = if b < i { b } else { b + 1 };
                assert(ks2[b2] == x);
                assert(b2 != i);
                assert(x != k);
                assert(ks2.to_set().contains(x));
                assert(ks1.contains(x));
                let a = choose|a: int| 0 <= a < ks1.len() && ks1[a] == x;
                assert(a != ks1.len() - 1);
                assert(r1[a] == x);
            }
        }
        lemma_concat_permutation(f, r1, r2);
        lemma_concat_remove(f, ks2, i);
        broadcast use vstd::seq_lib::lemma_multiset_commutative;
    }
}

/// Whatever order the lines are walked in, the same diagnostics come out:
/// two listings of every line of `m` (see [`enumerates`]) hold the same
/// diagnostics, and so do the ones that pass any filter, so that
/// `get_all_diagnostics`, `get_filtered_diagnostics`, `error_count` and
/// `warning_count` agree however the lines are ordered.
pub proof fn listings_hold_the_same_diagnostics(
    m: Map<usize, Seq<Diagnostic>>,
    ks1: Seq<usize>,
    ks2: Seq<usize>,
    filter: DiagnosticFilter,
)
    requires
        enumerates(m, ks1),
        enumerates(m, ks2),
    ensures
        diagnostics_in_order(m, ks1).to_multiset() == diagnostics_in_order(m, ks2).to_multiset(),
        diagnostics_in_order(m, ks1).filter(|d: Diagnostic| passes(filter, d)).to_multiset()
            == diagnostics_in_order(m, ks2).filter(|d: Diagnostic| passes(filter, d)).to_multiset(),
        diagnostics_in_order(m, ks1).filter(|d: Diagnostic| passes(filter, d)).len()
            == diagnostics_in_order(m, ks2).filter(|d: Diagnostic| passes(filter, d)).len(),
{
    let p = |d: Diagnostic| passes(filter, d);
    let all = |d: Diagnostic| true;
    lemma_listing_filtered(m, ks1, p);
    lemma_listing_filtered(m, ks2, p);
    lemma_concat_permutation(|k: usize| m[k].filter(p), ks1, ks2);
    lemma_listing_filtered(m, ks1, all);
    lemma_listing_filtered(m, ks2, all);
    lemma_concat_permutation(|k: usize| m[k].filter(all), ks1, ks2);
    lemma_filter_all(diagnostics_in_order(m, ks1));
    lemma_filter_all(diagnostics_in_order(m, ks2));
    let f1 = diagnostics_in_order(m, ks1).filter(p);
    let f2 = diagnostics_in_order(m, ks2).filter(p);
    f1.to_multiset_ensures();
    f2.to_multiset_ensures();
}

/// Keeping every element keeps the sequence.
proof fn lemma_filter_all(s: Seq<Diagnostic>)
    ensures
        s.filter(|d: Diagnostic| true) == s,
    decreases s.len(),
{
    reveal(Seq::filter);
    if s.len() > 0 {
        lemma_filter_all(s.drop_last());
        assert(s.drop_last().push(s.last()) =~= s);
    } else {
        assert(s.filter(|d: Diagnostic| true) =~= s);
    }
}

/// Of any diagnostics, the errors and the warnings together are no more
/// than all of them (see [`DiagnosticCollection::error_count`] and
/// [`DiagnosticCollection::warning_count`]).
pub proof fn errors_and_warnings_within_all(s: Seq<Diagnostic>)
    ensures
        s.filter(|d: Diagnostic| passes(DiagnosticFilter::Errors, d)).len() + s.filter(
            |d: Diagnostic| passes(DiagnosticFilter::Warnings, d),
        ).len() <= s.len(),
    decreases s.len(),
{
    reveal(Seq::filter);
    if s.len() > 0 {
        errors_and_warnings_within_all(s.drop_last());
    }
}

/// What `first_bound_among` finds is the name of an entry among `names`
/// whose binding matches `e`.
proof fn lemma_first_bound_among_entry(
    entries: Seq<(Seq<char>, BindingModel)>,
    e: KeyEvent,
    names: Set<Seq<char>>,
)
    ensures
        first_bound_among(entries, e, names) matches Some(n) ==> names.contains(n) && exists|i: int|
            0 <= i < entries.len() && #[trigger] entries[i].0 == n && binding_matches(entries[i].1, e),
    decreases entries.len(),
{
    if entries.len() > 0 && !(binding_matches(entries[0].1, e) && names.contains(entries[0].0)) {
        lemma_first_bound_among_entry(entries.drop_first(), e, names);
        if first_bound_among(entries, e, names) is Some {
            let n = first_bound_among(entries, e, names)->0;
            let i = choose|i: int|
                0 <= i < entries.drop_first().len() && #[trigger] entries.drop_first()[i].0 == n
                    && binding_matches(entries.drop_first()[i].1, e);
            assert(entries[i + 1] == entries.drop_first()[i]);
        }
    } else if entries.len() > 0 {
        assert(entries[0].0 == entries[0].0);
    }
}

/// Whether the only command of `m` bound to the Escape key is `name` (none when `name` is none).
spec fn escape_only_for(m: Map<Seq<char>, BindingModel>, name: Option<Seq<char>>) -> bool {
    forall|n: Seq<char>| #[trigger] m.contains_key(n) && m[n].key == "esc"@ ==> name == Some(n)
}

/// Binding one more command keeps Escape bound only to `name`, when the new
/// binding is not Escape or is that of `name`.
proof fn lemma_escape_only_insert(m: Map<Seq<char>, BindingModel>, name: Option<Seq<char>>, k: Seq<char>, v: BindingModel)
    requires
        escape_only_for(m, name),
        v.key == "esc"@ ==> name == Some(k),
    ensures
        escape_only_for(m.insert(k, v), name),
{
    assert forall|n: Seq<char>| #[trigger] m.insert(k, v).contains_key(n) && m.insert(k, v)[n].key == "esc"@ implies name == Some(n) by {
        if n != k {
            assert(m.contains_key(n));
        }
    }
}

/// In [`default_normal_mode`], no command is bound to Escape but the one the statement names.
proof fn lemma_default_normal_mode_escape()
    ensures
        escape_only_for(default_normal_mode(), None),
{
    let m0 = Map::<Seq<char>, BindingModel>::empty();
    assert(escape_only_for(m0, None));
    assert("q"@ != "esc"@) by {
        reveal_strlit("q");
        reveal_strlit("esc");
        assert("q"@.len() != 3 || "q"@[0] != "esc"@[0]);
    }
    lemma_escape_only_insert(m0, None, "quit"@, plain("q"@));
    let m1 = m0.insert("quit"@, plain("q"@));
    assert("i"@ != "esc"@) by {
        reveal_strlit("i");
        reveal_strlit("esc");
        assert("i"@.len() != 3 || "i"@[0] != "esc"@[0]);
    }
    lemma_escape_only_insert(m1, None, "insert_mode"@, plain("i"@));
    let m2 = m1.insert("insert_mode"@, plain("i"@));
    assert("w"@ != "esc"@) by {
        reveal_strlit("w");
        reveal_strlit("esc");
        assert("w"@.len() != 3 || "w"@[0] != "esc"@[0]);
    }
    lemma_escape_only_insert(m2, None, "save_file"@, plain("w"@));
    let m3 = m2.insert("save_file"@, plain("w"@));
    assert("e"@ != "esc"@) by {
        reveal_strlit("e");
        reveal_strlit("esc");
        assert("e"@.len() != 3 || "e"@[0] != "esc"@[0]);
    }
    lemma_escape_only_insert(m3, None, "reload_file"@, plain("e"@));
    let m4 = m3.insert("reload_file"@, plain("e"@));
    assert("X"@ != "esc"@) by {
        reveal_strlit("X");
        reveal_strlit("esc");
        assert("X"@.len() != 3 || "X"@[0] != "esc"@[0]);
    }
    lemma_escape_only_insert(m4, None, "save_and_quit"@, plain("X"@));
    let m5 = m4.insert("save_and_quit"@, plain("X"@));
    assert("x"@ != "esc"@) by {
        reveal_strlit("x");
        reveal_strlit("esc");
        assert("x"@.len() != 3 || "x"@[0] != "esc"@[0]);
    }
    lemma_escape_only_insert(m5, None, "delete_char"@, plain("x"@));
    let m6 = m5.insert("delete_char"@, plain("x"@));
    assert("s"@ != "esc"@) by {
        reveal_strlit("s");
        reveal_strlit("esc");
        assert("s"@.len() != 3 || "s"@[0] != "esc"@[0]);
    }
    lemma_escape_only_insert(m6, None, "snake_game"@, plain("s"@));
    let m7 = m6.insert("snake_game"@, plain("s"@));
    assert("o"@ != "esc"@) by {
        reveal_strlit("o");
        reveal_strlit("esc");
        assert("o"@.len() != 3 || "o"@[0] != "esc"@[0]);
    }
    lemma_escape_only_insert(m7, None, "open_line_below"@, plain("o"@));
    let m8 = m7.insert("open_line_below"@, plain("o"@));
    assert("O"@ != "esc"@) by {
        reveal_strlit("O");
        reveal_strlit("esc");
        assert("O"@.len() != 3 || "O"@[0] != "esc"@[0]);
    }
    lemma_escape_only_insert(m8, None, "open_line_above"@, plain("O"@));
    let m9 = m8.insert("open_line_above"@, plain("O"@));
    assert("h"@ != "esc"@) by {
        reveal_strlit("h");
        reveal_strlit("esc");
        assert("h"@.len() != 3 || "h"@[0] != "esc"@[0]);
    }
    lemma_escape_only_insert(m9, None, "move_left"@, plain("h"@));
    let m10 = m9.insert("move_left"@, plain("h"@));
    assert("j"@ != "esc"@) by {
        reveal_strlit("j");
        reveal_strlit("esc");
        assert("j"@.len() != 3 || "j"@[0] != "esc"@[0]);
    }
    lemma_escape_only_insert(m10, None, "move_down"@, plain("j"@));
    let m11 = m10.insert("move_down"@, plain("j"@));
    assert("k"@ != "esc"@) by {
        reveal_strlit("k");
        reveal_strlit("esc");
        assert("k"@.len() != 3 || "k"@[0] != "esc"@[0]);
    }
    lemma_escape_only_insert(m11, None, "move_up"@, plain("k"@));
    let m12 = m11.insert("move_up"@, plain("k"@));
    assert("l"@ != "esc"@) by {
        reveal_strlit("l");
        reveal_strlit("esc");
        assert("l"@.len() != 3 || "l"@[0] != "esc"@[0]);
    }
    lemma_escape_only_insert(m12, None, "move_right"@, plain("l"@));
    let m13 = m12.insert("move_right"@, plain("l"@));
    assert("u"@ != "esc"@) by {
        reveal_strlit("u");
        reveal_strlit("esc");
        assert("u"@.len() != 3 || "u"@[0] != "esc"@[0]);
    }
    lemma_escape_only_insert(m13, None, "undo"@, plain("u"@));
    let m14 = m13.insert("undo"@, plain("u"@));
    assert("r"@ != "esc"@) by {
        reveal_strlit("r");
        reveal_strlit("esc");
        assert("r"@.len() != 3 || "r"@[0] != "esc"@[0]);
    }
    lemma_escape_only_insert(m14, None, "redo"@, with_ctrl("r"@));
    let m15 = m14.insert("redo"@, with_ctrl("r"@));
    assert("o"@ != "esc"@) by {
        reveal_strlit("o");
        reveal_strlit("esc");
        assert("o"@.len() != 3 || "o"@[0] != "esc"@[0]);
    }
    lemma_escape_only_insert(m15, None, "find_file"@, with_ctrl("o"@));
    let m16 = m15.insert("find_file"@, with_ctrl("o"@));
    assert("t"@ != "esc"@) by {
        reveal_strlit("t");
        reveal_strlit("esc");
        assert("t"@.len() != 3 || "t"@[0] != "esc"@[0]);
    }
    lemma_escape_only_insert(m16, None, "token_search"@, with_ctrl("t"@));
    let m17 = m16.insert("token_search"@, with_ctrl("t"@));
    assert("^"@ != "esc"@) by {
        reveal_strlit("^");
        reveal_strlit("esc");
        assert("^"@.len() != 3 || "^"@[0] != "esc"@[0]);
    }
    lemma_escape_only_insert(m17, None, "move_to_line_start"@, plain("^"@));
    let m18 = m17.insert("move_to_line_start"@, plain("^"@));
    assert("$"@ != "esc"@) by {
        reveal_strlit("$");
        reveal_strlit("esc");
        assert("$"@.len() != 3 || "$"@[0] != "esc"@[0]);
    }
    lemma_escape_only_insert(m18, None, "move_to_line_end"@, plain("$"@));
    let m19 = m18.insert("move_to_line_end"@, plain("$"@));
    assert("g"@ != "esc"@) by {
        reveal_strlit("g");
        reveal_strlit("esc");
        assert("g"@.len() != 3 || "g"@[0] != "esc"@[0]);
    }
    lemma_escape_only_insert(m19, None, "move_to_file_start"@, plain("g"@));
    let m20 = m19.insert("move_to_file_start"@, plain("g"@));
    assert("G"@ != "esc"@) by {
        reveal_strlit("G");
        reveal_strlit("esc");
        assert("G"@.len() != 3 || "G"@[0] != "esc"@[0]);
    }
    lemma_escape_only_insert(m20, None, "move_to_file_end"@, plain("G"@));
    let m21 = m20.insert("move_to_file_end"@, plain("G"@));
    assert("b"@ != "esc"@) by {
        reveal_strlit("b");
        reveal_strlit("esc");
        assert("b"@.len() != 3 || "b"@[0] != "esc"@[0]);
    }
    lemma_escape_only_insert(m21, None, "page_up"@, with_ctrl("b"@));
    let m22 = m21.insert("page_up"@, with_ctrl("b"@));
    assert("f"@ != "esc"@) by {
        reveal_strlit("f");
        reveal_strlit("esc");
        assert("f"@.len() != 3 || "f"@[0] != "esc"@[0]);
    }
    lemma_escape_only_insert(m22, None, "page_down"@, with_ctrl("f"@));
    let m23 = m22.insert("page_down"@, with_ctrl("f"@));
    assert("d"@ != "esc"@) by {
        reveal_strlit("d");
        reveal_strlit("esc");
        assert("d"@.len() != 3 || "d"@[0] != "esc"@[0]);
    }
    lemma_escape_only_insert(m23, None, "run_cargo_check"@, with_ctrl("d"@));
    let m24 = m23.insert("run_cargo_check"@, with_ctrl("d"@));
    assert("y"@ != "esc"@) by {
        reveal_strlit("y");
        reveal_strlit("esc");
        assert("y"@.len() != 3 || "y"@[0] != "esc"@[0]);
    }
    lemma_escape_only_insert(m24, None, "run_cargo_clippy"@, with_ctrl("y"@));
    let m25 = m24.insert("run_cargo_clippy"@, with_ctrl("y"@));
    assert("n"@ != "esc"@) by {
        reveal_strlit("n");
        reveal_strlit("esc");
        assert("n"@.len() != 3 || "n"@[0] != "esc"@[0]);
    }
    lemma_escape_only_insert(m25, None, "new_tab"@, with_ctrl("n"@));
    let m26 = m25.insert("new_tab"@, with_ctrl("n"@));
    assert("w"@ != "esc"@) by {
        reveal_strlit("w");
        reveal_strlit("esc");
        assert("w"@.len() != 3 || "w"@[0] != "esc"@[0]);
    }
    lemma_escape_only_insert(m26, None, "close_tab"@, with_ctrl("w"@));
    let m27 = m26.insert("close_tab"@, with_ctrl("w"@));
    assert("right"@ != "esc"@) by {
        reveal_strlit("right");
        reveal_strlit("esc");
        assert("right"@.len() != 3 || "right"@[0] != "esc"@[0]);
    }
    lemma_escape_only_insert(m27, None, "next_tab"@, with_ctrl("right"@));
    let m28 = m27.insert("next_tab"@, with_ctrl("right"@));
    assert("left"@ != "esc"@) by {
        reveal_strlit("left");
        reveal_strlit("esc");
        assert("left"@.len() != 3 || "left"@[0] != "esc"@[0]);
    }
    lemma_escape_only_insert(m28, None, "prev_tab"@, with_ctrl("left"@));
    let m29 = m28.insert("prev_tab"@, with_ctrl("left"@));
    assert("f1"@ != "esc"@) by {
        reveal_strlit("f1");
        reveal_strlit("esc");
        assert("f1"@.len() != 3 || "f1"@[0] != "esc"@[0]);
    }
    lemma_escape_only_insert(m29, None, "goto_tab_1"@, plain("f1"@));
    let m30 = m29.insert("goto_tab_1"@, plain("f1"@));
    assert("f2"@ != "esc"@) by {
        reveal_strlit("f2");
        reveal_strlit("esc");
        assert("f2"@.len() != 3 || "f2"@[0] != "esc"@[0]);
    }
    lemma_escape_only_insert(m30, None, "goto_tab_2"@, plain("f2"@));
    let m31 = m30.insert("goto_tab_2"@, plain("f2"@));
    assert("f3"@ != "esc"@) by {
        reveal_strlit("f3");
        reveal_strlit("esc");
        assert("f3"@.len() != 3 || "f3"@[0] != "esc"@[0]);
    }
    lemma_escape_only_insert(m31, None, "goto_tab_3"@, plain("f3"@));
    let m32 = m31.insert("goto_tab_3"@, plain("f3"@));
    assert("f4"@ != "esc"@) by {
        reveal_strlit("f4");
        reveal_strlit("esc");
        assert("f4"@.len() != 3 || "f4"@[0] != "esc"@[0]);
    }
    lemma_escape_only_insert(m32, None, "goto_tab_4"@, plain("f4"@));
    let m33 = m32.insert("goto_tab_4"@, plain("f4"@));
    assert("f5"@ != "esc"@) by {
        reveal_strlit("f5");
        reveal_strlit("esc");
        assert("f5"@.len() != 3 || "f5"@[0] != "esc"@[0]);
    }
    lemma_escape_only_insert(m33, None, "goto_tab_5"@, plain("f5"@));
    let m34 = m33.insert("goto_tab_5"@, plain("f5"@));
    assert("f6"@ != "esc"@) by {
        reveal_strlit("f6");
        reveal_strlit("esc");
        assert("f6"@.len() != 3 || "f6"@[0] != "esc"@[0]);
    }
    lemma_escape_only_insert(m34, None, "goto_tab_6"@, plain("f6"@));
    let m35 = m34.insert("goto_tab_6"@, plain("f6"@));
    assert("f7"@ != "esc"@) by {
        reveal_strlit("f7");
        reveal_strlit("esc");
        assert("f7"@.len() != 3 || "f7"@[0] != "esc"@[0]);
    }
    lemma_escape_only_insert(m35, None, "goto_tab_7"@, plain("f7"@));
    let m36 = m35.insert("goto_tab_7"@, plain("f7"@));
    assert("f8"@ != "esc"@) by {
        reveal_strlit("f8");
        reveal_strlit("esc");
        assert("f8"@.len() != 3 || "f8"@[0] != "esc"@[0]);
    }
    lemma_escape_only_insert(m36, None, "goto_tab_8"@, plain("f8"@));
    let m37 = m36.insert("goto_tab_8"@, plain("f8"@));
    assert("f9"@ != "esc"@) by {
        reveal_strlit("f9");
        reveal_strlit("esc");
        assert("f9"@.len() != 3 || "f9"@[0] != "esc"@[0]);
    }
    lemma_escape_only_insert(m37, None, "goto_tab_9"@, plain("f9"@));
    let m38 = m37.insert("goto_tab_9"@, plain("f9"@));
    assert("f10"@ != "esc"@) by {
        reveal_strlit("f10");
        reveal_strlit("esc");
        assert("f10"@.len() != 3 || "f10"@[0] != "esc"@[0]);
    }
    lemma_escape_only_insert(m38, None, "goto_tab_10"@, plain("f10"@));
    let m39 = m38.insert("goto_tab_10"@, plain("f10"@));
    assert("f11"@ != "esc"@) by {
        reveal_strlit("f11");
        reveal_strlit("esc");
        assert("f11"@.len() != 3 || "f11"@[0] != "esc"@[0]);
    }
    lemma_escape_only_insert(m39, None, "goto_tab_11"@, plain("f11"@));
    let m40 = m39.insert("goto_tab_11"@, plain("f11"@));
    assert("f12"@ != "esc"@) by {
        reveal_strlit("f12");
        reveal_strlit("esc");
        assert("f12"@.len() != 3 || "f12"@[0] != "esc"@[0]);
    }
    lemma_escape_only_insert(m40, None, "goto_tab_12"@, plain("f12"@));
    let m41 = m40.insert("goto_tab_12"@, plain("f12"@));
    assert("h"@ != "esc"@) by {
        reveal_strlit("h");
        reveal_strlit("esc");
        assert("h"@.len() != 3 || "h"@[0] != "esc"@[0]);
    }
    lemma_escape_only_insert(m41, None, "show_help"@, with_ctrl("h"@));
    let m42 = m41.insert("show_help"@, with_ctrl("h"@));
    assert(m42 == default_normal_mode());
}

/// In [`default_insert_mode`], no command is bound to Escape but the one the statement names.
proof fn lemma_default_insert_mode_escape()
    ensures
        escape_only_for(default_insert_mode(), Some("normal_mode"@)),
{
    let m0 = Map::<Seq<char>, BindingModel>::empty();
    assert(escape_only_for(m0, Some("normal_mode"@)));
    lemma_escape_only_insert(m0, Some("normal_mode"@), "normal_mode"@, plain("esc"@));
    let m1 = m0.insert("normal_mode"@, plain("esc"@));
    assert(m1 == default_insert_mode());
}

/// In [`default_command_mode`], no command is bound to Escape but the one the statement names.
proof fn lemma_default_command_mode_escape()
    ensures
        escape_only_for(default_command_mode(), Some("normal_mode"@)),
{
    let m0 = Map::<Seq<char>, BindingModel>::empty();
    assert(escape_only_for(m0, Some("normal_mode"@)));
    lemma_escape_only_insert(m0, Some("normal_mode"@), "normal_mode"@, plain("esc"@));
    let m1 = m0.insert("normal_mode"@, plain("esc"@));
    assert(m1 == default_command_mode());
}

/// In [`default_help_mode`], no command is bound to Escape but the one the statement names.
proof fn lemma_default_help_mode_escape()
    ensures
        escape_only_for(default_help_mode(), Some("normal_mode"@)),
{
    let m0 = Map::<Seq<char>, BindingModel>::empty();
    assert(escape_only_for(m0, Some("normal_mode"@)));
    lemma_escape_only_insert(m0, Some("normal_mode"@), "normal_mode"@, plain("esc"@));
    let m1 = m0.insert("normal_mode"@, plain("esc"@));
    assert(m1 == default_help_mode());
}

/// In [`default_file_finder_mode`], no command is bound to Escape but the one the statement names.
proof fn lemma_default_file_finder_mode_escape()
    ensures
        escape_only_for(default_file_finder_mode(), Some("cancel"@)),
{
    let m0 = Map::<Seq<char>, BindingModel>::empty();
    assert(escape_only_for(m0, Some("cancel"@)));
    lemma_escape_only_insert(m0, Some("cancel"@), "cancel"@, plain("esc"@));
    let m1 = m0.insert("cancel"@, plain("esc"@));
    assert("enter"@ != "esc"@) by {
        reveal_strlit("enter");
        reveal_strlit("esc");
        assert("enter"@.len() != 3 || "enter"@[0] != "esc"@[0]);
    }
    lemma_escape_only_insert(m1, Some("cancel"@), "select"@, plain("enter"@));
    let m2 = m1.insert("select"@, plain("enter"@));
    assert("down"@ != "esc"@) by {
        reveal_strlit("down");
        reveal_strlit("esc");
        assert("down"@.len() != 3 || "down"@[0] != "esc"@[0]);
    }
    lemma_escape_only_insert(m2, Some("cancel"@), "next"@, plain("down"@));
    let m3 = m2.insert("next"@, plain("down"@));
    assert("up"@ != "esc"@) by {
        reveal_strlit("up");
        reveal_strlit("esc");
        assert("up"@.len() != 3 || "up"@[0] != "esc"@[0]);
    }
    lemma_escape_only_insert(m3, Some("cancel"@), "previous"@, plain("up"@));
    let m4 = m3.insert("previous"@, plain("up"@));
    assert(m4 == default_file_finder_mode());
}

/// In [`default_token_search_mode`], no command is bound to Escape but the one the statement names.
proof fn lemma_default_token_search_mode_escape()
    ensures
        escape_only_for(default_token_search_mode(), Some("cancel"@)),
{
    let m0 = Map::<Seq<char>, BindingModel>::empty();
    assert(escape_only_for(m0, Some("cancel"@)));
    lemma_escape_only_insert(m0, Some("cancel"@), "cancel"@, plain("esc"@));
    let m1 = m0.insert("cancel"@, plain("esc"@));
    assert("enter"@ != "esc"@) by {
        reveal_strlit("enter");
        reveal_strlit("esc");
        assert("enter"@.len() != 3 || "enter"@[0] != "esc"@[0]);
    }
    lemma_escape_only_insert(m1, Some("cancel"@), "select"@, plain("enter"@));
    let m2 = m1.insert("select"@, plain("enter"@));
    assert("down"@ != "esc"@) by {
        reveal_strlit("down");
        reveal_strlit("esc");
        assert("down"@.len() != 3 || "down"@[0] != "esc"@[0]);
    }
    lemma_escape_only_insert(m2, Some("cancel"@), "next"@, plain("down"@));
    let m3 = m2.insert("next"@, plain("down"@));
    assert("up"@ != "esc"@) by {
        reveal_strlit("up");
        reveal_strlit("esc");
        assert("up"@.len() != 3 || "up"@[0] != "esc"@[0]);
    }
    lemma_escape_only_insert(m3, Some("cancel"@), "previous"@, plain("up"@));
    let m4 = m3.insert("previous"@, plain("up"@));
    assert(m4 == default_token_search_mode());
}

/// With the default key bindings, Escape is left to its own meaning in
/// every mode (see [`escape_unclaimed`]), where a snake game runs in snake mode.
pub proof fn default_bindings_leave_escape(e: Editor)
    requires
        e.config.key_bindings.wf(),
        e.config.key_bindings.normal_mode.as_map() == default_normal_mode(),
        e.config.key_bindings.insert_mode.as_map() == default_insert_mode(),
        e.config.key_bindings.command_mode.as_map() == default_command_mode(),
        e.config.key_bindings.file_finder_mode.as_map() == default_file_finder_mode(),
        e.config.key_bindings.token_search_mode.as_map() == default_token_search_mode(),
        e.config.key_bindings.help_mode.as_map() == default_help_mode(),
        e.mode == Mode::Snake ==> e.snake_game is Some,
    ensures
        escape_unclaimed(e),
{
    let k = e.config.key_bindings;
    let esc = escape();
    reveal_strlit("esc");
    k.normal_mode.lemma_first_bound_in_map(esc);
    k.insert_mode.lemma_first_bound_in_map(esc);
    k.command_mode.lemma_first_bound_in_map(esc);
    k.help_mode.lemma_first_bound_in_map(esc);
    k.file_finder_mode.lemma_first_bound_in_map(esc);
    lemma_default_normal_mode_escape();
    lemma_default_insert_mode_escape();
    lemma_default_command_mode_escape();
    lemma_default_help_mode_escape();
    lemma_default_file_finder_mode_escape();
    lemma_default_token_search_mode_escape();
    if first_bound(k.normal_mode.entries(), esc) is Some {
        let n = first_bound(k.normal_mode.entries(), esc)->0;
        assert(default_normal_mode().contains_key(n) && default_normal_mode()[n].key == "esc"@);
    }
    if first_bound(k.insert_mode.entries(), esc) is Some {
        let n = first_bound(k.insert_mode.entries(), esc)->0;
        assert(default_insert_mode().contains_key(n) && default_insert_mode()[n].key == "esc"@);
    }
    if first_bound(k.command_mode.entries(), esc) is Some {
        let n = first_bound(k.command_mode.entries(), esc)->0;
        assert(default_command_mode().contains_key(n) && default_command_mode()[n].key == "esc"@);
    }
    if first_bound(k.help_mode.entries(), esc) is Some {
        let n = first_bound(k.help_mode.entries(), esc)->0;
        assert(default_help_mode().contains_key(n) && default_help_mode()[n].key == "esc"@);
    }
    if first_bound(k.file_finder_mode.entries(), esc) is Some {
        let n = first_bound(k.file_finder_mode.entries(), esc)->0;
        assert(default_file_finder_mode().contains_key(n) && default_file_finder_mode()[n].key == "esc"@);
    }
    lemma_first_bound_among_entry(k.token_search_mode.entries(), esc, search_commands());
    if first_bound_among(k.token_search_mode.entries(), esc, search_commands()) is Some {
        let n = first_bound_among(k.token_search_mode.entries(), esc, search_commands())->0;
        let i = choose|i: int|
            0 <= i < k.token_search_mode.entries().len() && #[trigger] k.token_search_mode.entries()[i].0 == n
                && binding_matches(k.token_search_mode.entries()[i].1, esc);
        assert(k.token_search_mode.as_map().contains_key(n));
        let j = choose|j: int| 0 <= j < k.token_search_mode.entries().len() && k.token_search_mode.entries()[j].0 == n;
        assert(i == j);
        assert(default_token_search_mode().contains_key(n) && default_token_search_mode()[n].key == "esc"@);
    }
}

/// With the default key bindings, Escape returns to normal mode from every
/// mode (a snake game running in snake mode), asks for nothing outside,
/// keeps the tabs and the current tab, and changes no text.
pub proof fn escape_returns_to_normal_mode_by_default(o: Editor, n: Editor, s: Step)
    requires
        o.config.key_bindings.wf(),
        o.config.key_bindings.normal_mode.as_map() == default_normal_mode(),
        o.config.key_bindings.insert_mode.as_map() == default_insert_mode(),
        o.config.key_bindings.command_mode.as_map() == default_command_mode(),
        o.config.key_bindings.file_finder_mode.as_map() == default_file_finder_mode(),
        o.config.key_bindings.token_search_mode.as_map() == default_token_search_mode(),
        o.config.key_bindings.help_mode.as_map() == default_help_mode(),
        o.mode == Mode::Snake ==> o.snake_game is Some,
        key_effect(o, n, escape(), s),
    ensures
        n.mode == Mode::Normal,
        s is Continue,
        n.tabs@.len() == o.tabs@.len(),
        n.current_tab == o.current_tab,
        n.tab().buffer.lines == o.tab().buffer.lines,
{
    default_bindings_leave_escape(o);
    escape_returns_to_normal_mode(o, n, s);
}

/// After an action is recorded outside an undo or redo, it is the last one
/// done and can be undone.
proof fn lemma_last_recorded(h0: History, h1: History, a: EditorActionModel)
    requires
        h0.wf(),
        !h0.replaying(),
        Buffer::recorded(&h1, &h0, a),
    ensures
        h1.index() > 0,
        h1.index() == h1.actions().len(),
        h1.actions()[h1.index() - 1] == a,
{
    recorded_action_is_undone_next(h0.actions(), h0.index(), a, h0.max());
}

/// After an edit of buffer `b0` records action `a` (giving `b1`), an undo
/// (`Buffer::undo`, see [`undone`]) replays `a` backwards, and a redo after
/// it (`Buffer::redo`, see [`redone`]) replays `a` forwards again, the place
/// in the history going back and forth.
pub proof fn undo_and_redo_replay_the_last_edit(
    b0: Buffer,
    b1: Buffer,
    b2: Buffer,
    b3: Buffer,
    c1: Cursor,
    c2: Cursor,
    c3: Cursor,
    a: EditorActionModel,
)
    requires
        b0.wf(),
        !b0.history.replaying(),
        Buffer::recorded(&b1.history, &b0.history, a),
        undo_fits(a),
        redo_fits(a),
        undone(b1, c1, b2, c2),
        redone(b2, c2, b3, c3),
    ensures
        ({
            let u = undo_replay(b1.text(), b1.modified_lines@, a);
            &&& b2.text() == u.text
            &&& b2.modified_lines@ == u.modified
            &&& b2.history.index() == b1.history.index() - 1
            &&& b3.text() == redo_replay(u.text, u.modified, a).text
            &&& b3.history.index() == b1.history.index()
        }),
{
    lemma_last_recorded(b0.history, b1.history, a);
}

/// Deleting the character at the cursor, then undoing gives the text back,
/// and redoing deletes it again.
pub proof fn undo_and_redo_a_character_deletion(b0: Buffer, b1: Buffer, b2: Buffer, b3: Buffer, c: Cursor, c1: Cursor, c2: Cursor, c3: Cursor)
    requires
        b0.wf(),
        !b0.history.replaying(),
        c.y < b0.text().len(),
        c.x < b0.text()[c.y as int].len(),
        char_deleted(b0, b1, c),
        undone(b1, c1, b2, c2),
        redone(b2, c2, b3, c3),
    ensures
        b2.text() == b0.text(),
        b3.text() == b1.text(),
{
    let t = b0.text();
    let a = EditorActionModel {
        action_type: ActionModel::DeleteChar { x: c.x, y: c.y, c: t[c.y as int][c.x as int] },
        cursor_before: c,
        cursor_after: c,
    };
    undo_and_redo_replay_the_last_edit(b0, b1, b2, b3, c1, c2, c3, a);
    undo_redo_delete_char(t, b1.modified_lines@, c.x, c.y, c);
}

/// Deleting the word at the cursor, then undoing gives the text back, and
/// redoing deletes it again.
pub proof fn undo_and_redo_a_word_deletion(b0: Buffer, b1: Buffer, b2: Buffer, b3: Buffer, c: Cursor, c1: Cursor, c2: Cursor, c3: Cursor)
    requires
        b0.wf(),
        !b0.history.replaying(),
        c.y < b0.text().len(),
        c.x < b0.text()[c.y as int].len(),
        b0.text()[c.y as int].len() <= usize::MAX,
        word_deleted(b0, b1, c),
        undone(b1, c1, b2, c2),
        redone(b2, c2, b3, c3),
    ensures
        b2.text() == b0.text(),
        b3.text() == b1.text(),
{
    let t = b0.text();
    let l = t[c.y as int];
    let e = word_end(l, c.x as int);
    let a = EditorActionModel {
        action_type: ActionModel::DeleteWord { position: (c.y, c.x), deleted_text: l.subrange(c.x as int, e) },
        cursor_before: c,
        cursor_after: c,
    };
    undo_and_redo_replay_the_last_edit(b0, b1, b2, b3, c1, c2, c3, a);
    undo_redo_delete_word(t, b1.modified_lines@, c.x, c.y, c);
}

/// Deleting to the end of the line, then undoing gives the text back, and
/// redoing deletes again.
pub proof fn undo_and_redo_a_deletion_to_the_end(b0: Buffer, b1: Buffer, b2: Buffer, b3: Buffer, c: Cursor, c1: Cursor, c2: Cursor, c3: Cursor)
    requires
        b0.wf(),
        !b0.history.replaying(),
        c.y < b0.text().len(),
        c.x < b0.text()[c.y as int].len(),
        end_deleted(b0, b1, c),
        undone(b1, c1, b2, c2),
        redone(b2, c2, b3, c3),
    ensures
        b2.text() == b0.text(),
        b3.text() == b1.text(),
{
    let t = b0.text();
    let l = t[c.y as int];
    let a = EditorActionModel {
        action_type: ActionModel::DeleteToEndOfLine { position: (c.y, c.x), deleted_text: l.subrange(c.x as int, l.len() as int) },
        cursor_before: c,
        cursor_after: c,
    };
    undo_and_redo_replay_the_last_edit(b0, b1, b2, b3, c1, c2, c3, a);
    undo_redo_delete_to_end(t, b1.modified_lines@, c.x, c.y, c);
}

/// Deleting to the start of the line, then undoing gives the text back, and
/// redoing deletes again.
pub proof fn undo_and_redo_a_deletion_to_the_start(b0: Buffer, b1: Buffer, b2: Buffer, b3: Buffer, c: Cursor, c1: Cursor, c2: Cursor, c3: Cursor)
    requires
        b0.wf(),
        !b0.history.replaying(),
        c.y < b0.text().len(),
        0 < c.x <= b0.text()[c.y as int].len(),
        start_deleted(b0, b1, c),
        undone(b1, c1, b2, c2),
        redone(b2, c2, b3, c3),
    ensures
        b2.text() == b0.text(),
        b3.text() == b1.text(),
{
    let t = b0.text();
    let l = t[c.y as int];
    let a = EditorActionModel {
        action_type: ActionModel::DeleteToStartOfLine { position: (c.y, c.x), deleted_text: l.subrange(0, c.x as int) },
        cursor_before: c,
        cursor_after: Cursor { x: 0, y: c.y },
    };
    undo_and_redo_replay_the_last_edit(b0, b1, b2, b3, c1, c2, c3, a);
    undo_redo_delete_to_start(t, b1.modified_lines@, c.x, c.y, c, Cursor { x: 0, y: c.y });
}

/// Deleting a line of a text of more than one line, then undoing gives the
/// text back, and redoing deletes the line again.
pub proof fn undo_and_redo_a_line_deletion(b0: Buffer, b1: Buffer, b2: Buffer, b3: Buffer, y: usize, c1: Cursor, c2: Cursor, c3: Cursor)
    requires
        b0.wf(),
        !b0.history.replaying(),
        y < b0.text().len(),
        b0.text().len() > 1,
        line_deleted(b0, b1, y),
        undone(b1, c1, b2, c2),
        redone(b2, c2, b3, c3),
    ensures
        b2.text() == b0.text(),
        b3.text() == b1.text(),
{
    let t = b0.text();
    let after = if y + 1 < t.len() {
        Cursor { x: 0, y }
    } else if y > 0 {
        Cursor { x: t[y - 1].len() as usize, y: (y - 1) as usize }
    } else {
        Cursor { x: 0, y: 0 }
    };
    let a = EditorActionModel {
        action_type: ActionModel::DeleteLine { y, content: t[y as int] },
        cursor_before: Cursor { x: 0, y },
        cursor_after: after,
    };
    undo_and_redo_replay_the_last_edit(b0, b1, b2, b3, c1, c2, c3, a);
    undo_redo_delete_line(t, b1.modified_lines@, y, Cursor { x: 0, y }, after);
}

/// Typing a character within a line, then undoing gives the text back, and
/// redoing types it again.
pub proof fn undo_and_redo_typing(b0: Buffer, b1: Buffer, b2: Buffer, b3: Buffer, c: Cursor, ch: char, c1: Cursor, c2: Cursor, c3: Cursor)
    requires
        b0.wf(),
        !b0.history.replaying(),
        c.y < b0.text().len(),
        c.x <= b0.text()[c.y as int].len(),
        c.x < usize::MAX,
        b1.text() == b0.text().update(c.y as int, insert_padded(b0.text()[c.y as int], c.x as int, ch)),
        Buffer::recorded(
            &b1.history,
            &b0.history,
            EditorActionModel {
                action_type: ActionModel::InsertChar { x: c.x, y: c.y, c: ch },
                cursor_before: c,
                cursor_after: Cursor { x: (c.x + 1) as usize, y: c.y },
            },
        ),
        undone(b1, c1, b2, c2),
        redone(b2, c2, b3, c3),
    ensures
        b2.text() == b0.text(),
        b3.text() == b1.text(),
{
    let a = EditorActionModel {
        action_type: ActionModel::InsertChar { x: c.x, y: c.y, c: ch },
        cursor_before: c,
        cursor_after: Cursor { x: (c.x + 1) as usize, y: c.y },
    };
    undo_and_redo_replay_the_last_edit(b0, b1, b2, b3, c1, c2, c3, a);
    undo_redo_insert_char(b0.text(), b1.modified_lines@, c.x, c.y, ch, c, Cursor { x: (c.x + 1) as usize, y: c.y });
}

/// Opening an empty line below an existing line, then undoing gives the
/// text back, and redoing opens it again.
pub proof fn undo_and_redo_opening_below(b0: Buffer, b1: Buffer, b2: Buffer, b3: Buffer, y: usize, c1: Cursor, c2: Cursor, c3: Cursor)
    requires
        b0.wf(),
        !b0.history.replaying(),
        y < b0.text().len(),
        y < usize::MAX,
        b1.text() == b0.text().insert(y + 1, Seq::<char>::empty()),
        Buffer::recorded(
            &b1.history,
            &b0.history,
            EditorActionModel {
                action_type: ActionModel::OpenLineBelow { y },
                cursor_before: Cursor { x: 0, y },
                cursor_after: Cursor { x: 0, y: (y + 1) as usize },
            },
        ),
        undone(b1, c1, b2, c2),
        redone(b2, c2, b3, c3),
    ensures
        b2.text() == b0.text(),
        b3.text() == b1.text(),
{
    let a = EditorActionModel {
        action_type: ActionModel::OpenLineBelow { y },
        cursor_before: Cursor { x: 0, y },
        cursor_after: Cursor { x: 0, y: (y + 1) as usize },
    };
    undo_and_redo_replay_the_last_edit(b0, b1, b2, b3, c1, c2, c3, a);
    undo_redo_open_line_below(b0.text(), b1.modified_lines@, y, Cursor { x: 0, y }, Cursor { x: 0, y: (y + 1) as usize });
}

/// Opening an empty line above line `y`, then undoing gives the text back,
/// and redoing opens it again.
pub proof fn undo_and_redo_opening_above(b0: Buffer, b1: Buffer, b2: Buffer, b3: Buffer, y: usize, c1: Cursor, c2: Cursor, c3: Cursor)
    requires
        b0.wf(),
        !b0.history.replaying(),
        y <= b0.text().len(),
        b1.text() == b0.text().insert(y as int, Seq::<char>::empty()),
        Buffer::recorded(
            &b1.history,
            &b0.history,
            EditorActionModel {
                action_type: ActionModel::OpenLineAbove { y },
                cursor_before: Cursor { x: 0, y },
                cursor_after: Cursor { x: 0, y },
            },
        ),
        undone(b1, c1, b2, c2),
        redone(b2, c2, b3, c3),
    ensures
        b2.text() == b0.text(),
        b3.text() == b1.text(),
{
    let a = EditorActionModel {
        action_type: ActionModel::OpenLineAbove { y },
        cursor_before: Cursor { x: 0, y },
        cursor_after: Cursor { x: 0, y },
    };
    undo_and_redo_replay_the_last_edit(b0, b1, b2, b3, c1, c2, c3, a);
    undo_redo_open_line_above(b0.text(), b1.modified_lines@, y, Cursor { x: 0, y }, Cursor { x: 0, y });
}

/// Joining a line with the next, then undoing gives the text back, and
/// redoing joins them again.
pub proof fn undo_and_redo_joining(b0: Buffer, b1: Buffer, b2: Buffer, b3: Buffer, y: usize, c1: Cursor, c2: Cursor, c3: Cursor)
    requires
        b0.wf(),
        !b0.history.replaying(),
        y + 1 < b0.text().len(),
        b0.text()[y as int].len() <= usize::MAX,
        b1.text() == b0.text().update(y as int, b0.text()[y as int] + b0.text()[y + 1]).remove(y + 1),
        Buffer::recorded(
            &b1.history,
            &b0.history,
            EditorActionModel {
                action_type: ActionModel::JoinLines { y, column_pos: b0.text()[y as int].len() as usize },
                cursor_before: Cursor { x: b0.text()[y as int].len() as usize, y },
                cursor_after: Cursor { x: b0.text()[y as int].len() as usize, y },
            },
        ),
        undone(b1, c1, b2, c2),
        redone(b2, c2, b3, c3),
    ensures
        b2.text() == b0.text(),
        b3.text() == b1.text(),
{
    let cur = Cursor { x: b0.text()[y as int].len() as usize, y };
    let a = EditorActionModel {
        action_type: ActionModel::JoinLines { y, column_pos: b0.text()[y as int].len() as usize },
        cursor_before: cur,
        cursor_after: cur,
    };
    undo_and_redo_replay_the_last_edit(b0, b1, b2, b3, c1, c2, c3, a);
    undo_redo_join_lines(b0.text(), b1.modified_lines@, y, cur);
}

/// Replacing the whole content, then undoing gives the previous lines back,
/// and redoing puts the new content back.
pub proof fn undo_and_redo_setting_the_content(b0: Buffer, b1: Buffer, b2: Buffer, b3: Buffer, content: Seq<char>, c1: Cursor, c2: Cursor, c3: Cursor)
    requires
        b0.wf(),
        !b0.history.replaying(),
        b1.text() == split_newlines(content),
        Buffer::recorded(
            &b1.history,
            &b0.history,
            EditorActionModel {
                action_type: ActionModel::SetContent { old_lines: b0.text(), new_lines: split_newlines(content) },
                cursor_before: Cursor { x: 0, y: 0 },
                cursor_after: Cursor { x: 0, y: 0 },
            },
        ),
        undone(b1, c1, b2, c2),
        redone(b2, c2, b3, c3),
    ensures
        b2.text() == b0.text(),
        b3.text() == b1.text(),
{
    let cur = Cursor { x: 0, y: 0 };
    let a = EditorActionModel {
        action_type: ActionModel::SetContent { old_lines: b0.text(), new_lines: split_newlines(content) },
        cursor_before: cur,
        cursor_after: cur,
    };
    undo_and_redo_replay_the_last_edit(b0, b1, b2, b3, c1, c2, c3, a);
    undo_redo_set_content(b0.text(), b1.modified_lines@, content, cur);
}

/// Splitting a line at column `x` (within it), then undoing gives the text
/// back, and redoing splits it again.
pub proof fn undo_and_redo_a_line_split(b0: Buffer, b1: Buffer, b2: Buffer, b3: Buffer, c: Cursor, c1: Cursor, c2: Cursor, c3: Cursor)
    requires
        b0.wf(),
        !b0.history.replaying(),
        c.y < b0.text().len(),
        c.y < usize::MAX,
        c.x <= b0.text()[c.y as int].len(),
        ({
            let t = b0.text();
            let l = t[c.y as int];
            let head = if c.x < l.len() { l.subrange(0, c.x as int) } else { l };
            let tail = if c.x < l.len() { l.subrange(c.x as int, l.len() as int) } else { Seq::<char>::empty() };
            &&& b1.text() == t.update(c.y as int, head).insert(c.y + 1, tail)
            &&& Buffer::recorded(
                &b1.history,
                &b0.history,
                EditorActionModel {
                    action_type: ActionModel::InsertNewline { x: c.x, y: c.y, remaining_text: tail },
                    cursor_before: c,
                    cursor_after: Cursor { x: 0, y: (c.y + 1) as usize },
                },
            )
        }),
        undone(b1, c1, b2, c2),
        redone(b2, c2, b3, c3),
    ensures
        b2.text() == b0.text(),
        b3.text() == b1.text(),
{
    let t = b0.text();
    let l = t[c.y as int];
    let tail = if c.x < l.len() { l.subrange(c.x as int, l.len() as int) } else { Seq::<char>::empty() };
    let a = EditorActionModel {
        action_type: ActionModel::InsertNewline { x: c.x, y: c.y, remaining_text: tail },
        cursor_before: c,
        cursor_after: Cursor { x: 0, y: (c.y + 1) as usize },
    };
    undo_and_redo_replay_the_last_edit(b0, b1, b2, b3, c1, c2, c3, a);
    undo_redo_insert_newline(t, b1.modified_lines@, c.x, c.y, c);
}

/// Deleting a selection within one line (see [`undo_redo_delete_selection`]
/// for the lines it holds for), then undoing gives the text back, and
/// redoing, where the selection ends within the line, deletes it again.
pub proof fn undo_and_redo_a_selection_deletion(
    b0: Buffer,
    b1: Buffer,
    b2: Buffer,
    b3: Buffer,
    c: Cursor,
    nc: Cursor,
    c2: Cursor,
    c3: Cursor,
    r: bool,
)
    requires
        b0.wf(),
        !b0.history.replaying(),
        b0.selection_start is Some,
        ({
            let (fl, fc, ll, lc) = ordered(b0.selection_start->0, (c.y, c.x));
            let t = b0.text();
            &&& fl == ll
            &&& fl < t.len()
            &&& fl < usize::MAX
            &&& fc < lc
            &&& fc < t[fl as int].len()
            &&& t[fl as int].len() <= usize::MAX
            &&& forall|j: int| 0 <= j < t[fl as int].len() ==> t[fl as int][j] != '\n'
            &&& lc >= t[fl as int].len() && fl < t.len() - 1 ==> t[fl as int].last() != '\r'
        }),
        selection_deleted(b0, b1, c, nc, false, r),
        undone(b1, nc, b2, c2),
        redone(b2, c2, b3, c3),
    ensures
        b2.text() == b0.text(),
        ({
            let (fl, fc, ll, lc) = ordered(b0.selection_start->0, (c.y, c.x));
            lc <= b0.text()[fl as int].len() ==> b3.text() == b1.text()
        }),
{
    let start = b0.selection_start->0;
    let t = b0.text();
    let (fl, fc, ll, lc) = ordered(start, (c.y, c.x));
    let l = t[fl as int];
    let e = min_int(lc as int, l.len() as int);
    let a = EditorActionModel {
        action_type: ActionModel::ReplaceSelection {
            old_text: selected_text(t, start, c, false),
            new_text: Seq::<char>::empty(),
            selection_start: (fl, fc),
            selection_end: (ll, lc),
        },
        cursor_before: c,
        cursor_after: nc,
    };
    let sub = l.subrange(fc as int, e);
    let newline = e >= l.len() && fl < t.len() - 1;
    assert(selected_text(t, start, c, false) == if newline { sub + seq!['\n'] } else { sub });
    assert forall|j: int| 0 <= j < sub.len() implies sub[j] != '\n' by {
        assert(sub[j] == l[fc + j]);
    }
    if newline {
        assert(sub.last() == l.last());
    }
    lemma_std_lines_single(sub, newline);
    assert(inserted_lines(Seq::<char>::empty()) =~= seq![Seq::<char>::empty()]);
    undo_and_redo_replay_the_last_edit(b0, b1, b2, b3, nc, c2, c3, a);
    undo_redo_delete_selection(t, b1.modified_lines@, start, c, nc);
}

/// Scanning for the end of a run from `k` on stops at the first character
/// that does not continue it, and every character before that continues it.
proof fn lemma_run_end(l: Seq<char>, first: char, k: int)
    requires
        0 <= k <= l.len(),
    ensures
        k <= run_end(l, first, k) <= l.len(),
        forall|j: int| k <= j < run_end(l, first, k) ==> same_run(first, #[trigger] l[j]),
        run_end(l, first, k) < l.len() ==> !same_run(first, l[run_end(l, first, k)]),
    decreases l.len() - k,
{
    if k < l.len() && same_run(first, l[k]) {
        lemma_run_end(l, first, k + 1);
    }
}

/// Deleting the word at the cursor (`Buffer::delete_word_at_cursor`, see
/// [`word_deleted`]) removes exactly the run of characters of the cursor's
/// kind that starts at the cursor: on whitespace, the whitespace that
/// follows; on a letter, digit or `_`, the letters, digits and `_` that
/// follow; on another symbol, the symbols that follow. The character after
/// the deleted part, if any, is of another kind.
pub proof fn deleting_a_word_removes_one_run(b0: Buffer, b1: Buffer, c: Cursor)
    requires
        c.y < b0.text().len(),
        c.x < b0.text()[c.y as int].len(),
        word_deleted(b0, b1, c),
    ensures
        ({
            let l = b0.text()[c.y as int];
            let x = c.x as int;
            let ws = |ch: char| spec_is_whitespace(ch);
            let word = |ch: char| spec_is_alphanumeric(ch) || ch == '_';
            exists|e: int|
                #![trigger l.subrange(x, e)]
                {
                    &&& x < e <= l.len()
                    &&& b1.text() == b0.text().update(c.y as int, l.subrange(0, x) + l.subrange(e, l.len() as int))
                    &&& ws(l[x]) ==> (forall|k: int| x <= k < e ==> ws(#[trigger] l[k])) && (e < l.len() ==> !ws(l[e]))
                    &&& !ws(l[x]) && word(l[x]) ==> (forall|k: int| x <= k < e ==> word(#[trigger] l[k])) && (e
                        < l.len() ==> !word(l[e]))
                    &&& !ws(l[x]) && !word(l[x]) ==> (forall|k: int| x <= k < e ==> !ws(#[trigger] l[k]) && !word(l[k]))
                        && (e < l.len() ==> ws(l[e]) || word(l[e]))
                }
        }),
{
    let l = b0.text()[c.y as int];
    let x = c.x as int;
    lemma_run_end(l, l[x], x);
    let e = word_end(l, x);
    assert(l.subrange(x, e) == l.subrange(x, e));
}

/// Lexicographic order on (line, column) positions.
pub open spec fn position_before(a: (usize, usize), b: (usize, usize)) -> bool {
    a.0 < b.0 || (a.0 == b.0 && a.1 < b.1)
}

/// In a character-wise selection, a position is selected exactly when it
/// lies at or after the earlier of the selection's two ends and before the
/// later one, in document order; in a line-wise selection, exactly when its
/// line lies between the two ends' lines. Without a selection nothing is
/// (see `Buffer::is_position_selected`).
pub proof fn selected_positions_lie_between_the_ends(
    sel: Option<(usize, usize)>,
    line: usize,
    column: usize,
    cursor: Cursor,
    visual_line: bool,
)
    ensures
        sel is None ==> !position_selected(sel, line, column, cursor, visual_line),
        sel matches Some(start) ==> {
            let a = start;
            let b = (cursor.y, cursor.x);
            let p = (line, column);
            &&& !visual_line ==> (position_selected(sel, line, column, cursor, visual_line) <==> (!position_before(p, a)
                && position_before(p, b)) || (!position_before(p, b) && position_before(p, a)))
            &&& visual_line ==> (position_selected(sel, line, column, cursor, visual_line) <==> (a.0 <= line <= b.0 || b.0
                <= line <= a.0))
        },
{
}

/// Lines that end the context of a diagnostic: another header, or a location.
pub open spec fn ends_context(l: Seq<char>) -> bool {
    "error"@.is_prefix_of(l) || "warning"@.is_prefix_of(l) || contains_text(l, "--> "@)
}

/// Reading context keeps what it already gathered.
proof fn lemma_context_keeps(
    lines: Seq<Seq<char>>,
    i: int,
    j: int,
    related: Option<Seq<char>>,
    infos: Seq<Seq<char>>,
    code: Option<Seq<char>>,
    x: Seq<char>,
)
    requires
        infos.contains(x),
    ensures
        context_from(lines, i, j, related, infos, code).1.contains(x),
    decreases i + 15 - j,
{
    if !(j >= i + 15 || j >= lines.len() || j < 0) {
        let l = trim_start(lines[j]);
        if l.len() == 0 && related is None {
            lemma_context_keeps(lines, i, j + 1, related, infos, code, x);
        } else if "error"@.is_prefix_of(l) || "warning"@.is_prefix_of(l) || contains_text(l, "--> "@) {
        } else if related is None && l.contains('|') && j + 1 < lines.len() {
            lemma_context_keeps(lines, i, j + 1, Some(l), infos, code, x);
        } else if "="@.is_prefix_of(l) || contains_text(l, "help:"@) || contains_text(l, "note:"@) {
            assert(infos.push(l).contains(x)) by {
                let k = choose|k: int| 0 <= k < infos.len() && infos[k] == x;
                assert(infos.push(l)[k] == x);
            }
            lemma_context_keeps(lines, i, j + 1, related, infos.push(l), code, x);
        } else if contains_text(l, "rustc --explain"@) && code is Some {
            let n = infos.push(explain_note(code.unwrap()));
            assert(n.contains(x)) by {
                let k = choose|k: int| 0 <= k < infos.len() && infos[k] == x;
                assert(n[k] == x);
            }
            lemma_context_keeps(lines, i, j + 1, related, n, code, x);
        } else {
            lemma_context_keeps(lines, i, j + 1, related, infos, code, x);
        }
    }
}

/// Lines of context that are kept as additional information: those that
/// start with `=` or hold `help:` or `note:`.
pub open spec fn kept_as_information(l: Seq<char>) -> bool {
    "="@.is_prefix_of(l) || contains_text(l, "help:"@) || contains_text(l, "note:"@)
}

/// A line kept as information (without `|`) read before the context ends is kept.
proof fn lemma_context_keeps_help(
    lines: Seq<Seq<char>>,
    i: int,
    j: int,
    k: int,
    related: Option<Seq<char>>,
    infos: Seq<Seq<char>>,
    code: Option<Seq<char>>,
)
    requires
        0 <= j <= k < i + 15,
        k < lines.len(),
        forall|m: int| j <= m <= k ==> !ends_context(#[trigger] trim_start(lines[m])),
        kept_as_information(trim_start(lines[k])),
        !trim_start(lines[k]).contains('|'),
    ensures
        context_from(lines, i, j, related, infos, code).1.contains(trim_start(lines[k])),
    decreases k - j,
{
    let l = trim_start(lines[j]);
    assert(!ends_context(trim_start(lines[j])));
    if j == k {
        if l.len() == 0 {
            reveal_strlit("help:");
            reveal_strlit("note:");
            reveal_strlit("=");
            lemma_find_from(l, "help:"@, 0);
            lemma_find_from(l, "note:"@, 0);
        }
        assert(infos.push(l)[infos.len() as int] == l);
        lemma_context_keeps(lines, i, j + 1, related, infos.push(l), code, l);
    } else {
        if l.len() == 0 && related is None {
            lemma_context_keeps_help(lines, i, j + 1, k, related, infos, code);
        } else if related is None && l.contains('|') && j + 1 < lines.len() {
            lemma_context_keeps_help(lines, i, j + 1, k, Some(l), infos, code);
        } else if "="@.is_prefix_of(l) || contains_text(l, "help:"@) || contains_text(l, "note:"@) {
            lemma_context_keeps_help(lines, i, j + 1, k, related, infos.push(l), code);
        } else if contains_text(l, "rustc --explain"@) && code is Some {
            lemma_context_keeps_help(lines, i, j + 1, k, related, infos.push(explain_note(code.unwrap())), code);
        } else {
            lemma_context_keeps_help(lines, i, j + 1, k, related, infos, code);
        }
    }
}

/// Every line of a diagnostic's context that starts with `=` or holds `help:`
/// or `note:` (and holds no `|`) is kept, without its leading whitespace, in
/// the diagnostic's additional information: the context being the lines after
/// the location line, at most thirteen of them, up to the next header or
/// location line.
pub proof fn information_lines_are_kept(
    lines: Seq<Seq<char>>,
    i: int,
    k: int,
    current: Seq<char>,
    current_name: Seq<char>,
    same: Seq<(Seq<char>, bool)>,
)
    requires
        0 <= i,
        i + 2 <= k < i + 15,
        k < lines.len(),
        diagnostic_at(lines, i, current, current_name, same) is Some,
        forall|m: int| i + 2 <= m <= k ==> !ends_context(#[trigger] trim_start(lines[m])),
        kept_as_information(trim_start(lines[k])),
        !trim_start(lines[k]).contains('|'),
    ensures
        diagnostic_at(lines, i, current, current_name, same).unwrap().additional_info.contains(trim_start(lines[k])),
{
    let h = header_of(trim(lines[i])).unwrap();
    lemma_context_keeps_help(lines, i, i + 2, k, None, Seq::empty(), h.code);
}

/// Once the code line is found, reading on never changes it.
proof fn lemma_context_related_stays(
    lines: Seq<Seq<char>>,
    i: int,
    j: int,
    r: Seq<char>,
    infos: Seq<Seq<char>>,
    code: Option<Seq<char>>,
)
    ensures
        context_from(lines, i, j, Some(r), infos, code).0 == Some(r),
    decreases i + 15 - j,
{
    if !(j >= i + 15 || j >= lines.len() || j < 0) {
        let l = trim_start(lines[j]);
        if "error"@.is_prefix_of(l) || "warning"@.is_prefix_of(l) || contains_text(l, "--> "@) {
        } else if kept_as_information(l) {
            lemma_context_related_stays(lines, i, j + 1, r, infos.push(l), code);
        } else if contains_text(l, "rustc --explain"@) && code is Some {
            lemma_context_related_stays(lines, i, j + 1, r, infos.push(explain_note(code.unwrap())), code);
        } else {
            lemma_context_related_stays(lines, i, j + 1, r, infos, code);
        }
    }
}

/// Reading from `j` with no code line yet, the first line with `|` before the
/// context ends becomes the code line.
proof fn lemma_context_related(
    lines: Seq<Seq<char>>,
    i: int,
    j: int,
    k: int,
    infos: Seq<Seq<char>>,
    code: Option<Seq<char>>,
)
    requires
        0 <= j <= k < i + 15,
        k + 1 < lines.len(),
        forall|m: int| j <= m <= k ==> !ends_context(#[trigger] trim_start(lines[m])),
        forall|m: int| j <= m < k ==> !(#[trigger] trim_start(lines[m])).contains('|'),
        trim_start(lines[k]).contains('|'),
    ensures
        context_from(lines, i, j, None, infos, code).0 == Some(trim_start(lines[k])),
    decreases k - j,
{
    let l = trim_start(lines[j]);
    assert(!ends_context(trim_start(lines[j])));
    if j == k {
        lemma_context_related_stays(lines, i, j + 1, l, infos, code);
    } else {
        assert(!l.contains('|'));
        if l.len() == 0 {
            lemma_context_related(lines, i, j + 1, k, infos, code);
        } else if kept_as_information(l) {
            lemma_context_related(lines, i, j + 1, k, infos.push(l), code);
        } else if contains_text(l, "rustc --explain"@) && code is Some {
            lemma_context_related(lines, i, j + 1, k, infos.push(explain_note(code.unwrap())), code);
        } else {
            lemma_context_related(lines, i, j + 1, k, infos, code);
        }
    }
}

/// The code line of a diagnostic is the first line of its context that holds
/// a `|` (and is not the last line of the output), without its leading
/// whitespace.
pub proof fn first_code_line_is_related_info(
    lines: Seq<Seq<char>>,
    i: int,
    k: int,
    current: Seq<char>,
    current_name: Seq<char>,
    same: Seq<(Seq<char>, bool)>,
)
    requires
        0 <= i,
        i + 2 <= k < i + 15,
        k + 1 < lines.len(),
        diagnostic_at(lines, i, current, current_name, same) is Some,
        forall|m: int| i + 2 <= m <= k ==> !ends_context(#[trigger] trim_start(lines[m])),
        forall|m: int| i + 2 <= m < k ==> !(#[trigger] trim_start(lines[m])).contains('|'),
        trim_start(lines[k]).contains('|'),
    ensures
        diagnostic_at(lines, i, current, current_name, same).unwrap().related_info == Some(trim_start(lines[k])),
{
    let h = header_of(trim(lines[i])).unwrap();
    lemma_context_related(lines, i, i + 2, k, Seq::empty(), h.code);
}

/// A `rustc --explain` line read before the context ends adds the note on the error code.
proof fn lemma_context_keeps_explain(
    lines: Seq<Seq<char>>,
    i: int,
    j: int,
    k: int,
    related: Option<Seq<char>>,
    infos: Seq<Seq<char>>,
    code: Seq<char>,
)
    requires
        0 <= j <= k < i + 15,
        k < lines.len(),
        forall|m: int| j <= m <= k ==> !ends_context(#[trigger] trim_start(lines[m])),
        contains_text(trim_start(lines[k]), "rustc --explain"@),
        !kept_as_information(trim_start(lines[k])),
        !trim_start(lines[k]).contains('|'),
    ensures
        context_from(lines, i, j, related, infos, Some(code)).1.contains(explain_note(code)),
    decreases k - j,
{
    let l = trim_start(lines[j]);
    assert(!ends_context(trim_start(lines[j])));
    if j == k {
        if l.len() == 0 {
            reveal_strlit("rustc --explain");
            lemma_find_from(l, "rustc --explain"@, 0);
        }
        let n = infos.push(explain_note(code));
        assert(n[infos.len() as int] == explain_note(code));
        lemma_context_keeps(lines, i, j + 1, related, n, Some(code), explain_note(code));
    } else {
        if l.len() == 0 && related is None {
            lemma_context_keeps_explain(lines, i, j + 1, k, related, infos, code);
        } else if related is None && l.contains('|') && j + 1 < lines.len() {
            lemma_context_keeps_explain(lines, i, j + 1, k, Some(l), infos, code);
        } else if kept_as_information(l) {
            lemma_context_keeps_explain(lines, i, j + 1, k, related, infos.push(l), code);
        } else if contains_text(l, "rustc --explain"@) {
            lemma_context_keeps_explain(lines, i, j + 1, k, related, infos.push(explain_note(code)), code);
        } else {
            lemma_context_keeps_explain(lines, i, j + 1, k, related, infos, code);
        }
    }
}

/// A `rustc --explain` line of the context of a diagnostic whose header names
/// an error code adds, to its additional information, the note that names
/// that code.
pub proof fn explain_lines_add_the_code_note(
    lines: Seq<Seq<char>>,
    i: int,
    k: int,
    current: Seq<char>,
    current_name: Seq<char>,
    same: Seq<(Seq<char>, bool)>,
)
    requires
        0 <= i,
        i + 2 <= k < i + 15,
        k < lines.len(),
        diagnostic_at(lines, i, current, current_name, same) is Some,
        header_of(trim(lines[i])).unwrap().code is Some,
        forall|m: int| i + 2 <= m <= k ==> !ends_context(#[trigger] trim_start(lines[m])),
        contains_text(trim_start(lines[k]), "rustc --explain"@),
        !kept_as_information(trim_start(lines[k])),
        !trim_start(lines[k]).contains('|'),
    ensures
        diagnostic_at(lines, i, current, current_name, same).unwrap().additional_info.contains(
            explain_note(header_of(trim(lines[i])).unwrap().code.unwrap()),
        ),
{
    let h = header_of(trim(lines[i])).unwrap();
    lemma_context_keeps_explain(lines, i, i + 2, k, None, Seq::empty(), h.code.unwrap());
}

/// Lines `[a, b)`, each followed by a newline, are those lines joined by
/// newlines and then a newline.
proof fn lemma_block_is_joined(t: Text, a: int, b: int)
    requires
        0 <= a < b <= t.len(),
    ensures
        lines_block(t, a, b) == join_lines(t.subrange(a, b)) + seq!['\n'],
    decreases b - a,
{
    if b == a + 1 {
        assert(lines_block(t, a, a) == Seq::<char>::empty());
        assert(t.subrange(a, b).len() == 1);
        assert(lines_block(t, a, b) =~= join_lines(t.subrange(a, b)) + seq!['\n']);
    } else {
        lemma_block_is_joined(t, a, b - 1);
        assert(t.subrange(a, b).drop_last() =~= t.subrange(a, b - 1));
        assert(lines_block(t, a, b) =~= join_lines(t.subrange(a, b)) + seq!['\n']);
    }
}

/// Joining lines `[a, b)` puts the first, a newline, and the others joined.
proof fn lemma_join_front(t: Text, a: int, b: int)
    requires
        0 <= a,
        a + 1 < b <= t.len(),
    ensures
        join_lines(t.subrange(a, b)) == t[a] + seq!['\n'] + join_lines(t.subrange(a + 1, b)),
    decreases b - a,
{
    assert(t.subrange(a, b).drop_last() =~= t.subrange(a, b - 1));
    if b == a + 2 {
        assert(t.subrange(a, b - 1).len() == 1);
        assert(join_lines(t.subrange(a, b - 1)) == t[a]);
        assert(t.subrange(a + 1, b).len() == 1);
        assert(join_lines(t.subrange(a + 1, b)) == t[a + 1]);
        assert(join_lines(t.subrange(a, b)) =~= t[a] + seq!['\n'] + join_lines(t.subrange(a + 1, b)));
    } else {
        lemma_join_front(t, a, b - 1);
        assert(t.subrange(a + 1, b).drop_last() =~= t.subrange(a + 1, b - 1));
        assert(join_lines(t.subrange(a, b)) =~= t[a] + seq!['\n'] + join_lines(t.subrange(a + 1, b)));
    }
}

/// Copying a character-wise selection takes exactly the text between its two
/// ends: put back between what precedes the first end on its line and what
/// follows the last end on its line, it gives the lines that the selection
/// spans, joined by newlines. Left out is a selection that ends at the end
/// of a line that another line follows, whose copy also takes that newline.
pub proof fn copied_text_lies_between_the_ends(t: Text, start: (usize, usize), cursor: Cursor)
    requires
        ({
            let (fl, fc, ll, lc) = ordered(start, (cursor.y, cursor.x));
            &&& ll < t.len()
            &&& fc <= t[fl as int].len()
            &&& lc <= t[ll as int].len()
            &&& lc < t[ll as int].len() || ll == t.len() - 1
        }),
    ensures
        ({
            let (fl, fc, ll, lc) = ordered(start, (cursor.y, cursor.x));
            t[fl as int].subrange(0, fc as int) + selected_text(t, start, cursor, false) + t[ll as int].subrange(
                lc as int,
                t[ll as int].len() as int,
            ) == join_lines(t.subrange(fl as int, ll + 1))
        }),
{
    let (fl, fc, ll, lc) = ordered(start, (cursor.y, cursor.x));
    let lf = t[fl as int];
    let lt = t[ll as int];
    let sel = selected_text(t, start, cursor, false);
    if fl == ll {
        assert(t.subrange(fl as int, ll + 1).len() == 1);
        if fc < lf.len() {
            assert(sel == lf.subrange(fc as int, lc as int));
        } else {
            assert(sel == Seq::<char>::empty());
        }
        assert(lf.subrange(0, fc as int) + sel + lf.subrange(lc as int, lf.len() as int) =~= lf);
    } else {
        let first = lf.subrange(fc as int, lf.len() as int) + seq!['\n'];
        let middle = lines_block(t, fl + 1, ll as int);
        let last = lt.subrange(0, lc as int);
        assert(sel == first + middle + last);
        lemma_join_front(t, fl as int, ll + 1);
        if fl + 1 == ll {
            assert(middle == Seq::<char>::empty());
            assert(t.subrange(fl + 1, ll + 1).len() == 1);
            assert(lf.subrange(0, fc as int) + sel + lt.subrange(lc as int, lt.len() as int) =~= lf + seq!['\n']
                + join_lines(t.subrange(fl + 1, ll + 1)));
        } else {
            lemma_block_is_joined(t, fl + 1, ll as int);
            assert(t.subrange(fl + 1, ll + 1).drop_last() =~= t.subrange(fl + 1, ll as int));
            assert(lf.subrange(0, fc as int) + sel + lt.subrange(lc as int, lt.len() as int) =~= lf + seq!['\n']
                + join_lines(t.subrange(fl + 1, ll + 1)));
        }
    }
}

/// Copying a line-wise selection takes the lines it spans, joined by
/// newlines, and a final newline.
pub proof fn copied_lines_are_the_spanned_lines(t: Text, start: (usize, usize), cursor: Cursor)
    requires
        ordered(start, (cursor.y, cursor.x)).2 < t.len(),
    ensures
        ({
            let (fl, fc, ll, lc) = ordered(start, (cursor.y, cursor.x));
            selected_text(t, start, cursor, true) == join_lines(t.subrange(fl as int, ll + 1)) + seq!['\n']
        }),
{
    let (fl, fc, ll, lc) = ordered(start, (cursor.y, cursor.x));
    lemma_block_is_joined(t, fl as int, ll + 1);
}

/// Splitting at newlines gives at least one piece.
proof fn lemma_split_len(s: Seq<char>)
    ensures
        split_newlines(s).len() >= 1,
    decreases s.len(),
{
    if s.len() > 0 {
        lemma_split_len(s.drop_last());
    }
}

/// No piece is longer than the text split.
proof fn lemma_split_piece_len(s: Seq<char>)
    ensures
        forall|i: int| 0 <= i < split_newlines(s).len() ==> #[trigger] split_newlines(s)[i].len() <= s.len(),
    decreases s.len(),
{
    if s.len() > 0 {
        lemma_split_piece_len(s.drop_last());
        lemma_split_len(s.drop_last());
    }
}

/// Text without carriage returns splits into pieces without them.
proof fn lemma_split_no_cr(s: Seq<char>)
    requires
        forall|k: int| 0 <= k < s.len() ==> s[k] != '\r',
    ensures
        forall|i: int, j: int|
            0 <= i < split_newlines(s).len() && 0 <= j < split_newlines(s)[i].len() ==> #[trigger] split_newlines(
                s,
            )[i][j] != '\r',
    decreases s.len(),
{
    if s.len() > 0 {
        let d = s.drop_last();
        assert forall|k: int| 0 <= k < d.len() implies d[k] != '\r' by {
            assert(d[k] == s[k]);
        }
        lemma_split_no_cr(d);
        lemma_split_len(d);
        assert(s.last() == s[s.len() - 1]);
    }
}

/// Text put before `b`, without newlines, joins the first piece of `b`.
proof fn lemma_split_prefix(a: Seq<char>, b: Seq<char>)
    requires
        forall|j: int| 0 <= j < a.len() ==> a[j] != '\n',
    ensures
        split_newlines(a + b) == split_newlines(b).update(0, a + split_newlines(b)[0]),
    decreases b.len(),
{
    if b.len() == 0 {
        lemma_split_single(a);
        assert(a + b =~= a);
        assert(split_newlines(b) == seq![Seq::<char>::empty()]);
        assert(split_newlines(b).update(0, a + split_newlines(b)[0]) =~= seq![a]);
    } else {
        let d = b.drop_last();
        lemma_split_prefix(a, d);
        lemma_split_len(d);
        assert((a + b).drop_last() =~= a + d);
        assert((a + b).last() == b.last());
        let r = split_newlines(d);
        if b.last() == '\n' {
            assert(split_newlines(a + b) =~= split_newlines(b).update(0, a + split_newlines(b)[0]));
        } else {
            let ra = r.update(0, a + r[0]);
            assert(split_newlines(a + b) == ra.update(ra.len() - 1, ra.last().push(b.last())));
            assert(split_newlines(b) == r.update(r.len() - 1, r.last().push(b.last())));
            if r.len() == 1 {
                assert((a + r[0]).push(b.last()) =~= a + r[0].push(b.last()));
            }
            assert(split_newlines(a + b) =~= split_newlines(b).update(0, a + split_newlines(b)[0]));
        }
    }
}

/// Text put after `b`, without newlines, joins the last piece of `b`.
proof fn lemma_split_suffix(b: Seq<char>, w: Seq<char>)
    requires
        forall|j: int| 0 <= j < w.len() ==> w[j] != '\n',
    ensures
        split_newlines(b + w) == split_newlines(b).update(
            split_newlines(b).len() - 1,
            split_newlines(b).last() + w,
        ),
    decreases w.len(),
{
    lemma_split_len(b);
    if w.len() == 0 {
        assert(b + w =~= b);
        assert(split_newlines(b).last() + w =~= split_newlines(b).last());
        assert(split_newlines(b).update(split_newlines(b).len() - 1, split_newlines(b).last() + w)
            =~= split_newlines(b));
    } else {
        let d = w.drop_last();
        lemma_split_suffix(b, d);
        assert((b + w).drop_last() =~= b + d);
        assert((b + w).last() == w.last());
        assert(w.last() == w[w.len() - 1]);
        assert((split_newlines(b).last() + d).push(w.last()) =~= split_newlines(b).last() + w);
        assert(split_newlines(b + w) =~= split_newlines(b).update(
            split_newlines(b).len() - 1,
            split_newlines(b).last() + w,
        ));
    }
}

/// Inserting text `s` at the cursor (as undoing the deletion of a selection
/// puts the deleted text back), when `s` holds no carriage return and does
/// not end in a newline and the cursor's line holds no newline, puts in place
/// of that line the lines of the line with `s` put in at the cursor, and
/// leaves the cursor just after the inserted text.
pub proof fn inserted_text_reads_back(t: Text, c: Cursor, s: Seq<char>)
    requires
        s.len() > 0,
        s.last() != '\n',
        forall|k: int| 0 <= k < s.len() ==> s[k] != '\r',
        s.len() <= usize::MAX,
        c.y < t.len(),
        c.x <= t[c.y as int].len(),
        forall|j: int| 0 <= j < t[c.y as int].len() ==> t[c.y as int][j] != '\n',
        insert_fits(c, s),
    ensures
        ({
            let (x, y) = (c.x as int, c.y as int);
            let l = t[y];
            let before = l.subrange(0, x) + s;
            let (pasted, after) = text_inserted(t, c, s).unwrap();
            &&& text_inserted(t, c, s) is Some
            &&& pasted == t.subrange(0, y) + split_newlines(before + l.subrange(x, l.len() as int)) + t.subrange(
                y + 1,
                t.len() as int,
            )
            &&& after.y == y + split_newlines(before).len() - 1
            &&& after.x == split_newlines(before).last().len()
        }),
{
    let (x, y) = (c.x as int, c.y as int);
    let l = t[y];
    let p = l.subrange(0, x);
    let q = l.subrange(x, l.len() as int);
    let sp = split_newlines(s);
    let n = sp.len();
    lemma_split_len(s);
    lemma_split_piece_len(s);
    lemma_split_no_cr(s);
    assert(sp.drop_last().map_values(|w: Seq<char>| strip_cr(w)) =~= sp.drop_last()) by {
        assert forall|i: int| 0 <= i < sp.drop_last().len() implies strip_cr(sp.drop_last()[i]) == sp.drop_last()[i] by {
            let w = sp[i];
            if w.len() > 0 {
                assert(w.last() == w[w.len() - 1]);
            }
        }
    }
    assert(s.last() == s[s.len() - 1]);
    assert(std_lines(s) =~= sp);
    assert(inserted_lines(s) == sp);
    assert forall|j: int| 0 <= j < p.len() implies p[j] != '\n' by {
        assert(p[j] == l[j]);
    }
    assert forall|j: int| 0 <= j < q.len() implies q[j] != '\n' by {
        assert(q[j] == l[x + j]);
    }
    lemma_split_prefix(p, s);
    lemma_split_suffix(s, q);
    lemma_split_len(s + q);
    lemma_split_prefix(p, s + q);
    assert(p + s + q =~= p + (s + q));
    let whole = split_newlines(p + s + q);
    let sq = split_newlines(s + q);
    assert(sq == sp.update(n - 1, sp[n - 1] + q));
    assert(whole == sq.update(0, p + sq[0]));
    let sb = split_newlines(p + s);
    assert(sb == sp.update(0, p + sp[0]));
    let (t2, c2) = text_inserted(t, c, s).unwrap();
    if n == 1 {
        assert(p + (sp[0] + q) =~= p + sp[0] + q);
        assert(whole =~= seq![p + sp[0] + q]);
        assert(sb.last() == p + sp[0]);
        assert(inserted_lines(s)[0] == sp[0]);
        assert(c2.x == x + sp[0].len());
        assert((p + sp[0]).len() == x + sp[0].len());
        assert(t2 =~= t.subrange(0, y) + whole + t.subrange(y + 1, t.len() as int));
    } else {
        assert(whole =~= seq![p + sp[0]] + sp.subrange(1, n - 1) + seq![sp[n - 1] + q]);
        assert(sb.last() == sp[n - 1]);
        assert(c2.x == sp[n - 1].len());
        assert(t2 =~= t.subrange(0, y) + whole + t.subrange(y + 1, t.len() as int));
    }
    assert(sb.len() == n);
    assert(c2.y == y + sb.len() - 1);
    assert(c2.x == sb.last().len());
}

} // verus!
