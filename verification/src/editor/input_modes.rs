//! What keys do while inserting text, deleting, selecting, browsing
//! diagnostics, finding files and searching tokens; and which handler a key
//! goes to.

use vstd::prelude::*;
use super::buffer::{Buffer, end_deleted, extended_to, insert_padded, line_len, selection_deleted, start_deleted, word_deleted};
use super::commands::normal_command;
use super::cursor::Cursor;
use super::diagnostics::DiagnosticFilter;
use super::mode::Mode;
use super::modes::{byte_len, first_bound_among, search_commands, utf8_len};
use super::normal_mode::{in_mode, normal_effect};
use super::session::{After, Editor, IoRequest, Step, Then};
use super::tab::{Tab, cursor_line_deleted, unused};
use super::flow::{opened_file, reads_into};
use crate::config::key_bindings::{CommandMap, first_bound, binding_matches};
use crate::keys::{KeyCode, KeyEvent};
use crate::text::{chars_of, same_text};

verus! {

/// The text after typing `c` at cursor `cur` (see [`Buffer::insert_char_at_cursor`]).
pub open spec fn typed(t: Seq<Seq<char>>, cur: Cursor, c: char) -> Seq<Seq<char>> {
    let e = extended_to(t, cur.y as int);
    e.update(cur.y as int, insert_padded(e[cur.y as int], cur.x as int, c))
}

/// The first of `m`'s commands, among `names`, whose binding matches `e`.
pub(crate) fn matching_among(m: &CommandMap, e: &KeyEvent, names: Ghost<Set<Seq<char>>>, list: &Vec<&str>) -> (r: Option<String>)
    requires
        forall|n: Seq<char>| names@.contains(n) <==> exists|k: int| 0 <= k < list@.len() && (#[trigger] list@[k])@ == n,
    ensures
        match r {
            Some(n) => first_bound_among(m.entries(), *e, names@) == Some(n@),
            None => first_bound_among(m.entries(), *e, names@) is None,
        },
{
    let ghost es = m.entries();
    let mut i: usize = 0;
    assert(es.skip(0) =~= es);
    while i < m.len()
        invariant
            i <= es.len(),
            es == m.entries(),
            forall|n: Seq<char>| names@.contains(n) <==> exists|k: int| 0 <= k < list@.len() && (#[trigger] list@[k])@ == n,
            first_bound_among(es, *e, names@) == first_bound_among(es.skip(i as int), *e, names@),
        decreases es.len() - i,
    {
        let (name, binding) = m.entry(i);
        assert(es.skip(i as int)[0] == es[i as int]);
        assert(es.skip(i as int).drop_first() =~= es.skip(i + 1));
        if binding.matches(e) {
            let mut k: usize = 0;
            let mut known = false;
            while k < list.len()
                invariant
                    k <= list@.len(),
                    known == exists|q: int| 0 <= q < k && (#[trigger] list@[q])@ == name@,
                decreases list.len() - k,
            {
                if same_text(list[k], name.as_str()) {
                    known = true;
                }
                k += 1;
            }
            if known {
                return Some(name.clone());
            }
        }
        i += 1;
    }
    None
}

/// What a key does in insert mode (see [`Editor::handle_insert_mode`]).
pub open spec fn insert_key_effect(o: Editor, n: Editor, key: KeyEvent, s: Step) -> bool {
    &&& s is Continue
    &&& ({
                    let t = o.tab().buffer.text();
                    let cur = o.tab().cursor;
                    let t2 = n.tab().buffer.text();
                    let cur2 = n.tab().cursor;
                    match first_bound(o.config.key_bindings.insert_mode.entries(), key) {
                        Some(name) => if name == "normal_mode"@ {
                            in_mode(n, o, Mode::Normal)
                        } else {
                            n == o
                        },
                        None => match key.code {
                            KeyCode::Esc => in_mode(n, o, Mode::Normal),
                            KeyCode::Char(c) => {
                                &&& n.only_tab_changed(&o)
                                &&& cur.x < usize::MAX && cur.y < usize::MAX ==> t2 == typed(t, cur, c) && cur2
                                    == (Cursor { x: (cur.x + 1) as usize, y: cur.y })
                            },
                            KeyCode::Backspace => {
                                &&& n.only_tab_changed(&o)
                                &&& cur.x > 0 ==> cur2 == (Cursor { x: (cur.x - 1) as usize, y: cur.y }) && t2 == (if cur.y
                                    < t.len() && cur.x - 1 < t[cur.y as int].len() {
                                    t.update(cur.y as int, t[cur.y as int].remove(cur.x - 1))
                                } else {
                                    t
                                })
                                &&& cur.x == 0 && cur.y > 0 ==> cur2 == (Cursor {
                                    x: line_len(t, cur.y - 1) as usize,
                                    y: (cur.y - 1) as usize,
                                }) && (cur.y < t.len() ==> t2 == t.update(cur.y - 1, t[cur.y - 1] + t[cur.y as int]).remove(
                                    cur.y as int,
                                ))
                                &&& cur.x == 0 && cur.y == 0 ==> n.tab() == o.tab()
                            },
                            KeyCode::Enter => {
                                &&& n.only_tab_changed(&o)
                                &&& cur.y < usize::MAX ==> cur2 == (Cursor { x: 0, y: (cur.y + 1) as usize })
                            },
                            _ => n == o,
                        },
                    }
                })
}

/// Whether the current tab of `n` is that of `o` with its buffer changed as
/// `edited` says, the cursor and diagnostics kept, and nothing else of the
/// editor changed but the mode, which is normal mode.
pub open spec fn tab_buffer_edited(o: Editor, n: Editor, edited: bool) -> bool {
    &&& n.only_tab_changed(&Editor { mode: Mode::Normal, ..o })
    &&& n.tab().cursor == o.tab().cursor
    &&& n.tab().diagnostics == o.tab().diagnostics
    &&& n.tab().buffer.same_settings(&o.tab().buffer)
    &&& edited
}

/// What a key does after `d` (see [`Editor::handle_delete_mode`]): `d`
/// deletes the cursor's line, `w` the word at the cursor, `$` to the end of
/// the line and `^` or `0` to its start (where the cursor lies within its
/// line), each recorded in the history as the buffer's operation records it.
pub open spec fn delete_key_effect(o: Editor, n: Editor, key: KeyEvent, s: Step) -> bool {
    let ob = o.tab().buffer;
    let nb = n.tab().buffer;
    let c = o.tab().cursor;
    &&& match key.code {
                    KeyCode::Esc => s is Continue && in_mode(n, o, Mode::Normal),
                    KeyCode::Char(ch) => if ch == 'd' {
                        &&& s is Continue
                        &&& n.only_tab_changed(&Editor { mode: Mode::Normal, ..o })
                        &&& cursor_line_deleted(o.tab(), n.tab())
                    } else if ch == 'w' {
                        s is Continue && tab_buffer_edited(o, n, word_deleted(ob, nb, c))
                    } else if ch == '$' {
                        s is Continue && tab_buffer_edited(o, n, end_deleted(ob, nb, c))
                    } else if ch == '^' || ch == '0' {
                        s is Continue && tab_buffer_edited(
                            o,
                            n,
                            if c.y >= ob.text().len() || c.x == 0 || c.x <= ob.text()[c.y as int].len() {
                                start_deleted(ob, nb, c)
                            } else {
                                nb == ob
                            },
                        )
                    } else {
                        normal_effect(
                            Editor { mode: Mode::Normal, ..o },
                            n,
                            normal_command(o.config.key_bindings.normal_mode.entries(), key),
                            s,
                        )
                    },
                    _ => normal_effect(
                        Editor { mode: Mode::Normal, ..o },
                        n,
                        normal_command(o.config.key_bindings.normal_mode.entries(), key),
                        s,
                    ),
                }
}

/// What a key does in a visual mode, line-wise where `lines` (see [`Editor::handle_visual_mode`]).
pub open spec fn visual_key_effect(o: Editor, n: Editor, key: KeyEvent, lines: bool, s: Step) -> bool {
    &&& match key.code {
                    KeyCode::Esc => {
                        &&& s is Continue
                        &&& n.only_tab_changed(&Editor { mode: Mode::Normal, ..o })
                        &&& n.tab().buffer == (Buffer { selection_start: None, ..o.tab().buffer })
                        &&& n.tab().cursor == o.tab().cursor
                        &&& n.tab().diagnostics == o.tab().diagnostics
                    },
                    KeyCode::Char(c) => if c == 'd' {
                        &&& s is Continue
                        &&& n.only_tab_changed(&Editor { mode: Mode::Normal, ..o })
                        &&& n.tab().diagnostics == o.tab().diagnostics
                        &&& n.tab().buffer.file_path == o.tab().buffer.file_path
                        &&& n.tab().buffer.syntax == o.tab().buffer.syntax
                        &&& (selection_deleted(o.tab().buffer, n.tab().buffer, o.tab().cursor, n.tab().cursor, lines, true)
                            || selection_deleted(o.tab().buffer, n.tab().buffer, o.tab().cursor, n.tab().cursor, lines, false))
                    } else if c == 'y' {
                        &&& s is Continue
                        &&& n.mode == Mode::Normal
                        &&& n.tab().buffer.selection_start is None
                        &&& n.tab().buffer.lines == o.tab().buffer.lines
                        &&& n.clipboard@ == match o.tab().buffer.selection_start {
                            None => Seq::<char>::empty(),
                            Some(start) => super::buffer::selected_text(
                                o.tab().buffer.text(),
                                start,
                                o.tab().cursor,
                                lines,
                            ),
                        }
                    } else {
                        normal_effect(
                            o,
                            n,
                            normal_command(o.config.key_bindings.normal_mode.entries(), key),
                            s,
                        )
                    },
                    _ => normal_effect(
                        o,
                        n,
                        normal_command(o.config.key_bindings.normal_mode.entries(), key),
                        s,
                    ),
                }
}

/// What a key does in the file finder (see [`Editor::handle_file_finder_mode`]).
pub open spec fn finder_key_effect(o: Editor, n: Editor, key: KeyEvent, s: Step) -> bool {
    &&& ({
                    let bound = first_bound(o.config.key_bindings.file_finder_mode.entries(), key);
                    let cancel = bound == Some("cancel"@) || (bound is None && key.code == KeyCode::Esc);
                    let next = bound == Some("next"@) || (bound is None && key.code == KeyCode::Down);
                    let previous = bound == Some("previous"@) || (bound is None && key.code == KeyCode::Up);
                    &&& cancel ==> s is Continue && in_mode(n, o, Mode::Normal)
                    &&& next ==> s is Continue && n.tabs == o.tabs && n.file_finder@.selected_index
                        == (if o.file_finder@.matches.len() > 0 {
                        super::wrap::wrap_next(o.file_finder@.selected_index as int, o.file_finder@.matches.len() as int) as usize
                    } else {
                        o.file_finder@.selected_index
                    })
                    &&& previous ==> s is Continue && n.tabs == o.tabs
                    &&& bound is None ==> match key.code {
                        KeyCode::Char(c) => s is Continue && n.file_finder@.query == o.file_finder@.query.push(
                            c,
                        ) && n.file_finder@.selected_index == 0 && n.tabs == o.tabs,
                        KeyCode::Backspace => s is Continue && n.file_finder@.query
                            == super::modes::without_last(o.file_finder@.query) && n.tabs == o.tabs,
                        _ => true,
                    }
                })
}

impl Editor {
    /// Handles `key` while inserting text: a bound `normal_mode` command or
    /// `Esc` return to normal mode; a character is typed at the cursor, which
    /// moves past it; `Backspace` deletes the character before the cursor, or
    /// at the start of a line joins it to the line above; `Enter` splits the
    /// line at the cursor, which goes to the start of the new line. (Typing at
    /// or splitting on a column or line of `usize::MAX` does nothing.)
    pub fn handle_insert_mode(&mut self, key: KeyEvent) -> (s: Step)
        requires
            old(self).wf(),
        ensures
            final(self).wf(),
            insert_key_effect(*old(self), *final(self), key, s),
    {
        proof {
            reveal_strlit("normal_mode");
        }
        match self.config.key_bindings.insert_mode.matching(&key) {
            Some(name) => {
                if same_text(name.as_str(), "normal_mode") {
                    self.mode = Mode::Normal;
                }
                return Step::Continue;
            },
            None => {},
        }
        let i = self.current_tab;
        match key.code {
            KeyCode::Esc => {
                self.mode = Mode::Normal;
            },
            KeyCode::Char(c) => {
                let tab = &mut self.tabs[i];
                if tab.cursor.x < usize::MAX && tab.cursor.y < usize::MAX {
                    tab.buffer.insert_char_at_cursor(c, &tab.cursor);
                    tab.cursor.move_right(&tab.buffer);
                    self.tabs[i].update_viewport();
                    self.highlight_stale = true;
                }
            },
            KeyCode::Backspace => {
                let tab = &mut self.tabs[i];
                if tab.cursor.x > 0 {
                    tab.cursor.move_left(&tab.buffer);
                    tab.buffer.delete_char_at_cursor(&tab.cursor);
                    self.tabs[i].update_viewport();
                    self.highlight_stale = true;
                } else if tab.cursor.y > 0 {
                    let prev_len = tab.buffer.line_length(tab.cursor.y - 1);
                    tab.cursor.y = tab.cursor.y - 1;
                    tab.cursor.x = prev_len;
                    if tab.buffer.line_count() > 0 {
                        let y = tab.cursor.y;
                        tab.buffer.join_line(y);
                    }
                    self.tabs[i].update_viewport();
                    self.highlight_stale = true;
                }
            },
            KeyCode::Enter => {
                let tab = &mut self.tabs[i];
                if tab.cursor.y < usize::MAX {
                    tab.buffer.insert_newline_at_cursor(&tab.cursor);
                    tab.cursor.x = 0;
                    tab.cursor.y = tab.cursor.y + 1;
                    self.tabs[i].update_viewport();
                    self.highlight_stale = true;
                }
            },
            _ => {},
        }
        Step::Continue
    }

    /// Handles `key` while waiting for the motion of a delete command: `Esc`
    /// cancels; `d` deletes the cursor's line, `w` the word at the cursor,
    /// `$` to the end of the line, `^` or `0` to its start; each returns to
    /// normal mode. Any other key cancels and is handled in normal mode.
    pub fn handle_delete_mode(&mut self, key: KeyEvent) -> (s: Step)
        requires
            old(self).wf(),
        ensures
            final(self).wf(),
            delete_key_effect(*old(self), *final(self), key, s),
    {
        let i = self.current_tab;
        match key.code {
            KeyCode::Esc => {
                self.mode = Mode::Normal;
                Step::Continue
            },
            KeyCode::Char('d') => {
                self.delete_cursor_line();
                self.mode = Mode::Normal;
                Step::Continue
            },
            KeyCode::Char('w') => {
                let tab = &mut self.tabs[i];
                tab.buffer.delete_word_at_cursor(&mut tab.cursor);
                self.tabs[i].update_viewport();
                self.highlight_stale = true;
                self.mode = Mode::Normal;
                Step::Continue
            },
            KeyCode::Char('$') => {
                let tab = &mut self.tabs[i];
                tab.buffer.delete_to_end_of_line(&tab.cursor);
                self.tabs[i].update_viewport();
                self.highlight_stale = true;
                self.mode = Mode::Normal;
                Step::Continue
            },
            KeyCode::Char('^') | KeyCode::Char('0') => {
                let tab = &mut self.tabs[i];
                let fits = tab.cursor.y >= tab.buffer.line_count() || tab.cursor.x == 0 || tab.cursor.x
                    <= tab.buffer.line_length(tab.cursor.y);
                if fits {
                    tab.buffer.delete_to_beginning_of_line(&tab.cursor);
                }
                self.tabs[i].update_viewport();
                self.highlight_stale = true;
                self.mode = Mode::Normal;
                Step::Continue
            },
            _ => {
                self.mode = Mode::Normal;
                self.handle_normal_mode(key)
            },
        }
    }

    /// Handles `key` while selecting (line-wise if `lines`): `Esc` clears the
    /// selection; `d` deletes it (see [`Buffer::delete_selection`]); `y`
    /// copies it to the clipboard (see [`Buffer::get_selected_text`]) and
    /// clears it; each returns to normal mode. Other keys are handled as in
    /// normal mode.
    pub fn handle_visual_mode(&mut self, key: KeyEvent, lines: bool) -> (s: Step)
        requires
            old(self).wf(),
        ensures
            final(self).wf(),
            visual_key_effect(*old(self), *final(self), key, lines, s),
    {
        let i = self.current_tab;
        match key.code {
            KeyCode::Esc => {
                self.tabs[i].buffer.clear_selection();
                self.mode = Mode::Normal;
                Step::Continue
            },
            KeyCode::Char('d') => {
                let tab = &mut self.tabs[i];
                let deleted = tab.buffer.delete_selection(&mut tab.cursor, lines);
                if deleted {
                    self.highlight_stale = true;
                }
                self.mode = Mode::Normal;
                Step::Continue
            },
            KeyCode::Char('y') => {
                let text = self.tabs[i].buffer.get_selected_text(&self.tabs[i].cursor, lines);
                self.clipboard = text;
                self.tabs[i].buffer.clear_selection();
                self.mode = Mode::Normal;
                Step::Continue
            },
            _ => self.handle_normal_mode(key),
        }
    }

    /// Opens the selected file of the file finder: in a new tab when control
    /// is held (or when a tab already holds it, switching to that tab), in
    /// the current tab when that holds nothing worth keeping, else in a new
    /// tab; the editor then returns to normal mode. Without a selection,
    /// nothing happens.
    fn open_selected_file(&mut self, control: bool) -> (s: Step)
        requires
            old(self).wf(),
        ensures
            final(self).wf(),
            old(self).file_finder@.selected_index >= old(self).file_finder@.matches.len() ==> s is Continue
                && *final(self) == *old(self),
            old(self).file_finder@.selected_index < old(self).file_finder@.matches.len() ==> {
                let path = old(self).file_finder@.matches[old(self).file_finder@.selected_index as int].0;
                if !control && unused(old(self).tab()) {
                    *final(self) == *old(self) && reads_into(s, path, Then::Normal)
                } else {
                    opened_file(*old(self), *final(self), path, Then::Normal, s)
                }
            },
    {
        match self.file_finder.get_selected() {
            Some(path) => {
                if control {
                    self.load_file_in_new_tab(path.as_str(), Then::Normal)
                } else if self.tabs[self.current_tab].is_unused() {
                    self.load_file(path.as_str(), Then::Normal)
                } else {
                    self.load_file_in_new_tab(path.as_str(), Then::Normal)
                }
            },
            None => Step::Continue,
        }
    }

    /// Handles `key` in the file finder: the bound `cancel`, `select`, `next`
    /// and `previous` commands, or `Esc`, `Enter`, `Down` and `Up`, cancel,
    /// open the selected file, and move the selection; characters and
    /// `Backspace` edit the query, which matches the files again.
    pub fn handle_file_finder_mode(&mut self, key: KeyEvent) -> (s: Step)
        requires
            old(self).wf(),
        ensures
            final(self).wf(),
            finder_key_effect(*old(self), *final(self), key, s),
    {
        proof {
            reveal_strlit("cancel");
            reveal_strlit("select");
            reveal_strlit("next");
            reveal_strlit("previous");
            assert("cancel"@[0] != "select"@[0] && "cancel"@ != "select"@);
            assert("cancel"@.len() != "next"@.len() && "cancel"@ != "next"@);
            assert("cancel"@.len() != "previous"@.len() && "cancel"@ != "previous"@);
            assert("select"@.len() != "next"@.len() && "select"@ != "next"@);
            assert("select"@.len() != "previous"@.len() && "select"@ != "previous"@);
            assert("next"@.len() != "previous"@.len() && "next"@ != "previous"@);
        }
        match self.config.key_bindings.file_finder_mode.matching(&key) {
            Some(name) => {
                if same_text(name.as_str(), "cancel") {
                    self.mode = Mode::Normal;
                    return Step::Continue;
                } else if same_text(name.as_str(), "select") {
                    let s = self.open_selected_file(key.modifiers.control);
                    return s;
                } else if same_text(name.as_str(), "next") {
                    self.file_finder.next();
                    return Step::Continue;
                } else if same_text(name.as_str(), "previous") {
                    self.file_finder.previous();
                    return Step::Continue;
                }
                return Step::Continue;
            },
            None => {},
        }
        match key.code {
            KeyCode::Esc => {
                self.mode = Mode::Normal;
                Step::Continue
            },
            KeyCode::Enter => self.open_selected_file(key.modifiers.control),
            KeyCode::Down => {
                self.file_finder.next();
                Step::Continue
            },
            KeyCode::Up => {
                self.file_finder.previous();
                Step::Continue
            },
            KeyCode::Char(c) => {
                self.file_finder.add_char(c);
                self.file_finder.update_matches();
                Step::Continue
            },
            KeyCode::Backspace => {
                self.file_finder.remove_char();
                self.file_finder.update_matches();
                Step::Continue
            },
            _ => Step::Continue,
        }
    }
}

} // verus!
