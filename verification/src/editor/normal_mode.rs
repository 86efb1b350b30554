//! What the commands of normal mode do to the editor.

use vstd::prelude::*;
use super::buffer::{
    Buffer, Text, char_deleted, lemma_recorded_more, lemma_recorded_some, lemma_some_recorded_trans, some_recorded, extended_to, insert_padded, line_len, redo_fits, redo_replay, std_lines, std_lines_of, undo_fits,
    undo_replay,
};
use crate::text::spaces;
use super::commands::{NormalCommand, decide_normal, normal_command};
use super::cursor::Cursor;
use super::mode::Mode;
use super::session::{After, CargoDir, Editor, IoRequest, Step, Then, added_tab, board_fits, closed_tab};
use super::tab::{
    Tab, cursor_line_deleted, is_untitled, page_size, paged_down, paged_up, untitled, went_to_diagnostic,
};
use super::token_search::TokenSearch;
use crate::keys::KeyEvent;
use super::history::{ActionModel, EditorActionModel};
use crate::text::chars_of;

verus! {

/// Where a motion command puts cursor `c` in text `t`.
pub open spec fn cursor_moved(cmd: NormalCommand, t: Seq<Seq<char>>, c: Cursor) -> Cursor {
    match cmd {
        NormalCommand::MoveLeft => Cursor { x: if c.x > 0 { (c.x - 1) as usize } else { 0 }, y: c.y },
        NormalCommand::MoveRight => Cursor {
            x: if c.x < line_len(t, c.y as int) { (c.x + 1) as usize } else { c.x },
            y: c.y,
        },
        NormalCommand::MoveUp => if c.y == 0 {
            c
        } else {
            let l = line_len(t, c.y - 1);
            Cursor { x: if c.x > l { l as usize } else { c.x }, y: (c.y - 1) as usize }
        },
        NormalCommand::MoveDown => if c.y + 1 >= t.len() {
            c
        } else {
            let l = line_len(t, c.y + 1);
            Cursor { x: if c.x > l { l as usize } else { c.x }, y: (c.y + 1) as usize }
        },
        NormalCommand::MoveToLineStart => Cursor { x: 0, y: c.y },
        NormalCommand::MoveToLineEnd => Cursor { x: line_len(t, c.y as int) as usize, y: c.y },
        NormalCommand::MoveToFileStart => Cursor { x: 0, y: 0 },
        NormalCommand::MoveToFileEnd => {
            let y = if t.len() > 0 { t.len() - 1 } else { 0 };
            Cursor { x: line_len(t, y) as usize, y: y as usize }
        },
        _ => c,
    }
}

/// Whether `cmd` only moves the cursor.
pub open spec fn is_motion(cmd: NormalCommand) -> bool {
    ||| cmd == NormalCommand::MoveLeft
    ||| cmd == NormalCommand::MoveRight
    ||| cmd == NormalCommand::MoveUp
    ||| cmd == NormalCommand::MoveDown
    ||| cmd == NormalCommand::MoveToLineStart
    ||| cmd == NormalCommand::MoveToLineEnd
    ||| cmd == NormalCommand::MoveToFileStart
    ||| cmd == NormalCommand::MoveToFileEnd
}

/// Whether `n` is `o` in mode `mode`.
pub open spec fn in_mode(n: Editor, o: Editor, mode: Mode) -> bool {
    n == Editor { mode, ..o }
}

/// Whether `s` reads the current file (when it is named, and not `untitled-`)
/// and goes on with `after`, or else continues; the editor is unchanged.
pub open spec fn reads_current_file(o: Editor, n: Editor, s: Step, check: Option<bool>) -> bool {
    &&& n == o
    &&& match o.tab().buffer.file_path {
        Some(p) => if untitled(p@) {
            s is Continue
        } else {
            (s matches Step::Io(IoRequest::ReadFile { path }, after) && path@ == p@ && match check {
                Some(c) => (after matches After::Reloaded { check: k } && k == c),
                None => after matches After::Compared,
            })
        },
        None => s is Continue,
    }
}

/// Whether `s` runs `cargo {command}` in the working directory for the
/// current file, when it is named, or else continues; the editor is unchanged.
pub open spec fn runs_cargo(o: Editor, n: Editor, s: Step, command: Seq<char>) -> bool {
    &&& n == o
    &&& match o.tab().buffer.file_path {
        Some(p) => (s matches Step::Io(IoRequest::RunCargo { dir, command: c, current_file }, After::Checked { then })
            && dir == CargoDir::WorkingDir && c@ == command && current_file@ == p@ && then == Then::Nothing),
        None => s is Continue,
    }
}

/// Line `l` after typing `s` at column `x`: the characters go in at `x`,
/// the line first filled with spaces up to `x` where it is shorter.
pub open spec fn line_typed(l: Seq<char>, x: int, s: Seq<char>) -> Seq<char> {
    if s.len() == 0 {
        l
    } else if x > l.len() {
        l + spaces((x - l.len()) as nat) + s
    } else {
        l.take(x) + s + l.skip(x)
    }
}

/// Text `t` after typing `s` at column `x` of line `y` (empty lines are
/// added first where `y` is past the end, unless `s` is empty).
pub open spec fn text_typed(t: Text, x: int, y: int, s: Seq<char>) -> Text {
    if s.len() == 0 {
        t
    } else {
        let t1 = extended_to(t, y);
        t1.update(y, line_typed(t1[y], x, s))
    }
}

/// Typing one more character after `s` is typing it where `s` ended.
proof fn lemma_line_typed_push(l: Seq<char>, x: int, s: Seq<char>, c: char)
    requires
        0 <= x,
    ensures
        line_typed(l, x, s.push(c)) == insert_padded(line_typed(l, x, s), x + s.len(), c),
        line_typed(l, x, s).len() >= x + s.len() || s.len() == 0,
{
    let m = line_typed(l, x, s);
    if s.len() == 0 {
        assert(s.push(c) =~= seq![c]);
        if x <= l.len() {
            assert(l.take(x) + seq![c] + l.skip(x) =~= l.insert(x, c));
        }
    } else if x > l.len() {
        assert(m.insert(x + s.len(), c) =~= l + spaces((x - l.len()) as nat) + s.push(c));
    } else {
        assert(m.insert(x + s.len(), c) =~= l.take(x) + s.push(c) + l.skip(x));
    }
}

/// Whether pasting `clip` after (or before) the cursor of tab `o` changes
/// the text, within the machine's integers, so that the change is recorded
/// in the history: a clipboard without a final newline that is not empty,
/// or lines pasted after the cursor's line, or before it where there is
/// more than one line or the line is not empty.
pub open spec fn paste_recorded(o: Tab, clip: Seq<char>, after: bool) -> bool {
    let c = o.cursor;
    let x: int = if !after && c.x > 0 { c.x - 1 } else { c.x as int };
    let ls = std_lines(clip);
    &&& clip.len() > 0
    &&& clip.last() != '\n' ==> x + clip.len() < usize::MAX && c.y < usize::MAX
    &&& clip.last() == '\n' ==> lines_fit(o.buffer.text(), c.y as int, ls) && (after || ls.len() > 1
        || ls[0].len() > 0)
}

/// Whether tab `n` is tab `o` after pasting `clip`, which does not end with a
/// newline, after (or before) the cursor: its characters are typed at the
/// cursor (one column to the left, pasting before); the cursor ends past
/// them, or back where it was when pasting before from past the first
/// column. (Stated where the columns stay within `usize::MAX`.)
pub open spec fn chars_pasted(o: Tab, n: Tab, clip: Seq<char>, after: bool) -> bool {
    let c = o.cursor;
    let x: int = if !after && c.x > 0 { c.x - 1 } else { c.x as int };
    x + clip.len() < usize::MAX && c.y < usize::MAX ==> {
        &&& n.buffer.text() == text_typed(o.buffer.text(), x, c.y as int, clip)
        &&& n.cursor == (Cursor {
            x: (if !after && c.x > 0 { c.x as int } else { x + clip.len() }) as usize,
            y: c.y,
        })
    }
}

/// Whether the pasted lines and the cursor's line fit the machine's integers.
pub open spec fn lines_fit(t: Text, y: int, ls: Seq<Seq<char>>) -> bool {
    &&& y < t.len()
    &&& ls.len() >= 1
    &&& y + ls.len() + 2 < usize::MAX
    &&& forall|k: int| 0 <= k < ls.len() ==> (#[trigger] ls[k]).len() + 2 < usize::MAX
}

/// Whether tab `n` is tab `o` after pasting `clip`, which ends with a
/// newline, as its lines (see [`std_lines`]): after the cursor's line, the
/// cursor going to the start of the first pasted line; or before it, the
/// last pasted line joined to the front of the cursor's line and the cursor
/// going to the start of the first pasted line. (Stated for a cursor on a
/// line of the text, where the lines and columns stay within `usize::MAX`.)
pub open spec fn lines_pasted(o: Tab, n: Tab, clip: Seq<char>, after: bool) -> bool {
    let t = o.buffer.text();
    let y = o.cursor.y as int;
    let ls = std_lines(clip);
    lines_fit(t, y, ls) ==> {
        &&& n.buffer.text() == (if after {
            t.take(y + 1) + ls + t.skip(y + 1)
        } else {
            t.take(y) + ls.drop_last() + seq![ls.last() + t[y]] + t.skip(y + 1)
        })
        &&& n.cursor == (Cursor { x: 0, y: (if after { y + 1 } else { y }) as usize })
    }
}

/// Whether buffer `b2` with cursor `c2` is buffer `b` with cursor `c` after
/// an undo: the last done action is replayed backwards (see
/// [`undo_replay`]) where its replay fits the machine's integers; otherwise,
/// or with nothing to undo, the text, modified lines, place in the history
/// and cursor stay.
pub open spec fn undone(b: Buffer, c: Cursor, b2: Buffer, c2: Cursor) -> bool {
    let h = b.history;
    if h.index() > 0 && undo_fits(h.actions()[h.index() - 1]) {
        let o = undo_replay(b.text(), b.modified_lines@, h.actions()[h.index() - 1]);
        &&& b2.text() == o.text
        &&& b2.modified_lines@ == o.modified
        &&& b2.history.index() == h.index() - 1
        &&& b2.history.actions() == h.actions()
        &&& c2 == o.cursor
    } else {
        &&& b2.text() == b.text()
        &&& b2.modified_lines@ == b.modified_lines@
        &&& b2.history.index() == h.index()
        &&& c2 == c
    }
}

/// Whether buffer `b2` with cursor `c2` is buffer `b` with cursor `c` after
/// a redo: the next undone action is replayed again (see [`redo_replay`])
/// where its replay fits the machine's integers; otherwise, or with nothing
/// to redo, the text, modified lines, place in the history and cursor stay.
pub open spec fn redone(b: Buffer, c: Cursor, b2: Buffer, c2: Cursor) -> bool {
    let h = b.history;
    if h.index() < h.actions().len() && redo_fits(h.actions()[h.index() as int]) {
        let o = redo_replay(b.text(), b.modified_lines@, h.actions()[h.index() as int]);
        &&& b2.text() == o.text
        &&& b2.modified_lines@ == o.modified
        &&& b2.history.index() == h.index() + 1
        &&& b2.history.actions() == h.actions()
        &&& c2 == o.cursor
    } else {
        &&& b2.text() == b.text()
        &&& b2.modified_lines@ == b.modified_lines@
        &&& b2.history.index() == h.index()
        &&& c2 == c
    }
}

/// Whether tab `n` is tab `o` after opening an empty line below (or above)
/// the cursor's line, with the cursor at its start; the opening is recorded
/// in the history. (A line past `usize::MAX`, or above a line past the end,
/// is not opened, and the buffer stays as it was.)
pub open spec fn line_opened(o: Tab, n: Tab, below: bool) -> bool {
    let t = o.buffer.text();
    let y = o.cursor.y;
    &&& n.cursor.x == 0
    &&& n.diagnostics == o.diagnostics
    &&& n.buffer.same_settings(&o.buffer)
    &&& below && y < usize::MAX ==> {
        &&& n.cursor.y == y + 1
        &&& n.buffer.text() == (if y < t.len() {
            t.insert(y + 1, Seq::<char>::empty())
        } else {
            t.push(Seq::<char>::empty())
        })
        &&& n.buffer.modified_lines@ == o.buffer.modified_lines@.insert((y + 1) as usize)
        &&& n.buffer.is_modified
        &&& Buffer::recorded(
            &n.buffer.history,
            &o.buffer.history,
            EditorActionModel {
                action_type: ActionModel::OpenLineBelow { y },
                cursor_before: Cursor { x: 0, y },
                cursor_after: Cursor { x: 0, y: (y + 1) as usize },
            },
        )
    }
    &&& !below && y <= t.len() ==> {
        &&& n.cursor.y == y
        &&& n.buffer.text() == t.insert(y as int, Seq::<char>::empty())
        &&& n.buffer.modified_lines@ == o.buffer.modified_lines@.insert(y)
        &&& n.buffer.is_modified
        &&& Buffer::recorded(
            &n.buffer.history,
            &o.buffer.history,
            EditorActionModel {
                action_type: ActionModel::OpenLineAbove { y },
                cursor_before: Cursor { x: 0, y },
                cursor_after: Cursor { x: 0, y },
            },
        )
    }
    &&& !(below && y < usize::MAX) && !(!below && y <= t.len()) ==> n.buffer == o.buffer
}

/// What command `cmd` of normal mode does: from editor `o` to editor `n`,
/// with step `s`. Commands that edit text mark the highlighting as stale;
/// their effect on the text is that of the buffer operation they run.
pub open spec fn normal_effect(o: Editor, n: Editor, cmd: NormalCommand, s: Step) -> bool {
    let t = o.tab();
    let t2 = n.tab();
    &&& n.wf()
    &&& match cmd {
        NormalCommand::Quit => s is Quit && n == o,
        NormalCommand::InsertMode => s is Continue && in_mode(n, o, Mode::Insert),
        NormalCommand::CommandMode => s is Continue && in_mode(n, o, Mode::Command),
        NormalCommand::ShowHelp => s is Continue && in_mode(n, o, Mode::Help),
        NormalCommand::DeleteMode => s is Continue && in_mode(n, o, Mode::Delete),
        NormalCommand::SaveFile => s is Continue && n == Editor {
            mode: Mode::WriteConfirm,
            save_and_quit: false,
            ..o
        },
        NormalCommand::SaveAndQuit => s is Continue && n == Editor {
            mode: Mode::WriteConfirm,
            save_and_quit: true,
            ..o
        },
        NormalCommand::Nothing => s is Continue && n == o,
        NormalCommand::ReloadFile => reads_current_file(o, n, s, Some(true)),
        NormalCommand::CompareWithDisk => reads_current_file(o, n, s, None),
        NormalCommand::RunCargoCheck => runs_cargo(o, n, s, "check"@),
        NormalCommand::RunCargoClippy => runs_cargo(o, n, s, "clippy"@),
        NormalCommand::FindFile => in_mode(n, o, Mode::FileFinder) && (s matches Step::Io(
            IoRequest::ListFiles,
            After::Listed { quiet },
        ) && !quiet),
        NormalCommand::TokenSearch => s is Continue && n.mode == Mode::TokenSearch
            && n.token_search.query@.len() == 0 && n.token_search.results@.len() == 0
            && n.token_search.selected_index == 0 && n.tabs == o.tabs && n.current_tab == o.current_tab,
        NormalCommand::SnakeGame => s is Continue && n.tabs == o.tabs && n.current_tab
            == o.current_tab && if board_fits(t.viewport.width, t.viewport.height) {
            n.mode == Mode::Snake && n.snake_game is Some
        } else {
            n == o
        },
        NormalCommand::NewTab => s is Continue && added_tab(o, n),
        NormalCommand::CloseTab => s is Continue && closed_tab(o, n),
        NormalCommand::NextTab => s is Continue && n.tabs == o.tabs && n.current_tab == super::wrap::wrap_next(
            o.current_tab as int,
            o.tabs@.len() as int,
        ),
        NormalCommand::PrevTab => s is Continue && n.tabs == o.tabs && n.current_tab == super::wrap::wrap_prev(
            o.current_tab as int,
            o.tabs@.len() as int,
        ),
        NormalCommand::GotoTab(i) => s is Continue && n.tabs == o.tabs && n.current_tab == (if i
            < o.tabs@.len() {
            i
        } else {
            o.current_tab
        }),
        NormalCommand::PageUp => s is Continue && n.only_tab_changed(&o) && paged_up(t, t2),
        NormalCommand::PageDown => s is Continue && n.only_tab_changed(&o) && paged_down(t, t2),
        NormalCommand::Visual => s is Continue && n.mode == Mode::Visual && n.tab().buffer.selection_start
            == Some((t.cursor.y, t.cursor.x)) && n.tab().buffer.lines == t.buffer.lines,
        NormalCommand::VisualLine => s is Continue && n.mode == Mode::VisualLine
            && n.tab().buffer.selection_start == Some((t.cursor.y, 0usize)) && n.tab().buffer.lines
            == t.buffer.lines,
        NormalCommand::ToggleDiagnostics => s is Continue && if o.mode == Mode::DiagnosticsPanel {
            in_mode(n, o, Mode::Normal)
        } else {
            n.mode == Mode::DiagnosticsPanel && t2.buffer == t.buffer && n.current_tab == o.current_tab
        },
        NormalCommand::NextDiagnostic => s is Continue && n.only_tab_changed(&o) && went_to_diagnostic(t, t2, true),
        NormalCommand::PrevDiagnostic => s is Continue && n.only_tab_changed(&o) && went_to_diagnostic(t, t2, false),
        NormalCommand::OpenLineBelow => s is Continue && n.mode == Mode::Insert && n.current_tab == o.current_tab
            && n.tabs@.len() == o.tabs@.len() && line_opened(t, t2, true),
        NormalCommand::OpenLineAbove => s is Continue && n.mode == Mode::Insert && n.current_tab == o.current_tab
            && n.tabs@.len() == o.tabs@.len() && line_opened(t, t2, false),
        NormalCommand::DeleteCharAndInsert => s is Continue && n.mode == Mode::Insert && n.current_tab
            == o.current_tab && n.tabs@.len() == o.tabs@.len() && t2.cursor == t.cursor
            && t2.buffer.same_settings(&t.buffer) && char_deleted(t.buffer, t2.buffer, t.cursor),
        NormalCommand::DeleteLine => s is Continue && n.mode == o.mode && n.only_tab_changed(&o) && cursor_line_deleted(t, t2),
        NormalCommand::Undo => s is Continue && n.mode == o.mode && n.only_tab_changed(&o) && undone(
            t.buffer,
            t.cursor,
            t2.buffer,
            t2.cursor,
        ),
        NormalCommand::Redo => s is Continue && n.mode == o.mode && n.only_tab_changed(&o) && redone(
            t.buffer,
            t.cursor,
            t2.buffer,
            t2.cursor,
        ),
        NormalCommand::PasteAfter => s is Continue && n.mode == o.mode && n.only_tab_changed(&o) && (o.clipboard@.len()
            == 0 ==> n.tabs == o.tabs) && (o.clipboard@.len() > 0 && o.clipboard@.last() != '\n' ==> chars_pasted(
            t,
            t2,
            o.clipboard@,
            true,
        )) && (o.clipboard@.len() > 0 && o.clipboard@.last() == '\n' ==> lines_pasted(t, t2, o.clipboard@, true))
            && (t2.buffer.history == t.buffer.history || some_recorded(t.buffer.history, t2.buffer.history))
            && (paste_recorded(t, o.clipboard@, true) ==> some_recorded(t.buffer.history, t2.buffer.history)),
        NormalCommand::PasteBefore => s is Continue && n.mode == o.mode && n.only_tab_changed(&o) && (o.clipboard@.len()
            == 0 ==> n.tabs == o.tabs) && (o.clipboard@.len() > 0 && o.clipboard@.last() != '\n' ==> chars_pasted(
            t,
            t2,
            o.clipboard@,
            false,
        )) && (o.clipboard@.len() > 0 && o.clipboard@.last() == '\n' ==> lines_pasted(t, t2, o.clipboard@, false))
            && (t2.buffer.history == t.buffer.history || some_recorded(t.buffer.history, t2.buffer.history))
            && (paste_recorded(t, o.clipboard@, false) ==> some_recorded(t.buffer.history, t2.buffer.history)),
        _ => {
            &&& s is Continue
            &&& n.tabs@.len() == o.tabs@.len()
            &&& n.current_tab == o.current_tab
            &&& n.mode == o.mode
            &&& is_motion(cmd) ==> n.only_tab_changed(&o) && t2.buffer == t.buffer && t2.cursor
                == cursor_moved(cmd, t.buffer.text(), t.cursor)
        },
    }
}

impl Editor {
    /// Moves the current tab's cursor as motion `cmd` says, and scrolls to
    /// show it. (Moving down in a buffer without lines does nothing.)
    fn run_motion(&mut self, cmd: NormalCommand)
        requires
            old(self).wf(),
            is_motion(cmd),
        ensures
            final(self).wf(),
            final(self).only_tab_changed(old(self)),
            final(self).tab().buffer == old(self).tab().buffer,
            final(self).tab().diagnostics == old(self).tab().diagnostics,
            final(self).tab().cursor == cursor_moved(cmd, old(self).tab().buffer.text(), old(self).tab().cursor),
            final(self).highlight_stale == old(self).highlight_stale,
    {
        let i = self.current_tab;
        let tab = &mut self.tabs[i];
        match cmd {
            NormalCommand::MoveLeft => tab.cursor.move_left(&tab.buffer),
            NormalCommand::MoveRight => tab.cursor.move_right(&tab.buffer),
            NormalCommand::MoveUp => tab.cursor.move_up(&tab.buffer),
            NormalCommand::MoveDown => {
                if tab.buffer.line_count() > 0 {
                    tab.cursor.move_down(&tab.buffer);
                }
            },
            NormalCommand::MoveToLineStart => tab.cursor.move_to_line_start(&tab.buffer),
            NormalCommand::MoveToLineEnd => tab.cursor.move_to_line_end(&tab.buffer),
            NormalCommand::MoveToFileStart => tab.cursor.move_to_file_start(&tab.buffer),
            _ => tab.cursor.move_to_file_end(&tab.buffer),
        }
        tab.update_viewport();
    }

    /// Reads the current file for `after`, if it is named and not `untitled-`.
    fn read_current_file(&self, check: Option<bool>) -> (s: Step)
        requires
            self.wf(),
        ensures
            reads_current_file(*self, *self, s, check),
    {
        match &self.tabs[self.current_tab].buffer.file_path {
            Some(p) => {
                if is_untitled(p.as_str()) {
                    Step::Continue
                } else {
                    let after = match check {
                        Some(c) => After::Reloaded { check: c },
                        None => After::Compared,
                    };
                    Step::Io(IoRequest::ReadFile { path: p.clone() }, after)
                }
            },
            None => Step::Continue,
        }
    }

    /// Runs `cargo {command}` in the working directory for the current file, if it is named.
    fn run_cargo_for_current(&self, command: &str) -> (s: Step)
        requires
            self.wf(),
        ensures
            runs_cargo(*self, *self, s, command@),
    {
        match &self.tabs[self.current_tab].buffer.file_path {
            Some(p) => Step::Io(
                IoRequest::RunCargo {
                    dir: CargoDir::WorkingDir,
                    command: command.to_owned(),
                    current_file: p.clone(),
                },
                After::Checked { then: Then::Nothing },
            ),
            None => Step::Continue,
        }
    }

    /// Runs normal-mode command `cmd` (see [`normal_effect`]).
    pub fn run_normal(&mut self, cmd: NormalCommand) -> (s: Step)
        requires
            old(self).wf(),
        ensures
            normal_effect(*old(self), *final(self), cmd, s),
    {
        match cmd {
            NormalCommand::Quit => Step::Quit,
            NormalCommand::InsertMode => {
                self.mode = Mode::Insert;
                Step::Continue
            },
            NormalCommand::CommandMode => {
                self.mode = Mode::Command;
                Step::Continue
            },
            NormalCommand::ShowHelp => {
                self.mode = Mode::Help;
                Step::Continue
            },
            NormalCommand::DeleteMode => {
                self.mode = Mode::Delete;
                Step::Continue
            },
            NormalCommand::SaveFile => {
                self.mode = Mode::WriteConfirm;
                self.save_and_quit = false;
                Step::Continue
            },
            NormalCommand::SaveAndQuit => {
                self.save_and_quit = true;
                self.mode = Mode::WriteConfirm;
                Step::Continue
            },
            NormalCommand::Nothing => Step::Continue,
            NormalCommand::ReloadFile => self.read_current_file(Some(true)),
            NormalCommand::CompareWithDisk => self.read_current_file(None),
            NormalCommand::RunCargoCheck => self.run_cargo_for_current("check"),
            NormalCommand::RunCargoClippy => self.run_cargo_for_current("clippy"),
            NormalCommand::FindFile => {
                self.mode = Mode::FileFinder;
                Step::Io(IoRequest::ListFiles, After::Listed { quiet: false })
            },
            NormalCommand::TokenSearch => {
                self.mode = Mode::TokenSearch;
                self.token_search = TokenSearch::new();
                Step::Continue
            },
            NormalCommand::SnakeGame => {
                if self.snake_fits() {
                    self.start_snake_game();
                }
                Step::Continue
            },
            NormalCommand::NewTab => {
                self.add_tab();
                Step::Continue
            },
            NormalCommand::CloseTab => {
                self.close_tab();
                Step::Continue
            },
            NormalCommand::NextTab => {
                self.next_tab();
                Step::Continue
            },
            NormalCommand::PrevTab => {
                self.prev_tab();
                Step::Continue
            },
            NormalCommand::GotoTab(i) => {
                self.go_to_tab(i);
                Step::Continue
            },
            NormalCommand::PageUp => {
                let i = self.current_tab;
                self.tabs[i].page_up();
                Step::Continue
            },
            NormalCommand::PageDown => {
                let i = self.current_tab;
                self.tabs[i].page_down();
                Step::Continue
            },
            NormalCommand::Visual => {
                self.mode = Mode::Visual;
                let i = self.current_tab;
                let pos = (self.tabs[i].cursor.y, self.tabs[i].cursor.x);
                self.tabs[i].buffer.start_selection(pos);
                Step::Continue
            },
            NormalCommand::VisualLine => {
                self.mode = Mode::VisualLine;
                let i = self.current_tab;
                let line = self.tabs[i].cursor.y;
                self.tabs[i].buffer.start_selection((line, 0));
                Step::Continue
            },
            NormalCommand::ToggleDiagnostics => {
                if self.mode == Mode::DiagnosticsPanel {
                    self.mode = Mode::Normal;
                } else {
                    self.mode = Mode::DiagnosticsPanel;
                    self.goto_next_diagnostic();
                }
                Step::Continue
            },
            NormalCommand::NextDiagnostic => {
                self.goto_next_diagnostic();
                Step::Continue
            },
            NormalCommand::PrevDiagnostic => {
                self.goto_prev_diagnostic();
                Step::Continue
            },
            NormalCommand::DeleteLine => {
                self.delete_cursor_line();
                Step::Continue
            },
            NormalCommand::DeleteCharAndInsert => {
                self.delete_char_and_insert();
                Step::Continue
            },
            NormalCommand::Undo => {
                self.undo();
                Step::Continue
            },
            NormalCommand::Redo => {
                self.redo();
                Step::Continue
            },
            NormalCommand::OpenLineBelow => {
                self.open_line(true);
                Step::Continue
            },
            NormalCommand::OpenLineAbove => {
                self.open_line(false);
                Step::Continue
            },
            NormalCommand::PasteAfter => {
                self.paste(true);
                Step::Continue
            },
            NormalCommand::PasteBefore => {
                self.paste(false);
                Step::Continue
            },
            _ => {
                self.run_motion(cmd);
                Step::Continue
            },
        }
    }

    /// Handles `key` in normal mode: the command it means (see
    /// [`normal_command`]) is run (see [`normal_effect`]).
    pub fn handle_normal_mode(&mut self, key: KeyEvent) -> (s: Step)
        requires
            old(self).wf(),
        ensures
            normal_effect(
                *old(self),
                *final(self),
                normal_command(old(self).config.key_bindings.normal_mode.entries(), key),
                s,
            ),
    {
        let cmd = decide_normal(&self.config.key_bindings.normal_mode, &key);
        self.run_normal(cmd)
    }

    /// Deletes the current tab's cursor line (see [`Tab::delete_cursor_line`]).
    pub fn delete_cursor_line(&mut self)
        requires
            old(self).wf(),
        ensures
            final(self).wf(),
            final(self).only_tab_changed(old(self)),
            final(self).highlight_stale,
            cursor_line_deleted(old(self).tab(), final(self).tab()),
    {
        let i = self.current_tab;
        self.tabs[i].delete_cursor_line();
        self.highlight_stale = true;
    }

    /// Deletes the character at the cursor and starts inserting.
    fn delete_char_and_insert(&mut self)
        requires
            old(self).wf(),
        ensures
            final(self).wf(),
            final(self).mode == Mode::Insert,
            final(self).current_tab == old(self).current_tab,
            final(self).tabs@.len() == old(self).tabs@.len(),
            final(self).tab().cursor == old(self).tab().cursor,
            final(self).tab().buffer.same_settings(&old(self).tab().buffer),
            char_deleted(old(self).tab().buffer, final(self).tab().buffer, old(self).tab().cursor),
    {
        let i = self.current_tab;
        let tab = &mut self.tabs[i];
        tab.buffer.delete_char_at_cursor(&tab.cursor);
        self.mode = Mode::Insert;
        self.tabs[i].update_viewport();
        self.highlight_stale = true;
    }

    /// Undoes the last action of the current buffer, if any (see
    /// [`Buffer::undo`]); scrolls to show the cursor when something was
    /// undone. (An action whose replay would pass `usize::MAX` is not undone.)
    pub fn undo(&mut self)
        requires
            old(self).wf(),
        ensures
            final(self).wf(),
            final(self).only_tab_changed(old(self)),
            undone(old(self).tab().buffer, old(self).tab().cursor, final(self).tab().buffer, final(self).tab().cursor),
    {
        let i = self.current_tab;
        if self.tabs[i].buffer.undo_fits_now() {
            let tab = &mut self.tabs[i];
            if tab.buffer.undo(&mut tab.cursor) {
                self.tabs[i].update_viewport();
                self.highlight_stale = true;
            }
        }
    }

    /// Redoes the next undone action of the current buffer, if any (see
    /// [`Buffer::redo`]); scrolls to show the cursor when something was
    /// redone. (An action whose replay would pass `usize::MAX` is not redone.)
    pub fn redo(&mut self)
        requires
            old(self).wf(),
        ensures
            final(self).wf(),
            final(self).only_tab_changed(old(self)),
            redone(old(self).tab().buffer, old(self).tab().cursor, final(self).tab().buffer, final(self).tab().cursor),
    {
        let i = self.current_tab;
        if self.tabs[i].buffer.redo_fits_now() {
            let tab = &mut self.tabs[i];
            if tab.buffer.redo(&mut tab.cursor) {
                self.tabs[i].update_viewport();
                self.highlight_stale = true;
            }
        }
    }

    /// Opens an empty line below (or above) the cursor's line, puts the
    /// cursor at its start and starts inserting. (A line past `usize::MAX`,
    /// or above a line past the end, is not opened; the mode still changes.)
    fn open_line(&mut self, below: bool)
        requires
            old(self).wf(),
        ensures
            final(self).wf(),
            final(self).mode == Mode::Insert,
            final(self).current_tab == old(self).current_tab,
            final(self).tabs@.len() == old(self).tabs@.len(),
            line_opened(old(self).tab(), final(self).tab(), below),
    {
        let i = self.current_tab;
        let y = self.tabs[i].cursor.y;
        let count = self.tabs[i].buffer.line_count();
        if below && y < usize::MAX {
            let new_line = self.tabs[i].buffer.open_line_below(y);
            self.tabs[i].cursor.y = new_line;
        } else if !below && y <= count {
            let new_line = self.tabs[i].buffer.open_line_above(y);
            self.tabs[i].cursor.y = new_line;
        }
        self.tabs[i].cursor.x = 0;
        self.mode = Mode::Insert;
        self.tabs[i].update_viewport();
        self.highlight_stale = true;
    }

    /// Pastes the clipboard after (or before) the cursor. A clipboard ending
    /// with a newline is pasted as whole lines: below the cursor's line (or
    /// above it), the cursor ending at the start of the first pasted line.
    /// Otherwise its characters go in at the cursor (after moving one column
    /// left, for pasting before), the cursor moving past them (back to where
    /// it was, for pasting before). An empty clipboard does nothing. (Pasting
    /// stops before a column or line would pass `usize::MAX`.)
    #[verifier::rlimit(60)]
    pub fn paste(&mut self, after: bool)
        requires
            old(self).wf(),
        ensures
            final(self).wf(),
            final(self).only_tab_changed(old(self)),
            old(self).clipboard@.len() == 0 ==> final(self).tabs == old(self).tabs,
            old(self).clipboard@.len() > 0 && old(self).clipboard@.last() != '\n' ==> chars_pasted(
                old(self).tab(),
                final(self).tab(),
                old(self).clipboard@,
                after,
            ),
            old(self).clipboard@.len() > 0 && old(self).clipboard@.last() == '\n' ==> lines_pasted(
                old(self).tab(),
                final(self).tab(),
                old(self).clipboard@,
                after,
            ),
            final(self).tab().buffer.history == old(self).tab().buffer.history || some_recorded(
                old(self).tab().buffer.history,
                final(self).tab().buffer.history,
            ),
            paste_recorded(old(self).tab(), old(self).clipboard@, after) ==> some_recorded(
                old(self).tab().buffer.history,
                final(self).tab().buffer.history,
            ),
    {
        let n = chars_of(self.clipboard.as_str()).len();
        if n == 0 {
            return;
        }
        let content = self.clipboard.clone();
        let chars = chars_of(content.as_str());
        let ends_with_newline = chars[n - 1] == '\n';
        let i = self.current_tab;
        let cursor_y = self.tabs[i].cursor.y;
        let cursor_x = self.tabs[i].cursor.x;
        if ends_with_newline {
            let ghost t = old(self).tab().buffer.text();
            let ghost y = cursor_y as int;
            let ghost ls = std_lines(content@);
            let ghost ok = lines_fit(t, y, ls);
            let ghost pre = if after { t.take(y + 1) } else { t.take(y) };
            let ghost post = t.skip(y + 1);
            let ghost mid = if after { Seq::<char>::empty() } else { t[y] };
            let ghost base = if after { y + 1 } else { y };
            if after {
                let tab = &mut self.tabs[i];
                tab.cursor.move_to_line_end(&tab.buffer);
                if tab.cursor.y < usize::MAX - 1 {
                    let ghost hb = tab.buffer.history;
                    let ghost cb = tab.cursor;
                    let ghost tb = extended_to(tab.buffer.text(), cb.y as int);
                    tab.buffer.insert_newline_at_cursor(&tab.cursor);
                    proof {
                        let l = tb[cb.y as int];
                        let tail = if cb.x < l.len() {
                            l.subrange(cb.x as int, l.len() as int)
                        } else {
                            Seq::<char>::empty()
                        };
                        lemma_recorded_some(
                            hb,
                            tab.buffer.history,
                            EditorActionModel {
                                action_type: ActionModel::InsertNewline { x: cb.x, y: cb.y, remaining_text: tail },
                                cursor_before: cb,
                                cursor_after: Cursor { x: 0, y: (cb.y + 1) as usize },
                            },
                        );
                    }
                    tab.cursor.y = tab.cursor.y + 1;
                    tab.cursor.x = 0;
                }
            } else {
                self.tabs[i].cursor.x = 0;
            }
            proof {
                if ok {
                    assert(extended_to(t, y) == t);
                    if after {
                        assert(t.update(y, t[y]).insert(y + 1, Seq::<char>::empty()) =~= pre + seq![mid] + post);
                    } else {
                        assert(t =~= pre + seq![mid] + post);
                    }
                    assert(ls.take(0) =~= Seq::<Seq<char>>::empty());
                }
            }
            let lines = std_lines_of(content.as_str());
            let mut k: usize = 0;
            while k < lines.len()
                invariant
                    i == self.current_tab,
                    self.wf(),
                    self.only_tab_changed(old(self)),
                    k <= lines@.len(),
                    crate::text::text_of(lines@) == ls,
                    ok == lines_fit(t, y, ls),
                    self.tab().buffer.history == old(self).tab().buffer.history || some_recorded(
                        old(self).tab().buffer.history,
                        self.tab().buffer.history,
                    ),
                    ok && after ==> some_recorded(old(self).tab().buffer.history, self.tab().buffer.history),
                    ok && k > 0 && (ls.len() > 1 || ls[0].len() > 0) ==> some_recorded(
                        old(self).tab().buffer.history,
                        self.tab().buffer.history,
                    ),
                    ok ==> pre.len() == base && base < usize::MAX - 1,
                    base == (if after { y + 1 } else { y }),
                    mid == (if after { Seq::<char>::empty() } else { t[y] }),
                    t == old(self).tab().buffer.text(),
                    y == cursor_y,
                    ok && k < lines@.len() ==> {
                        &&& self.tab().buffer.text() == pre + ls.take(k as int) + seq![mid] + post
                        &&& self.tab().cursor == (Cursor { x: 0, y: (base + k) as usize })
                    },
                    ok && k == lines@.len() ==> self.tab().buffer.text() == pre + ls.drop_last() + seq![ls.last() + mid] + post,
                decreases lines.len() - k,
            {
                let ghost before = self.tab().buffer.text();
                let ghost cur_before = self.tab().cursor;
                let ghost h_before = self.tab().buffer.history;
                self.insert_text_chars(lines[k].as_str());
                proof {
                    let h0 = old(self).tab().buffer.history;
                    if h_before != h0 && self.tab().buffer.history != h_before {
                        lemma_some_recorded_trans(h0, h_before, self.tab().buffer.history);
                    }
                    if ok && lines@[k as int]@.len() > 0 {
                        assert(ls[k as int] == lines@[k as int]@);
                        assert(cur_before.x == 0 && cur_before.y == base + k);
                        if h_before != h0 {
                            lemma_some_recorded_trans(h0, h_before, self.tab().buffer.history);
                        }
                    }
                }
                proof {
                    if ok {
                        let row = base + k;
                        assert(cur_before.x == 0 && cur_before.y == row);
                        assert(lines@[k as int]@.len() + 2 < usize::MAX) by {
                            assert(ls[k as int] == lines@[k as int]@);
                        }
                        assert(cur_before.x + lines@[k as int]@.len() < usize::MAX);
                        assert(self.tab().buffer.text() == text_typed(before, 0, row, lines@[k as int]@));
                        assert(ls[k as int] == lines@[k as int]@);
                        assert(lines@[k as int]@.len() + 2 < usize::MAX);
                        assert(before[row] == mid);
                        assert(row < before.len());
                        assert(extended_to(before, row) == before);
                        let w = pre + ls.take(k as int) + seq![mid] + post;
                        assert(before == w);
                        assert(w.update(row, ls[k as int] + mid) =~= pre + ls.take(k as int) + seq![ls[k as int] + mid] + post);
                        if ls[k as int].len() == 0 {
                            assert(ls[k as int] + mid =~= mid);
                            assert(w =~= pre + ls.take(k as int) + seq![ls[k as int] + mid] + post);
                        } else {
                            assert(line_typed(mid, 0, ls[k as int]) =~= ls[k as int] + mid);
                        }
                        assert(self.tab().buffer.text() == pre + ls.take(k as int) + seq![ls[k as int] + mid] + post);
                    }
                }
                if k + 1 < lines.len() {
                    let ghost typed_text = self.tab().buffer.text();
                    let ghost typed_cursor = self.tab().cursor;
                    let tab = &mut self.tabs[i];
                    if tab.cursor.y < usize::MAX - 1 {
                        let ghost hb = tab.buffer.history;
                        let ghost cb = tab.cursor;
                        let ghost tb = extended_to(tab.buffer.text(), cb.y as int);
                        tab.buffer.insert_newline_at_cursor(&tab.cursor);
                        proof {
                            let l = tb[cb.y as int];
                            let tail = if cb.x < l.len() {
                                l.subrange(cb.x as int, l.len() as int)
                            } else {
                                Seq::<char>::empty()
                            };
                            let a = EditorActionModel {
                                action_type: ActionModel::InsertNewline { x: cb.x, y: cb.y, remaining_text: tail },
                                cursor_before: cb,
                                cursor_after: Cursor { x: 0, y: (cb.y + 1) as usize },
                            };
                            let h0 = old(self).tab().buffer.history;
                            if hb == h0 {
                                lemma_recorded_some(hb, tab.buffer.history, a);
                            } else {
                                lemma_recorded_more(h0, hb, tab.buffer.history, a);
                            }
                        }
                        tab.cursor.y = tab.cursor.y + 1;
                        tab.cursor.x = 0;
                    }
                    proof {
                        if ok {
                            let row = base + k;
                            let l = ls[k as int] + mid;
                            assert(typed_cursor == (Cursor { x: ls[k as int].len() as usize, y: row as usize }));
                            assert(typed_text[row] == l);
                            if mid.len() == 0 {
                                assert(l =~= ls[k as int]);
                                assert(mid =~= Seq::<char>::empty());
                            }
                            assert(extended_to(typed_text, row) == typed_text);
                            assert(l.subrange(0, ls[k as int].len() as int) =~= ls[k as int]);
                            assert(l.subrange(ls[k as int].len() as int, l.len() as int) =~= mid);
                            assert(ls.take(k + 1) =~= ls.take(k as int).push(ls[k as int]));
                            let w = pre + ls.take(k as int) + seq![l] + post;
                            assert(typed_text == w);
                            assert(w.update(row, ls[k as int]).insert(row + 1, mid) =~= pre + ls.take(k + 1) + seq![mid] + post);
                            assert(self.tabs@[i as int].buffer.text() == pre + ls.take(k + 1) + seq![mid] + post);
                        }
                    }
                } else {
                    proof {
                        if ok {
                            assert(ls.take(k as int) =~= ls.drop_last());
                            assert(ls[k as int] == ls.last());
                        }
                    }
                }
                k += 1;
            }
            let tab = &mut self.tabs[i];
            tab.cursor.y = if after && cursor_y < usize::MAX {
                cursor_y + 1
            } else {
                cursor_y
            };
            tab.cursor.x = 0;
            proof {
                if ok && after {
                    assert(ls.drop_last() + seq![ls.last() + mid] =~= ls);
                    assert(t.take(y + 1) + ls.drop_last() + seq![ls.last() + mid] + post =~= t.take(y + 1) + ls + post);
                }
            }
        } else {
            if !after && cursor_x > 0 {
                self.tabs[i].cursor.x = cursor_x - 1;
            }
            self.insert_text_chars(content.as_str());
            if !after && cursor_x > 0 {
                self.tabs[i].cursor.x = cursor_x;
            }
        }
        self.tabs[i].update_viewport();
        self.highlight_stale = true;
    }

    /// Inserts the characters of `s` one by one at the current tab's cursor,
    /// which moves one column on after each. (It stops before the column
    /// would pass `usize::MAX`.)
    fn insert_text_chars(&mut self, s: &str)
        requires
            old(self).wf(),
        ensures
            final(self).wf(),
            final(self).only_tab_changed(old(self)),
            ({
                let c = old(self).tab().cursor;
                c.x + s@.len() < usize::MAX && c.y < usize::MAX ==> {
                    &&& final(self).tab().buffer.text() == text_typed(
                        old(self).tab().buffer.text(),
                        c.x as int,
                        c.y as int,
                        s@,
                    )
                    &&& final(self).tab().cursor == (Cursor { x: (c.x + s@.len()) as usize, y: c.y })
                }
            }),
            final(self).tab().buffer.history == old(self).tab().buffer.history || some_recorded(
                old(self).tab().buffer.history,
                final(self).tab().buffer.history,
            ),
            ({
                let c = old(self).tab().cursor;
                c.x + s@.len() < usize::MAX && c.y < usize::MAX && s@.len() > 0 ==> some_recorded(
                    old(self).tab().buffer.history,
                    final(self).tab().buffer.history,
                )
            }),
    {
        let chars = chars_of(s);
        let i = self.current_tab;
        let ghost t0 = self.tab().buffer.text();
        let ghost c0 = self.tab().cursor;
        let mut k: usize = 0;
        while k < chars.len()
            invariant
                i == self.current_tab,
                self.wf(),
                self.only_tab_changed(old(self)),
                k <= chars@.len(),
                chars@ == s@,
                t0 == old(self).tab().buffer.text(),
                c0 == old(self).tab().cursor,
                c0.x + s@.len() < usize::MAX && c0.y < usize::MAX ==> {
                    &&& self.tab().buffer.text() == text_typed(t0, c0.x as int, c0.y as int, s@.take(k as int))
                    &&& self.tab().cursor == (Cursor { x: (c0.x + k) as usize, y: c0.y })
                },
                self.tab().buffer.history == old(self).tab().buffer.history || some_recorded(
                    old(self).tab().buffer.history,
                    self.tab().buffer.history,
                ),
                c0.x + s@.len() < usize::MAX && c0.y < usize::MAX && k > 0 ==> some_recorded(
                    old(self).tab().buffer.history,
                    self.tab().buffer.history,
                ),
            decreases chars.len() - k,
        {
            let tab = &mut self.tabs[i];
            if tab.cursor.x < usize::MAX - 1 && tab.cursor.y < usize::MAX {
                let ghost before = tab.buffer.text();
                let ghost h_before = tab.buffer.history;
                tab.buffer.insert_char_at_cursor(chars[k], &tab.cursor);
                proof {
                    let h0 = old(self).tab().buffer.history;
                    let a = EditorActionModel {
                        action_type: ActionModel::InsertChar { x: tab.cursor.x, y: tab.cursor.y, c: chars@[k as int] },
                        cursor_before: tab.cursor,
                        cursor_after: Cursor { x: (tab.cursor.x + 1) as usize, y: tab.cursor.y },
                    };
                    if h_before == h0 {
                        lemma_recorded_some(h0, tab.buffer.history, a);
                    } else {
                        lemma_recorded_more(h0, h_before, tab.buffer.history, a);
                    }
                }
                tab.cursor.x = tab.cursor.x + 1;
                proof {
                    if c0.x + s@.len() < usize::MAX && c0.y < usize::MAX {
                        let p = s@.take(k as int);
                        let y = c0.y as int;
                        assert(s@.take(k + 1) =~= p.push(chars@[k as int]));
                        let t1 = extended_to(t0, y);
                        lemma_line_typed_push(t1[y], c0.x as int, p, chars@[k as int]);
                        if k == 0 {
                            assert(p =~= Seq::<char>::empty());
                            assert(before == t0);
                        } else {
                            assert(before == t1.update(y, line_typed(t1[y], c0.x as int, p)));
                            assert(extended_to(before, y) == before);
                        }
                        assert(self.tabs@[i as int].buffer.text() =~= text_typed(t0, c0.x as int, c0.y as int, s@.take(k + 1)));
                    }
                }
            }
            k += 1;
        }
        assert(s@.take(chars@.len() as int) =~= s@);
    }
}

} // verus!
