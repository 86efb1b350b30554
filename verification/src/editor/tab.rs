//! An editor tab: a buffer with its cursor, viewport and diagnostics, and the
//! operations that the editor's keys run on it.

use vstd::prelude::*;
use super::buffer::{Buffer, line_deleted, line_len};
use super::cursor::Cursor;
use super::diagnostics::{Diagnostic, DiagnosticCollection, DiagnosticSeverity, has_problems, next_line_of, prev_line_of};
use super::viewport::{Viewport, scroll_to_show};
use crate::text::{chars_of, text_of};

verus! {

/// Whether `n` is tab `o` after moving to its next (or previous) line with
/// diagnostics, wrapping around (see [`next_line_of`]): the cursor goes to
/// the column where that line's first diagnostic starts, keeping its column
/// when the line has none. Nothing changes when there are no diagnostics.
pub open spec fn went_to_diagnostic(o: Tab, n: Tab, forward: bool) -> bool {
    let m = o.diagnostics.by_line();
    &&& n.buffer == o.buffer
    &&& n.diagnostics == o.diagnostics
    &&& m.dom().len() == 0 ==> n == o
    &&& m.dom().len() > 0 ==> {
        &&& forward ==> next_line_of(m, o.cursor.y, n.cursor.y)
        &&& !forward ==> prev_line_of(m, o.cursor.y, n.cursor.y)
        &&& n.cursor.x == (if m[n.cursor.y].len() > 0 {
            m[n.cursor.y][0].span.start_column
        } else {
            o.cursor.x
        })
    }
}

/// Whether `n` is tab `o` after deleting the cursor's line: the line goes
/// (an emptied buffer keeps one empty line) and the deletion is recorded
/// (see [`line_deleted`]); the cursor stays on the same line number, or on
/// the last line, and within the line.
pub open spec fn cursor_line_deleted(o: Tab, n: Tab) -> bool {
    &&& n.diagnostics == o.diagnostics
    &&& n.buffer.same_settings(&o.buffer)
    &&& line_deleted(o.buffer, n.buffer, o.cursor.y)
    &&& ({
        let t = o.buffer.text();
        let y = o.cursor.y as int;
        y < t.len() ==> n.buffer.text() == (if t.remove(y).len() == 0 {
            seq![Seq::<char>::empty()]
        } else {
            t.remove(y)
        })
    })
    &&& ({
        let count = n.buffer.text().len();
        let y = if o.cursor.y >= count {
            if count > 0 { count - 1 } else { 0 }
        } else {
            o.cursor.y as int
        };
        let len = line_len(n.buffer.text(), y);
        &&& n.cursor.y == y
        &&& n.cursor.x == (if o.cursor.x > len {
            if len > 0 { len - 1 } else { 0 }
        } else {
            o.cursor.x as int
        })
    })
}

/// Whether `n` is tab `o` after moving up a page (see [`page_size`]),
/// stopping at the first line.
pub open spec fn paged_up(o: Tab, n: Tab) -> bool {
    &&& n.buffer == o.buffer
    &&& n.diagnostics == o.diagnostics
    &&& n.cursor.y == o.cursor.y - (if o.cursor.y < page_size(o.viewport.height) {
        o.cursor.y as int
    } else {
        page_size(o.viewport.height)
    })
}

/// Whether `n` is tab `o` after moving down a page (see [`page_size`]),
/// stopping at the last line.
pub open spec fn paged_down(o: Tab, n: Tab) -> bool {
    &&& n.buffer == o.buffer
    &&& n.diagnostics == o.diagnostics
    &&& o.buffer.text().len() > 0 && o.cursor.y < o.buffer.text().len() ==> n.cursor.y == o.cursor.y + (if o.buffer.text().len()
        - 1 - o.cursor.y < page_size(o.viewport.height) {
        o.buffer.text().len() - 1 - o.cursor.y
    } else {
        page_size(o.viewport.height) as int
    })
}

/// The first line of the viewport that shows `line` a third of the way
/// down a viewport of `height` lines (0 when `line` is near the top).
pub open spec fn centered_top(line: int, height: int) -> int {
    if line > height / 3 {
        line - height / 3
    } else {
        0
    }
}

/// Whether tab `t` holds nothing worth keeping: an unmodified buffer with no
/// text and no name, or a name starting with `untitled-`.
pub open spec fn unused(t: Tab) -> bool {
    &&& !t.buffer.is_modified
    &&& t.buffer.text().len() == 0 || (t.buffer.text().len() == 1 && t.buffer.text()[0].len() == 0)
    &&& match t.buffer.file_path {
        None => true,
        Some(p) => untitled(p@),
    }
}

/// A buffer with its cursor, viewport and diagnostics.
pub struct Tab {
    pub buffer: Buffer,
    pub cursor: Cursor,
    pub viewport: Viewport,
    pub diagnostics: DiagnosticCollection,
}

impl Tab {
    /// The tab's invariant: a well-formed buffer, and a viewport whose far
    /// edges are within `usize`.
    pub open spec fn wf(&self) -> bool {
        &&& self.buffer.wf()
        &&& self.viewport.top_line + self.viewport.height <= usize::MAX
        &&& self.viewport.left_column + self.viewport.width <= usize::MAX
    }

    /// An empty tab.
    pub fn new() -> (t: Self)
        ensures
            t.wf(),
            t.buffer.text() == seq![Seq::<char>::empty()],
            t.buffer.file_path is None,
            !t.buffer.is_modified,
            t.buffer.selection_start is None,
            t.buffer.modified_lines@ == Set::<usize>::empty(),
            t.buffer.syntax is None,
            t.buffer.history.actions().len() == 0,
            t.buffer.history.index() == 0,
            !t.buffer.history.replaying(),
            t.cursor.x == 0 && t.cursor.y == 0,
            t.viewport.top_line == 0 && t.viewport.left_column == 0,
            t.viewport.height == 0 && t.viewport.width == 0,
            t.diagnostics.by_line() == Map::<usize, Seq<Diagnostic>>::empty(),
    {
        Tab {
            buffer: Buffer::new(),
            cursor: Cursor::new(),
            viewport: Viewport::new(),
            diagnostics: DiagnosticCollection::new(),
        }
    }

    /// An empty tab whose buffer is named `name`.
    pub fn new_with_name(name: &str) -> (t: Self)
        ensures
            t.wf(),
            t.buffer.text() == seq![Seq::<char>::empty()],
            t.buffer.file_path matches Some(p) && p@ == name@,
            !t.buffer.is_modified,
            t.buffer.selection_start is None,
            t.buffer.modified_lines@ == Set::<usize>::empty(),
            t.buffer.syntax is None,
            t.buffer.history.actions().len() == 0,
            t.buffer.history.index() == 0,
            !t.buffer.history.replaying(),
            t.cursor.x == 0 && t.cursor.y == 0,
            t.viewport.top_line == 0 && t.viewport.left_column == 0,
            t.viewport.height == 0 && t.viewport.width == 0,
            t.diagnostics.by_line() == Map::<usize, Seq<Diagnostic>>::empty(),
    {
        let mut tab = Tab::new();
        tab.buffer.file_path = Some(name.to_owned());
        tab
    }

    /// Scrolls the viewport just far enough to show the cursor. (A cursor at
    /// `usize::MAX`, which no buffer reaches, leaves the viewport as it is.)
    pub fn update_viewport(&mut self)
        requires
            old(self).wf(),
        ensures
            final(self).wf(),
            final(self).buffer == old(self).buffer,
            final(self).cursor == old(self).cursor,
            final(self).diagnostics == old(self).diagnostics,
            final(self).viewport.height == old(self).viewport.height,
            final(self).viewport.width == old(self).viewport.width,
            old(self).cursor.y < usize::MAX && old(self).cursor.x < usize::MAX ==> {
                &&& final(self).viewport.top_line == scroll_to_show(
                    old(self).viewport.top_line as int,
                    old(self).viewport.height as int,
                    old(self).cursor.y as int,
                )
                &&& final(self).viewport.left_column == scroll_to_show(
                    old(self).viewport.left_column as int,
                    old(self).viewport.width as int,
                    old(self).cursor.x as int,
                )
            },
    {
        if self.cursor.y < usize::MAX && self.cursor.x < usize::MAX {
            let y = self.cursor.y;
            let x = self.cursor.x;
            self.viewport.ensure_cursor_visible(y, x);
        }
    }

    /// Puts the cursor at (`column`, `line`) with `line` a third of the way
    /// down the viewport, then scrolls to show the cursor. (A first line
    /// whose viewport would end past `usize::MAX` is not set.)
    pub fn center_on(&mut self, line: usize, column: usize)
        requires
            old(self).wf(),
        ensures
            final(self).wf(),
            final(self).buffer == old(self).buffer,
            final(self).diagnostics == old(self).diagnostics,
            final(self).cursor.y == line,
            final(self).cursor.x == column,
            final(self).viewport.height == old(self).viewport.height,
            final(self).viewport.width == old(self).viewport.width,
            ({
                let top = centered_top(line as int, old(self).viewport.height as int);
                top + old(self).viewport.height <= usize::MAX && line < usize::MAX && column
                    < usize::MAX ==> final(self).viewport.top_line == scroll_to_show(
                    top,
                    old(self).viewport.height as int,
                    line as int,
                )
            }),
    {
        self.cursor.y = line;
        self.cursor.x = column;
        let desired_offset = self.viewport.height / 3;
        let top = if line > desired_offset {
            line - desired_offset
        } else {
            0
        };
        if top <= usize::MAX - self.viewport.height {
            self.viewport.top_line = top;
        }
        self.update_viewport();
    }

    /// Puts the cursor at the start of the buffer and scrolls to the top left.
    pub fn reset_position(&mut self)
        requires
            old(self).wf(),
        ensures
            final(self).wf(),
            final(self).buffer == old(self).buffer,
            final(self).diagnostics == old(self).diagnostics,
            final(self).cursor.x == 0 && final(self).cursor.y == 0,
            final(self).viewport.top_line == 0 && final(self).viewport.left_column == 0,
            final(self).viewport.height == old(self).viewport.height,
            final(self).viewport.width == old(self).viewport.width,
    {
        self.cursor.x = 0;
        self.cursor.y = 0;
        self.viewport.top_line = 0;
        self.viewport.left_column = 0;
    }

    /// Whether the tab holds nothing worth keeping: an unmodified buffer with
    /// no text and no name, or a name starting with `untitled-`.
    pub fn is_unused(&self) -> (r: bool)
        ensures
            r == unused(*self),
    {
        let empty_text = self.buffer.lines.len() == 0 || (self.buffer.lines.len() == 1 && chars_of(
            self.buffer.lines[0].as_str(),
        ).len() == 0);
        let unnamed = match &self.buffer.file_path {
            None => true,
            Some(p) => is_untitled(p.as_str()),
        };
        !self.buffer.is_modified && empty_text && unnamed
    }

    /// Moves to the next (or previous) line with diagnostics, wrapping around
    /// (see [`DiagnosticCollection::next_diagnostic_line`]): the cursor goes
    /// to the column where the line's first diagnostic starts, keeping its
    /// column when the line has none, and the line is shown a third of the way
    /// down the viewport. Nothing happens when there are no diagnostics.
    pub fn goto_diagnostic(&mut self, forward: bool)
        requires
            old(self).wf(),
        ensures
            final(self).wf(),
            went_to_diagnostic(*old(self), *final(self), forward),
    {
        let target = if forward {
            self.diagnostics.next_diagnostic_line(self.cursor.y)
        } else {
            self.diagnostics.prev_diagnostic_line(self.cursor.y)
        };
        match target {
            Some(line) => {
                let column = match self.diagnostics.get_diagnostics_for_line(line) {
                    Some(v) => if v.len() > 0 {
                        v[0].span.start_column
                    } else {
                        self.cursor.x
                    },
                    None => self.cursor.x,
                };
                self.center_on(line, column);
            },
            None => {},
        }
    }

    /// Takes `diagnostics` as the tab's. When they hold an error or a
    /// warning, the cursor goes to the first line with diagnostics, at the
    /// column where its first one starts, shown a third of the way down the
    /// viewport; returns whether they do.
    pub fn take_diagnostics(&mut self, diagnostics: DiagnosticCollection) -> (problems: bool)
        requires
            old(self).wf(),
        ensures
            final(self).wf(),
            final(self).buffer == old(self).buffer,
            final(self).diagnostics == diagnostics,
            problems == has_problems(diagnostics.by_line()),
            !problems ==> final(self).cursor == old(self).cursor && final(self).viewport
                == old(self).viewport,
            problems ==> {
                &&& diagnostics.by_line().contains_key(final(self).cursor.y)
                &&& forall|l: usize| diagnostics.by_line().contains_key(l) ==> final(self).cursor.y <= l
                &&& final(self).cursor.x == (if diagnostics.by_line()[final(self).cursor.y].len() > 0 {
                    diagnostics.by_line()[final(self).cursor.y][0].span.start_column
                } else {
                    0
                })
            },
    {
        self.diagnostics = diagnostics;
        let problems = self.diagnostics.has_problems();
        if problems {
            let lines = self.diagnostics.get_diagnostic_line_numbers();
            proof {
                let l = choose|l: usize, i: int|
                    self.diagnostics.by_line().contains_key(l) && 0 <= i
                        < self.diagnostics.by_line()[l].len() && (
                    #[trigger] self.diagnostics.by_line()[l][i].severity == DiagnosticSeverity::Error
                        || self.diagnostics.by_line()[l][i].severity == DiagnosticSeverity::Warning);
                assert(lines@.to_set().contains(l.0));
            }
            if lines.len() > 0 {
                let first_line = lines[0];
                proof {
                    assert(lines@.to_set().contains(first_line));
                    assert forall|l: usize| self.diagnostics.by_line().contains_key(l) implies first_line <= l by {
                        assert(lines@.to_set().contains(l));
                        let p = choose|p: int| 0 <= p < lines@.len() && lines@[p] == l;
                        if p > 0 {}
                    }
                }
                let first_column = match self.diagnostics.get_diagnostics_for_line(first_line) {
                    Some(v) => if v.len() > 0 {
                        v[0].span.start_column
                    } else {
                        0
                    },
                    None => 0,
                };
                self.center_on(first_line, first_column);
            }
        }
        problems
    }

    /// Deletes the cursor's line (see [`Buffer::delete_line`]), then keeps the
    /// cursor on a line: past the last line it goes to the last, and past the
    /// end of its line to the line's last character (column 0 on an empty line).
    pub fn delete_cursor_line(&mut self)
        requires
            old(self).wf(),
        ensures
            final(self).wf(),
            cursor_line_deleted(*old(self), *final(self)),
    {
        let y = self.cursor.y;
        self.buffer.delete_line(y);
        let count = self.buffer.line_count();
        if self.cursor.y >= count {
            self.cursor.y = if count > 0 { count - 1 } else { 0 };
        }
        let line_len = self.buffer.line_length(self.cursor.y);
        if self.cursor.x > line_len {
            self.cursor.x = if line_len > 0 { line_len - 1 } else { 0 };
        }
        self.update_viewport();
    }

    /// Moves the cursor up by a page (the viewport's height, at least one
    /// line), stopping at the first line.
    pub fn page_up(&mut self)
        requires
            old(self).wf(),
        ensures
            final(self).wf(),
            paged_up(*old(self), *final(self)),
    {
        let page = if self.viewport.height > 1 { self.viewport.height } else { 1 };
        let mut k: usize = 0;
        let ghost y0 = self.cursor.y;
        while k < page && self.cursor.y > 0
            invariant
                k <= page,
                page == page_size(old(self).viewport.height),
                self.buffer == old(self).buffer,
                self.diagnostics == old(self).diagnostics,
                self.viewport == old(self).viewport,
                old(self).wf(),
                self.cursor.y == y0 - k,
                k <= y0,
                y0 == old(self).cursor.y,
            decreases page - k,
        {
            self.cursor.move_up(&self.buffer);
            k += 1;
        }
        self.update_viewport();
    }

    /// Moves the cursor down by a page (the viewport's height, at least one
    /// line), stopping at the last line.
    pub fn page_down(&mut self)
        requires
            old(self).wf(),
        ensures
            final(self).wf(),
            paged_down(*old(self), *final(self)),
    {
        let page = if self.viewport.height > 1 { self.viewport.height } else { 1 };
        let count = self.buffer.line_count();
        if count == 0 {
            self.update_viewport();
            return;
        }
        let mut k: usize = 0;
        let ghost y0 = self.cursor.y;
        while k < page && self.cursor.y < count - 1
            invariant
                k <= page,
                page == page_size(old(self).viewport.height),
                count == self.buffer.text().len(),
                count > 0,
                self.buffer == old(self).buffer,
                self.diagnostics == old(self).diagnostics,
                self.viewport == old(self).viewport,
                old(self).wf(),
                y0 == old(self).cursor.y,
                y0 < count ==> self.cursor.y == y0 + k && y0 + k <= count - 1,
                y0 >= count ==> self.cursor.y == y0,
            decreases page - k,
        {
            self.cursor.move_down(&self.buffer);
            k += 1;
        }
        self.update_viewport();
    }
}

/// The number of lines a page moves: the viewport's height, at least one.
pub open spec fn page_size(height: usize) -> int {
    if height > 1 {
        height as int
    } else {
        1
    }
}

/// Whether `p` starts with `untitled-`, the prefix of the names of new buffers.
pub open spec fn untitled(p: Seq<char>) -> bool {
    "untitled-"@.is_prefix_of(p)
}

/// Whether `s` starts with `prefix`.
pub fn starts_with(s: &str, prefix: &str) -> (r: bool)
    ensures
        r == prefix@.is_prefix_of(s@),
{
    let v = chars_of(s);
    let w = chars_of(prefix);
    if w.len() > v.len() {
        return false;
    }
    let mut i: usize = 0;
    while i < w.len()
        invariant
            i <= w@.len() <= v@.len(),
            v@ == s@,
            w@ == prefix@,
            forall|k: int| 0 <= k < i ==> v@[k] == w@[k],
        decreases w.len() - i,
    {
        if v[i] != w[i] {
            return false;
        }
        i += 1;
    }
    assert(prefix@ =~= s@.take(prefix@.len() as int));
    true
}

/// Whether `p` starts with `untitled-`.
pub fn is_untitled(p: &str) -> (r: bool)
    ensures
        r == untitled(p@),
{
    starts_with(p, "untitled-")
}

} // verus!
