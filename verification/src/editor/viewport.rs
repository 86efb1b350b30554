use vstd::prelude::*;

verus! {

/// The window of lines and columns that is on screen.
#[derive(Clone)]
pub struct Viewport {
    /// First visible line.
    pub top_line: usize,
    /// Number of visible lines.
    pub height: usize,
    /// First visible column.
    pub left_column: usize,
    /// Number of visible columns.
    pub width: usize,
}

/// The first visible index after scrolling a window of size `size`, whose first
/// visible index is `first`, just far enough to show `pos`.
pub open spec fn scroll_to_show(first: int, size: int, pos: int) -> int {
    if pos < first {
        pos
    } else if pos >= first + size {
        pos - size + 1
    } else {
        first
    }
}

/// The greatest top line that `scroll_down` allows for `max_line` lines.
pub open spec fn max_top_line(max_line: int, height: int) -> int {
    if max_line > height {
        max_line - height + 1
    } else {
        0
    }
}

impl Viewport {
    pub fn new() -> (v: Self)
        ensures
            v.top_line == 0,
            v.height == 0,
            v.left_column == 0,
            v.width == 0,
    {
        Viewport { top_line: 0, height: 0, left_column: 0, width: 0 }
    }

    pub fn update_dimensions(&mut self, width: usize, height: usize)
        ensures
            final(self).width == width,
            final(self).height == height,
            final(self).top_line == old(self).top_line,
            final(self).left_column == old(self).left_column,
    {
        self.width = width;
        self.height = height;
    }

    /// Scrolls just far enough that the cursor at (`cursor_y`, `cursor_x`) is visible.
    pub fn ensure_cursor_visible(&mut self, cursor_y: usize, cursor_x: usize)
        requires
            old(self).top_line + old(self).height <= usize::MAX,
            old(self).left_column + old(self).width <= usize::MAX,
            cursor_y - old(self).height + 1 <= usize::MAX,
            cursor_x - old(self).width + 1 <= usize::MAX,
        ensures
            final(self).top_line == scroll_to_show(
                old(self).top_line as int,
                old(self).height as int,
                cursor_y as int,
            ),
            final(self).left_column == scroll_to_show(
                old(self).left_column as int,
                old(self).width as int,
                cursor_x as int,
            ),
            final(self).height == old(self).height,
            final(self).width == old(self).width,
    {
        if cursor_y < self.top_line {
            self.top_line = cursor_y;
        } else if cursor_y >= self.top_line + self.height {
            self.top_line = cursor_y - self.height + 1;
        }
        if cursor_x < self.left_column {
            self.left_column = cursor_x;
        } else if cursor_x >= self.left_column + self.width {
            self.left_column = cursor_x - self.width + 1;
        }
    }

    pub fn scroll_up(&mut self, lines: usize)
        ensures
            final(self).top_line == (if old(self).top_line > lines {
                old(self).top_line - lines
            } else {
                0
            }),
            final(self).height == old(self).height,
            final(self).width == old(self).width,
            final(self).left_column == old(self).left_column,
    {
        if self.top_line > lines {
            self.top_line -= lines;
        } else {
            self.top_line = 0;
        }
    }

    pub fn scroll_down(&mut self, lines: usize, max_line: usize)
        requires
            max_line - old(self).height + 1 <= usize::MAX,
        ensures
            final(self).top_line == (if old(self).top_line + lines <= max_top_line(
                max_line as int,
                old(self).height as int,
            ) {
                old(self).top_line + lines
            } else {
                max_top_line(max_line as int, old(self).height as int)
            }),
            final(self).height == old(self).height,
            final(self).width == old(self).width,
            final(self).left_column == old(self).left_column,
    {
        let max_top = if max_line > self.height {
            max_line - self.height + 1
        } else {
            0
        };
        if self.top_line <= max_top && lines <= max_top - self.top_line {
            self.top_line += lines;
        } else {
            self.top_line = max_top;
        }
    }

    /// The range of line indices `[start, end)` that is on screen.
    pub fn get_visible_range(&self, total_lines: usize) -> (r: (usize, usize))
        requires
            self.top_line + self.height <= usize::MAX,
        ensures
            r.0 == self.top_line,
            r.1 == (if self.top_line + self.height < total_lines {
                self.top_line + self.height
            } else {
                total_lines as int
            }),
    {
        let start = self.top_line;
        let bottom = self.top_line + self.height;
        let end = if bottom < total_lines { bottom } else { total_lines };
        (start, end)
    }
}

} // verus!
