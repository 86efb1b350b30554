use vstd::prelude::*;
use super::buffer::{Buffer, line_len};

verus! {

/// A position in a buffer: `y` is the line, `x` the column.
#[derive(Debug, Clone, Copy)]
pub struct Cursor {
    pub x: usize,
    pub y: usize,
}

impl Cursor {
    pub fn new() -> (c: Self)
        ensures
            c.x == 0,
            c.y == 0,
    {
        Cursor { x: 0, y: 0 }
    }

    /// One column left, unless at column 0.
    pub fn move_left(&mut self, _buffer: &Buffer)
        ensures
            final(self).y == old(self).y,
            final(self).x == if old(self).x > 0 {
                old(self).x - 1
            } else {
                0
            },
    {
        if self.x > 0 {
            self.x -= 1;
        }
    }

    /// One column right, up to the end of the line.
    pub fn move_right(&mut self, buffer: &Buffer)
        ensures
            final(self).y == old(self).y,
            final(self).x == if old(self).x < line_len(buffer.text(), old(self).y as int) {
                old(self).x + 1
            } else {
                old(self).x as int
            },
    {
        let line_length = buffer.line_length(self.y);
        if self.x < line_length {
            self.x += 1;
        }
    }

    /// One line up, unless on the first line; the column is kept within the new line.
    pub fn move_up(&mut self, buffer: &Buffer)
        ensures
            old(self).y == 0 ==> *final(self) == *old(self),
            old(self).y > 0 ==> final(self).y == old(self).y - 1 && final(self).x == if old(self).x > line_len(buffer.text(), old(self).y - 1) {
                line_len(buffer.text(), old(self).y - 1)
            } else {
                old(self).x as int
            },
    {
        if self.y > 0 {
            self.y -= 1;
            let line_length = buffer.line_length(self.y);
            if self.x > line_length {
                self.x = line_length;
            }
        }
    }

    /// One line down, unless on the last line; the column is kept within the new line.
    pub fn move_down(&mut self, buffer: &Buffer)
        requires
            buffer.text().len() > 0,
        ensures
            old(self).y + 1 >= buffer.text().len() ==> *final(self) == *old(self),
            old(self).y + 1 < buffer.text().len() ==> final(self).y == old(self).y + 1
                && final(self).x == if old(self).x > line_len(buffer.text(), old(self).y + 1) {
                line_len(buffer.text(), old(self).y + 1)
            } else {
                old(self).x as int
            },
    {
        if self.y < buffer.line_count() - 1 {
            self.y += 1;
            let line_length = buffer.line_length(self.y);
            if self.x > line_length {
                self.x = line_length;
            }
        }
    }

    /// Column 0 of the current line.
    pub fn move_to_line_start(&mut self, _buffer: &Buffer)
        ensures
            final(self).x == 0,
            final(self).y == old(self).y,
    {
        self.x = 0;
    }

    /// The end of the current line.
    pub fn move_to_line_end(&mut self, buffer: &Buffer)
        ensures
            final(self).x == line_len(buffer.text(), old(self).y as int),
            final(self).y == old(self).y,
    {
        self.x = buffer.line_length(self.y);
    }

    /// The start of the buffer.
    pub fn move_to_file_start(&mut self, _buffer: &Buffer)
        ensures
            final(self).x == 0,
            final(self).y == 0,
    {
        self.x = 0;
        self.y = 0;
    }

    /// The end of the last line.
    pub fn move_to_file_end(&mut self, buffer: &Buffer)
        ensures
            final(self).y == if buffer.text().len() > 0 {
                buffer.text().len() - 1
            } else {
                0
            },
            final(self).x == line_len(buffer.text(), final(self).y as int),
    {
        let n = buffer.line_count();
        self.y = if n > 0 { n - 1 } else { 0 };
        self.x = buffer.line_length(self.y);
    }
}

} // verus!
