//! A minimal line-oriented text buffer: text split into rows of
//! characters and a cursor that moves within them, never out of bounds.

use vstd::prelude::*;
use crate::text;

verus! {

/// A text buffer and a cursor location (column, row).
#[derive(Debug)]
pub struct TextEditor {
    pub text: Vec<Vec<char>>,
    pub cursor_loc: (usize, usize),
}

impl TextEditor {
    /// The cursor stays on a real row, and within one past that row's end
    /// (an empty buffer pins it at the origin).
    pub open spec fn wf(&self) -> bool {
        if self.text@.len() == 0 {
            self.cursor_loc == (0usize, 0usize)
        } else {
            (self.cursor_loc.1 as int) < self.text@.len() && self.cursor_loc.0 as int
                <= self.text@[self.cursor_loc.1 as int]@.len()
        }
    }

    /// Splits the text into rows on newlines (keeping empty rows) and
    /// puts the cursor at the origin.
    pub fn new(text: &str) -> (e: Self)
        ensures
            e.text.deep_view() == text::split_char(text@, '\n'),
            e.cursor_loc == (0usize, 0usize),
            e.wf(),
    {
        let rows = text::split_on(text, '\n');
        let mut grid: Vec<Vec<char>> = Vec::new();
        let n = rows.len();
        let mut i: usize = 0;
        while i < n
            invariant
                0 <= i <= n,
                n == rows@.len(),
                grid.deep_view() == rows.deep_view().take(i as int),
            decreases n - i,
        {
            let row = rows[i].as_str();
            let len = row.unicode_len();
            let mut chars: Vec<char> = Vec::new();
            let mut j: usize = 0;
            while j < len
                invariant
                    0 <= j <= len,
                    len == row@.len(),
                    chars@ == row@.take(j as int),
                decreases len - j,
            {
                chars.push(row.get_char(j));
                proof {
                    assert(chars@ =~= row@.take(j + 1));
                }
                j = j + 1;
            }
            proof {
                assert(chars@ =~= row@);
                assert(chars.deep_view() =~= chars@);
                assert(rows.deep_view()[i as int] == rows@[i as int]@);
            }
            let ghost chars_v = chars.deep_view();
            let ghost prev_g = grid@;
            let ghost prev_gd = grid.deep_view();
            grid.push(chars);
            proof {
                let gd = grid.deep_view();
                let rd = rows.deep_view();
                assert(rd.len() == n);
                assert(prev_gd == rd.take(i as int));
                assert(prev_gd.len() == i as int);
                assert(prev_g.len() == i as int);
                assert(grid@.len() == prev_g.len() + 1);
                assert(gd.len() == i + 1);
                assert forall|k: int| 0 <= k < i + 1 implies gd[k] == rd.take(i + 1)[k] by {
                    if k < i {
                        assert(gd[k] == grid@[k].deep_view());
                        assert(grid@[k] == prev_g[k]);
                        assert(prev_gd[k] == prev_g[k].deep_view());
                        assert(prev_gd[k] == rd.take(i as int)[k]);
                    } else {
                        assert(gd[k] == grid@[k].deep_view());
                        assert(grid@[k] == grid@.last());
                        assert(gd[k] == chars_v);
                        assert(rd.take(i + 1)[k] == rd[k]);
                    }
                }
                assert(gd =~= rd.take(i + 1));
            }
            i = i + 1;
        }
        proof {
            assert(rows.deep_view().take(n as int) =~~= rows.deep_view());
        }
        let e = TextEditor { text: grid, cursor_loc: (0, 0) };
        proof {
            if e.text@.len() > 0 {
                assert(e.text.deep_view()[0] == e.text@[0]@);
            }
        }
        e
    }

    pub fn lines(&self) -> (r: &Vec<Vec<char>>)
        ensures
            r == self.text,
    {
        &self.text
    }

    /// Moves the cursor one column left, stopping at the row start.
    pub fn move_left(&mut self)
        ensures
            final(self).text == old(self).text,
            final(self).cursor_loc.1 == old(self).cursor_loc.1,
            final(self).cursor_loc.0 == (if old(self).cursor_loc.0 > 0 {
                (old(self).cursor_loc.0 - 1) as usize
            } else {
                0usize
            }),
            old(self).wf() ==> final(self).wf(),
    {
        if self.cursor_loc.0 > 0 {
            self.cursor_loc.0 = self.cursor_loc.0 - 1;
        }
    }

    /// Moves the cursor one column right, stopping at the last character
    /// of its row.
    pub fn move_right(&mut self)
        requires
            old(self).wf(),
        ensures
            final(self).text == old(self).text,
            final(self).cursor_loc.1 == old(self).cursor_loc.1,
            final(self).cursor_loc.0 == (if old(self).text@.len() > 0 && old(self).cursor_loc.0 + 1
                < old(self).text@[old(self).cursor_loc.1 as int]@.len() {
                (old(self).cursor_loc.0 + 1) as usize
            } else {
                old(self).cursor_loc.0
            }),
            final(self).wf(),
    {
        if self.text.len() > 0 {
            let row_len = self.text[self.cursor_loc.1].len();
            if row_len > 0 && self.cursor_loc.0 < row_len - 1 {
                self.cursor_loc.0 = self.cursor_loc.0 + 1;
            }
        }
    }

    /// Moves the cursor one row down, stopping at the last row; the
    /// column is clamped into the new row.
    pub fn move_down(&mut self)
        requires
            old(self).wf(),
        ensures
            final(self).text == old(self).text,
            final(self).cursor_loc.1 == (if old(self).cursor_loc.1 + 1 < old(self).text@.len() {
                (old(self).cursor_loc.1 + 1) as usize
            } else {
                old(self).cursor_loc.1
            }),
            final(self).wf(),
    {
        if self.text.len() > 0 && self.cursor_loc.1 + 1 < self.text.len() {
            self.cursor_loc.1 = self.cursor_loc.1 + 1;
            let row_len = self.text[self.cursor_loc.1].len();
            if self.cursor_loc.0 > row_len {
                self.cursor_loc.0 = row_len;
            }
        }
    }

    /// Moves the cursor one row up, stopping at the first row; the column
    /// is clamped into the new row.
    pub fn move_up(&mut self)
        requires
            old(self).wf(),
        ensures
            final(self).text == old(self).text,
            final(self).cursor_loc.1 == (if old(self).cursor_loc.1 > 0 {
                (old(self).cursor_loc.1 - 1) as usize
            } else {
                0usize
            }),
            final(self).wf(),
    {
        if self.cursor_loc.1 > 0 {
            self.cursor_loc.1 = self.cursor_loc.1 - 1;
            let row_len = self.text[self.cursor_loc.1].len();
            if self.cursor_loc.0 > row_len {
                self.cursor_loc.0 = row_len;
            }
        }
    }
}

impl Default for TextEditor {
    /// An empty buffer with the cursor at the origin.
    fn default() -> (e: Self)
        ensures
            e.text@.len() == 0,
            e.cursor_loc == (0usize, 0usize),
            e.wf(),
    {
        TextEditor { text: Vec::new(), cursor_loc: (0, 0) }
    }
}

} // verus!
