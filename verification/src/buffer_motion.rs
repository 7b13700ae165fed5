//! Cursor movement: single steps, line and document jumps, word motions and
//! page motions. Every motion keeps the cursor on a line, at a column no
//! further than one past its end, and touches nothing but the cursor.

use vstd::prelude::*;

use crate::buffer::Buffer;
use crate::util::{is_ws, spec_is_ws, str_eq_str};

verus! {

/// The first position at or after `i` holding whitespace, or the line length.
pub open spec fn spec_next_ws(l: Seq<char>, i: nat) -> nat
    decreases l.len() - i,
{
    if i >= l.len() {
        l.len()
    } else if spec_is_ws(l[i as int]) {
        i
    } else {
        spec_next_ws(l, i + 1)
    }
}

/// The first position at or after `i` holding non-whitespace, or the line
/// length.
pub open spec fn spec_next_non_ws(l: Seq<char>, i: nat) -> nat
    decreases l.len() - i,
{
    if i >= l.len() {
        l.len()
    } else if !spec_is_ws(l[i as int]) {
        i
    } else {
        spec_next_non_ws(l, i + 1)
    }
}


/// Where the cursor lands when the forward word motion starts at `col`: past
/// the rest of the current word, then past the whitespace run, onto the next
/// word's first character — or the end of the line if there is none.
pub open spec fn spec_word_forward(l: Seq<char>, col: nat) -> nat {
    spec_next_non_ws(l, spec_next_ws(l, col))
}

/// Where the cursor lands when the backward word motion starts at `col`: the
/// mirror of the forward motion on the reversed prefix before the cursor.
pub open spec fn spec_word_backward(l: Seq<char>, col: nat) -> nat {
    let rev = l.take(col as int).reverse();
    let b = spec_next_non_ws(rev, spec_next_ws(rev, 0));
    if b < col {
        (col - b - 1) as nat
    } else {
        0
    }
}

fn next_ws_from(line: &Vec<char>, i: usize) -> (r: usize)
    requires
        i <= line@.len(),
    ensures
        r == spec_next_ws(line@, i as nat),
        i <= r <= line@.len(),
{
    let mut j: usize = i;
    while j < line.len()
        invariant
            i <= j <= line@.len(),
            spec_next_ws(line@, i as nat) == spec_next_ws(line@, j as nat),
        decreases line@.len() - j,
    {
        if is_ws(line[j]) {
            return j;
        }
        j = j + 1;
    }
    j
}

fn next_non_ws_from(line: &Vec<char>, i: usize) -> (r: usize)
    requires
        i <= line@.len(),
    ensures
        r == spec_next_non_ws(line@, i as nat),
        i <= r <= line@.len(),
{
    let mut j: usize = i;
    while j < line.len()
        invariant
            i <= j <= line@.len(),
            spec_next_non_ws(line@, i as nat) == spec_next_non_ws(line@, j as nat),
        decreases line@.len() - j,
    {
        if !is_ws(line[j]) {
            return j;
        }
        j = j + 1;
    }
    j
}

impl Buffer {
    /// Where one `move_cursor` step sends the cursor: a single step stays
    /// within bounds, vertical steps clamp the column to the new line, and
    /// an unrecognised direction moves nothing.
    pub open spec fn spec_move(lines: Seq<Seq<char>>, c: (nat, nat), dir: Seq<char>) -> (nat, nat) {
        let (row, col) = c;
        if dir == "left"@ {
            (row, if col > 0 { (col - 1) as nat } else { 0 })
        } else if dir == "right"@ {
            (row, if col < lines[row as int].len() { col + 1 } else { col })
        } else if dir == "up"@ {
            if row > 0 {
                (
                    (row - 1) as nat,
                    if col <= lines[row - 1].len() { col } else { lines[row - 1].len() },
                )
            } else {
                c
            }
        } else if dir == "down"@ {
            if row + 1 < lines.len() {
                (
                    row + 1,
                    if col <= lines[row as int + 1].len() { col } else { lines[row as int + 1].len() },
                )
            } else {
                c
            }
        } else if dir == "top"@ {
            (0, 0)
        } else if dir == "bottom"@ {
            ((lines.len() - 1) as nat, 0)
        } else if dir == "line_start"@ {
            (row, 0)
        } else if dir == "line_end"@ {
            (row, lines[row as int].len())
        } else {
            c
        }
    }

    /// Moves the cursor one step in the named direction (`left`, `right`,
    /// `up`, `down`, `top`, `bottom`, `line_start`, `line_end`); anything
    /// else is a no-op.
    pub fn move_cursor(&mut self, direction: &str)
        requires
            old(self).wf(),
        ensures
            final(self).wf(),
            *final(self) == (Buffer {
                cursor_position: final(self).cursor_position,
                ..*old(self)
            }),
            final(self).cursor() == Self::spec_move(
                old(self).lines(),
                old(self).cursor(),
                direction@,
            ),
    {
        if str_eq_str(direction, "left") {
            if self.cursor_position.1 > 0 {
                self.cursor_position.1 = self.cursor_position.1 - 1;
            }
        } else if str_eq_str(direction, "right") {
            if self.cursor_position.1 < self.content[self.cursor_position.0].len() {
                self.cursor_position.1 = self.cursor_position.1 + 1;
            }
        } else if str_eq_str(direction, "up") {
            if self.cursor_position.0 > 0 {
                self.cursor_position.0 = self.cursor_position.0 - 1;
                let len = self.content[self.cursor_position.0].len();
                if self.cursor_position.1 > len {
                    self.cursor_position.1 = len;
                }
            }
        } else if str_eq_str(direction, "down") {
            if self.cursor_position.0 < self.content.len() - 1 {
                self.cursor_position.0 = self.cursor_position.0 + 1;
                let len = self.content[self.cursor_position.0].len();
                if self.cursor_position.1 > len {
                    self.cursor_position.1 = len;
                }
            }
        } else if str_eq_str(direction, "top") {
            self.cursor_position = (0, 0);
        } else if str_eq_str(direction, "bottom") {
            self.cursor_position = (self.content.len() - 1, 0);
        } else if str_eq_str(direction, "line_start") {
            self.cursor_position.1 = 0;
        } else if str_eq_str(direction, "line_end") {
            self.cursor_position.1 = self.content[self.cursor_position.0].len();
        }
    }

    /// Moves to the first character of the next whitespace-delimited word on
    /// the current line, or to the end of the line; never crosses lines.
    pub fn move_word_forward(&mut self)
        requires
            old(self).wf(),
        ensures
            final(self).wf(),
            *final(self) == (Buffer {
                cursor_position: final(self).cursor_position,
                ..*old(self)
            }),
            final(self).cursor().0 == old(self).cursor().0,
            final(self).cursor().1 == spec_word_forward(
                old(self).lines()[old(self).cursor().0 as int],
                old(self).cursor().1,
            ),
    {
        let row = self.cursor_position.0;
        let a = next_ws_from(&self.content[row], self.cursor_position.1);
        let b = next_non_ws_from(&self.content[row], a);
        self.cursor_position.1 = b;
    }

    /// The mirror of the forward motion, scanning the reversed text before
    /// the cursor: the cursor lands just before the previous whitespace run,
    /// or at column zero; never crosses lines.
    pub fn move_word_backward(&mut self)
        requires
            old(self).wf(),
        ensures
            final(self).wf(),
            *final(self) == (Buffer {
                cursor_position: final(self).cursor_position,
                ..*old(self)
            }),
            final(self).cursor().0 == old(self).cursor().0,
            final(self).cursor().1 == spec_word_backward(
                old(self).lines()[old(self).cursor().0 as int],
                old(self).cursor().1,
            ),
    {
        let row = self.cursor_position.0;
        let col = self.cursor_position.1;
        let ghost l = self.lines()[row as int];
        if col == 0 {
            return;
        }
        let mut rev: Vec<char> = Vec::new();
        let mut j: usize = 0;
        while j < col
            invariant
                j <= col <= self.content@[row as int]@.len(),
                row < self.content@.len(),
                rev@.len() == j,
                forall|k: int| 0 <= k < j ==> rev@[k] == self.content@[row as int]@[col - 1 - k],
            decreases col - j,
        {
            rev.push(self.content[row][col - 1 - j]);
            j = j + 1;
        }
        proof {
            assert(rev@ =~= l.take(col as int).reverse());
        }
        let a = next_ws_from(&rev, 0);
        let b = next_non_ws_from(&rev, a);
        if b < col {
            self.cursor_position.1 = col - b - 1;
        } else {
            self.cursor_position.1 = 0;
        }
    }

    /// One step of an upward page motion: a row up with the column clamped
    /// to the new line, or no movement on the first row.
    pub open spec fn spec_step_up(lines: Seq<Seq<char>>, c: (nat, nat)) -> (nat, nat) {
        if c.0 > 0 {
            (
                (c.0 - 1) as nat,
                if c.1 <= lines[c.0 - 1].len() {
                    c.1
                } else {
                    lines[c.0 - 1].len()
                },
            )
        } else {
            c
        }
    }

    /// One step of a downward page motion: a row down with the column
    /// clamped to the new line, or no movement on the last row.
    pub open spec fn spec_step_down(lines: Seq<Seq<char>>, c: (nat, nat)) -> (nat, nat) {
        if c.0 + 1 < lines.len() {
            (
                c.0 + 1,
                if c.1 <= lines[c.0 as int + 1].len() {
                    c.1
                } else {
                    lines[c.0 as int + 1].len()
                },
            )
        } else {
            c
        }
    }

    /// `n` page-motion steps in a row.
    pub open spec fn spec_steps(
        lines: Seq<Seq<char>>,
        c: (nat, nat),
        n: nat,
        down: bool,
    ) -> (nat, nat)
        decreases n,
    {
        if n == 0 {
            c
        } else if down {
            Self::spec_steps(lines, Self::spec_step_down(lines, c), (n - 1) as nat, down)
        } else {
            Self::spec_steps(lines, Self::spec_step_up(lines, c), (n - 1) as nat, down)
        }
    }

    /// Moves the cursor twenty single-row steps towards the start of the
    /// document, clamping the column to each line passed.
    pub fn move_page_up(&mut self)
        requires
            old(self).wf(),
        ensures
            final(self).wf(),
            *final(self) == (Buffer {
                cursor_position: final(self).cursor_position,
                ..*old(self)
            }),
            final(self).cursor() == Self::spec_steps(
                old(self).lines(),
                old(self).cursor(),
                20,
                false,
            ),
    {
        let mut step: usize = 0;
        while step < 20
            invariant
                self.wf(),
                *self == (Buffer { cursor_position: self.cursor_position, ..*old(self) }),
                step <= 20,
                Self::spec_steps(old(self).lines(), old(self).cursor(), 20, false)
                    == Self::spec_steps(self.lines(), self.cursor(), (20 - step) as nat, false),
            decreases 20 - step,
        {
            if self.cursor_position.0 > 0 {
                self.cursor_position.0 = self.cursor_position.0 - 1;
                let len = self.content[self.cursor_position.0].len();
                if self.cursor_position.1 > len {
                    self.cursor_position.1 = len;
                }
            }
            step = step + 1;
        }
    }

    /// Moves the cursor twenty single-row steps towards the end of the
    /// document, clamping the column to each line passed.
    pub fn move_page_down(&mut self)
        requires
            old(self).wf(),
        ensures
            final(self).wf(),
            *final(self) == (Buffer {
                cursor_position: final(self).cursor_position,
                ..*old(self)
            }),
            final(self).cursor() == Self::spec_steps(
                old(self).lines(),
                old(self).cursor(),
                20,
                true,
            ),
    {
        let mut step: usize = 0;
        while step < 20
            invariant
                self.wf(),
                *self == (Buffer { cursor_position: self.cursor_position, ..*old(self) }),
                step <= 20,
                Self::spec_steps(old(self).lines(), old(self).cursor(), 20, true)
                    == Self::spec_steps(self.lines(), self.cursor(), (20 - step) as nat, true),
            decreases 20 - step,
        {
            if self.cursor_position.0 < self.content.len() - 1 {
                self.cursor_position.0 = self.cursor_position.0 + 1;
                let len = self.content[self.cursor_position.0].len();
                if self.cursor_position.1 > len {
                    self.cursor_position.1 = len;
                }
            }
            step = step + 1;
        }
    }

    /// Steps the cursor one position right unless the line is empty, ready
    /// for appending after the cursor.
    pub fn prepare_append(&mut self)
        requires
            old(self).wf(),
        ensures
            final(self).wf(),
            *final(self) == (Buffer {
                cursor_position: final(self).cursor_position,
                ..*old(self)
            }),
            final(self).cursor().0 == old(self).cursor().0,
            final(self).cursor().1 == ({
                let len = old(self).lines()[old(self).cursor().0 as int].len();
                if len > 0 && old(self).cursor().1 < len {
                    old(self).cursor().1 + 1
                } else {
                    old(self).cursor().1 as nat
                }
            }),
    {
        if self.content[self.cursor_position.0].len() > 0 {
            if self.cursor_position.1 < self.content[self.cursor_position.0].len() {
                self.cursor_position.1 = self.cursor_position.1 + 1;
            }
        }
    }

    /// Sends the cursor one past the last character of its line, ready for
    /// appending at the end.
    pub fn prepare_append_end_of_line(&mut self)
        requires
            old(self).wf(),
        ensures
            final(self).wf(),
            *final(self) == (Buffer {
                cursor_position: final(self).cursor_position,
                ..*old(self)
            }),
            final(self).cursor().0 == old(self).cursor().0,
            final(self).cursor().1 == old(self).lines()[old(self).cursor().0 as int].len(),
    {
        self.cursor_position.1 = self.content[self.cursor_position.0].len();
    }

    /// Sends the cursor to the first non-whitespace character of its line,
    /// or to column zero on a blank line.
    pub fn prepare_insert_start_of_line(&mut self)
        requires
            old(self).wf(),
        ensures
            final(self).wf(),
            *final(self) == (Buffer {
                cursor_position: final(self).cursor_position,
                ..*old(self)
            }),
            final(self).cursor().0 == old(self).cursor().0,
            final(self).cursor().1 == ({
                let l = old(self).lines()[old(self).cursor().0 as int];
                if spec_next_non_ws(l, 0) < l.len() {
                    spec_next_non_ws(l, 0)
                } else {
                    0
                }
            }),
    {
        let row = self.cursor_position.0;
        let first = next_non_ws_from(&self.content[row], 0);
        if first < self.content[row].len() {
            self.cursor_position.1 = first;
        } else {
            self.cursor_position.1 = 0;
        }
    }
}

} // verus!
