//! The recorded edit primitives and the change log.
//!
//! Each primitive mutates content and cursor together and pushes change
//! records onto the undo stack, clearing the redo stack. `undo` applies the
//! structural inverse of the most recent record and restores the recorded
//! cursor; `redo` reverts the record that `undo` pushed. Records whose
//! positions no longer fit the content (possible after unrecorded mutations)
//! are refused at run time rather than applied.

use vstd::prelude::*;

use crate::buffer::{
    change_applicable, change_inverse, change_revert, clamp_cursor, lemma_indent_len,
    spec_indent_len, Buffer, BufferChange, BufferChangeRecord, ChangeV, RecV,
};
use crate::util::{chars_to_string, concat_chars, push_char, splice_in, splice_out, str_chars};

verus! {

/// The record that an edit with change `ch` pushes: the change, the cursor
/// before the edit, and the next change id.
pub open spec fn pushed_rec(b: Buffer, ch: ChangeV) -> RecV {
    RecV { change: ch, cursor: b.cursor(), id: (b.change_counter + 1) as nat }
}

impl Buffer {
    /// Computes the length of the leading whitespace run of a line vector.
    pub(crate) fn indent_len_of(line: &Vec<char>) -> (r: usize)
        ensures
            r == spec_indent_len(line@),
    {
        let mut i: usize = 0;
        while i < line.len()
            invariant
                i <= line@.len(),
                forall|j: int| 0 <= j < i ==> crate::util::spec_is_ws(#[trigger] line@[j]),
            decreases line@.len() - i,
        {
            if !crate::util::is_ws(line[i]) {
                proof {
                    lemma_indent_len_unique(line@, i as nat);
                }
                return i;
            }
            i = i + 1;
        }
        proof {
            lemma_indent_len_unique(line@, line@.len());
        }
        i
    }

    /// The leading whitespace of the given line, or the empty string for an
    /// out-of-range row.
    pub fn get_line_indentation(&self, line_number: usize) -> (r: String)
        ensures
            r@ == if (line_number as int) < self.lines().len() {
                self.lines()[line_number as int].take(
                    spec_indent_len(self.lines()[line_number as int]) as int,
                )
            } else {
                Seq::<char>::empty()
            },
    {
        if line_number < self.content.len() {
            let n = Self::indent_len_of(&self.content[line_number]);
            proof {
                lemma_indent_len(self.lines()[line_number as int]);
            }
            chars_to_string(&crate::util::sub_chars(&self.content[line_number], 0, n))
        } else {
            String::new()
        }
    }

    /// Appends one change record carrying the current cursor and a fresh
    /// change id, and clears the redo stack.
    fn record_change(&mut self, change: BufferChange)
        requires
            old(self).change_counter < usize::MAX,
        ensures
            *final(self) == (Buffer {
                undo_stack: final(self).undo_stack,
                redo_stack: final(self).redo_stack,
                change_counter: final(self).change_counter,
                ..*old(self)
            }),
            final(self).change_counter == old(self).change_counter + 1,
            final(self).undo_recs() == old(self).undo_recs().push(
                pushed_rec(*old(self), change@),
            ),
            final(self).redo_recs().len() == 0,
    {
        self.change_counter = self.change_counter + 1;
        let record = BufferChangeRecord {
            change,
            cursor: self.cursor_position,
            change_id: self.change_counter,
        };
        self.undo_stack.push(record);
        self.redo_stack.clear();
        proof {
            assert(self.undo_recs() =~= old(self).undo_recs().push(
                pushed_rec(*old(self), change@),
            ));
            assert(self.redo_recs() =~= Seq::<RecV>::empty());
        }
    }

    /// Inserts `c` at the cursor and advances the cursor one column,
    /// recording the insertion.
    pub fn insert_char(&mut self, c: char)
        requires
            old(self).wf(),
            old(self).change_counter < usize::MAX,
            old(self).lines()[old(self).cursor().0 as int].len() < usize::MAX,
        ensures
            final(self).wf(),
            *final(self) == (Buffer {
                content: final(self).content,
                cursor_position: final(self).cursor_position,
                undo_stack: final(self).undo_stack,
                redo_stack: final(self).redo_stack,
                change_counter: final(self).change_counter,
                ..*old(self)
            }),
            final(self).lines() == ({
                let l = old(self).lines()[old(self).cursor().0 as int];
                let col = old(self).cursor().1 as int;
                old(self).lines().update(
                    old(self).cursor().0 as int,
                    l.take(col) + seq![c] + l.skip(col),
                )
            }),
            final(self).cursor() == (old(self).cursor().0, old(self).cursor().1 + 1),
            final(self).undo_recs() == old(self).undo_recs().push(
                pushed_rec(
                    *old(self),
                    ChangeV::Insert {
                        row: old(self).cursor().0,
                        col: old(self).cursor().1,
                        text: seq![c],
                    },
                ),
            ),
            final(self).redo_recs().len() == 0,
            final(self).change_counter == old(self).change_counter + 1,
            final(self).spec_has_unsaved(),
    {
        let (row, col) = self.cursor_position;
        let mut text = String::new();
        push_char(&mut text, c);
        let change = BufferChange::Insert { position: (row, col), content: text };
        self.record_change(change);
        let mut w: Vec<char> = Vec::new();
        w.push(c);
        let new_line = splice_in(&self.content[row], col, &w);
        self.content.set(row, new_line);
        self.cursor_position = (row, col + 1);
        proof {
            let l = old(self).lines()[row as int];
            assert(seq![c] =~= Seq::<char>::empty().push(c));
            assert(self.lines() =~= old(self).lines().update(
                row as int,
                l.take(col as int) + seq![c] + l.skip(col as int),
            ));
        }
    }

    /// Backspace: removes the character before the cursor, or joins the
    /// current line onto the previous one when the cursor is at column zero;
    /// a no-op at the very start of the document. Records the change.
    pub fn delete_char(&mut self)
        requires
            old(self).wf(),
            old(self).change_counter < usize::MAX,
            old(self).cursor().1 == 0 && old(self).cursor().0 > 0 ==> old(self).lines()[old(
                self,
            ).cursor().0 - 1].len() + old(self).lines()[old(self).cursor().0 as int].len()
                <= usize::MAX,
        ensures
            final(self).wf(),
            *final(self) == (Buffer {
                content: final(self).content,
                cursor_position: final(self).cursor_position,
                undo_stack: final(self).undo_stack,
                redo_stack: final(self).redo_stack,
                change_counter: final(self).change_counter,
                ..*old(self)
            }),
            old(self).cursor().1 > 0 ==> ({
                let row = old(self).cursor().0;
                let col = old(self).cursor().1;
                let l = old(self).lines()[row as int];
                &&& final(self).lines() == old(self).lines().update(
                    row as int,
                    l.take(col - 1) + l.skip(col as int),
                )
                &&& final(self).cursor() == (row, (col - 1) as nat)
                &&& final(self).undo_recs() == old(self).undo_recs().push(
                    pushed_rec(
                        *old(self),
                        ChangeV::Delete {
                            row,
                            col: (col - 1) as nat,
                            text: seq![l[col - 1]],
                        },
                    ),
                )
                &&& final(self).redo_recs().len() == 0
                &&& final(self).change_counter == old(self).change_counter + 1
                &&& final(self).spec_has_unsaved()
            }),
            old(self).cursor().1 == 0 && old(self).cursor().0 > 0 ==> ({
                let row = old(self).cursor().0;
                let prev = old(self).lines()[row - 1];
                let cur = old(self).lines()[row as int];
                &&& final(self).lines() == old(self).lines().update(row - 1, prev + cur).remove(
                    row as int,
                )
                &&& final(self).cursor() == ((row - 1) as nat, prev.len())
                &&& final(self).undo_recs() == old(self).undo_recs().push(
                    pushed_rec(*old(self), ChangeV::DeleteLine { row, text: cur }),
                )
                &&& final(self).redo_recs().len() == 0
                &&& final(self).change_counter == old(self).change_counter + 1
                &&& final(self).spec_has_unsaved()
            }),
            old(self).cursor().1 == 0 && old(self).cursor().0 == 0 ==> *final(self) == *old(self),
    {
        let (row, col) = self.cursor_position;
        if col > 0 {
            let deleted = self.content[row][col - 1];
            let mut text = String::new();
            push_char(&mut text, deleted);
            let change = BufferChange::Delete { position: (row, col - 1), content: text };
            self.record_change(change);
            let new_line = splice_out(&self.content[row], col - 1, col);
            self.content.set(row, new_line);
            self.cursor_position = (row, col - 1);
            proof {
                let l = old(self).lines()[row as int];
                assert(seq![l[col - 1]] =~= Seq::<char>::empty().push(l[col - 1]));
                assert(l.take(col as int - 1) + l.skip(col as int) =~= l.take(col - 1) + l.skip(
                    col as int,
                ));
                assert(self.lines() =~= old(self).lines().update(
                    row as int,
                    l.take(col - 1) + l.skip(col as int),
                ));
            }
        } else if row > 0 {
            let cur_text = chars_to_string(&self.content[row]);
            let change = BufferChange::DeleteLine { position: row, content: cur_text };
            self.record_change(change);
            let prev_len = self.content[row - 1].len();
            let joined = concat_chars(&self.content[row - 1], &self.content[row]);
            self.content.set(row - 1, joined);
            self.content.remove(row);
            self.cursor_position = (row - 1, prev_len);
            proof {
                let prev = old(self).lines()[row - 1];
                let cur = old(self).lines()[row as int];
                assert(self.lines() =~= old(self).lines().update(row - 1, prev + cur).remove(
                    row as int,
                ));
            }
        }
    }

    /// Delete-key semantics: removes the character at the cursor, or joins
    /// the next line onto the current one when the cursor is at the end of
    /// its line; a no-op at the very end of the document. Records the
    /// change.
    pub fn delete_char_forward(&mut self)
        requires
            old(self).wf(),
            old(self).change_counter < usize::MAX,
            old(self).cursor().1 == old(self).lines()[old(self).cursor().0 as int].len() && old(
                self,
            ).cursor().0 + 1 < old(self).lines().len() ==> old(self).lines()[old(
                self,
            ).cursor().0 as int].len() + old(self).lines()[old(self).cursor().0 as int + 1].len()
                <= usize::MAX,
        ensures
            final(self).wf(),
            *final(self) == (Buffer {
                content: final(self).content,
                cursor_position: final(self).cursor_position,
                undo_stack: final(self).undo_stack,
                redo_stack: final(self).redo_stack,
                change_counter: final(self).change_counter,
                ..*old(self)
            }),
            final(self).cursor() == old(self).cursor(),
            old(self).cursor().1 < old(self).lines()[old(self).cursor().0 as int].len() ==> ({
                let row = old(self).cursor().0;
                let col = old(self).cursor().1;
                let l = old(self).lines()[row as int];
                &&& final(self).lines() == old(self).lines().update(
                    row as int,
                    l.take(col as int) + l.skip(col as int + 1),
                )
                &&& final(self).undo_recs() == old(self).undo_recs().push(
                    pushed_rec(
                        *old(self),
                        ChangeV::Delete { row, col, text: seq![l[col as int]] },
                    ),
                )
                &&& final(self).redo_recs().len() == 0
                &&& final(self).change_counter == old(self).change_counter + 1
                &&& final(self).spec_has_unsaved()
            }),
            old(self).cursor().1 == old(self).lines()[old(self).cursor().0 as int].len() && old(
                self,
            ).cursor().0 + 1 < old(self).lines().len() ==> ({
                let row = old(self).cursor().0;
                let cur = old(self).lines()[row as int];
                let next = old(self).lines()[row as int + 1];
                &&& final(self).lines() == old(self).lines().update(row as int, cur + next).remove(
                    row as int + 1,
                )
                &&& final(self).undo_recs() == old(self).undo_recs().push(
                    pushed_rec(*old(self), ChangeV::DeleteLine { row: row + 1, text: next }),
                )
                &&& final(self).redo_recs().len() == 0
                &&& final(self).change_counter == old(self).change_counter + 1
                &&& final(self).spec_has_unsaved()
            }),
            old(self).cursor().1 == old(self).lines()[old(self).cursor().0 as int].len() && old(
                self,
            ).cursor().0 + 1 >= old(self).lines().len() ==> *final(self) == *old(self),
    {
        let (row, col) = self.cursor_position;
        let line_len = self.content[row].len();
        if col < line_len {
            let deleted = self.content[row][col];
            let mut text = String::new();
            push_char(&mut text, deleted);
            let change = BufferChange::Delete { position: (row, col), content: text };
            self.record_change(change);
            let new_line = splice_out(&self.content[row], col, col + 1);
            self.content.set(row, new_line);
            proof {
                let l = old(self).lines()[row as int];
                assert(seq![l[col as int]] =~= Seq::<char>::empty().push(l[col as int]));
                assert(self.lines() =~= old(self).lines().update(
                    row as int,
                    l.take(col as int) + l.skip(col as int + 1),
                ));
            }
        } else if row < self.content.len() - 1 {
            let next_text = chars_to_string(&self.content[row + 1]);
            let change = BufferChange::DeleteLine { position: row + 1, content: next_text };
            self.record_change(change);
            let joined = concat_chars(&self.content[row], &self.content[row + 1]);
            self.content.set(row, joined);
            self.content.remove(row + 1);
            proof {
                let cur = old(self).lines()[row as int];
                let next = old(self).lines()[row as int + 1];
                assert(self.lines() =~= old(self).lines().update(row as int, cur + next).remove(
                    row as int + 1,
                ));
            }
        }
    }

    /// Splits the current line at the cursor; the new line below inherits
    /// the current line's leading whitespace followed by the remainder after
    /// the cursor, and the cursor lands at the end of that indentation.
    /// Records the split.
    pub fn insert_newline_auto_indent(&mut self)
        requires
            old(self).wf(),
            old(self).change_counter < usize::MAX,
            2 * old(self).lines()[old(self).cursor().0 as int].len() <= usize::MAX,
            old(self).lines().len() < usize::MAX,
        ensures
            final(self).wf(),
            *final(self) == (Buffer {
                content: final(self).content,
                cursor_position: final(self).cursor_position,
                undo_stack: final(self).undo_stack,
                redo_stack: final(self).redo_stack,
                change_counter: final(self).change_counter,
                ..*old(self)
            }),
            ({
                let row = old(self).cursor().0;
                let col = old(self).cursor().1;
                let l = old(self).lines()[row as int];
                let w = l.take(spec_indent_len(l) as int);
                let rem = l.skip(col as int);
                &&& final(self).lines() == old(self).lines().update(row as int, l.take(col as int))
                    .insert(row as int + 1, w + rem)
                &&& final(self).cursor() == (row + 1, spec_indent_len(l))
                &&& final(self).undo_recs() == old(self).undo_recs().push(
                    pushed_rec(*old(self), ChangeV::NewLine { row, col, text: rem }),
                )
                &&& final(self).redo_recs().len() == 0
                &&& final(self).change_counter == old(self).change_counter + 1
                &&& final(self).spec_has_unsaved()
            }),
    {
        let (row, col) = self.cursor_position;
        proof {
            lemma_indent_len(old(self).lines()[row as int]);
        }
        let indent_n = Self::indent_len_of(&self.content[row]);
        let indent = crate::util::sub_chars(&self.content[row], 0, indent_n);
        let remainder = crate::util::sub_chars(&self.content[row], col, self.content[row].len());
        let change = BufferChange::NewLine {
            position: (row, col),
            content: chars_to_string(&remainder),
        };
        self.record_change(change);
        let head = crate::util::sub_chars(&self.content[row], 0, col);
        let below = concat_chars(&indent, &remainder);
        self.content.set(row, head);
        self.content.insert(row + 1, below);
        self.cursor_position = (row + 1, indent_n);
        proof {
            let l = old(self).lines()[row as int];
            let w = l.take(spec_indent_len(l) as int);
            let rem = l.skip(col as int);
            assert(l.subrange(0, col as int) =~= l.take(col as int));
            assert(l.subrange(0, spec_indent_len(l) as int) =~= w);
            assert(l.subrange(col as int, l.len() as int) =~= rem);
            assert(self.lines() =~= old(self).lines().update(row as int, l.take(col as int))
                .insert(row as int + 1, w + rem));
        }
    }

    /// Opens a new line below the current one, holding a copy of its
    /// indentation, and puts the cursor at the end of that indentation.
    /// Recorded as a line split at the end of the current line plus, when the
    /// indentation is not empty, an insertion of the indent text.
    pub fn insert_line_below(&mut self)
        requires
            old(self).wf(),
            old(self).change_counter + 2 <= usize::MAX,
            old(self).lines().len() < usize::MAX,
        ensures
            final(self).wf(),
            *final(self) == (Buffer {
                content: final(self).content,
                cursor_position: final(self).cursor_position,
                undo_stack: final(self).undo_stack,
                redo_stack: final(self).redo_stack,
                change_counter: final(self).change_counter,
                ..*old(self)
            }),
            ({
                let row = old(self).cursor().0;
                let l = old(self).lines()[row as int];
                let w = l.take(spec_indent_len(l) as int);
                let split_rec = pushed_rec(
                    *old(self),
                    ChangeV::NewLine { row, col: l.len(), text: Seq::empty() },
                );
                &&& final(self).lines() == old(self).lines().insert(row as int + 1, w)
                &&& final(self).cursor() == (row + 1, spec_indent_len(l))
                &&& final(self).undo_recs() == (if w.len() > 0 {
                    old(self).undo_recs().push(split_rec).push(
                        RecV {
                            change: ChangeV::Insert { row: row + 1, col: 0, text: w },
                            cursor: old(self).cursor(),
                            id: (old(self).change_counter + 2) as nat,
                        },
                    )
                } else {
                    old(self).undo_recs().push(split_rec)
                })
                &&& final(self).redo_recs().len() == 0
                &&& final(self).change_counter == old(self).change_counter + (if w.len() > 0 {
                    2int
                } else {
                    1int
                })
                &&& final(self).spec_has_unsaved()
            }),
    {
        let row = self.cursor_position.0;
        proof {
            lemma_indent_len(old(self).lines()[row as int]);
        }
        let indent_n = Self::indent_len_of(&self.content[row]);
        let indent = crate::util::sub_chars(&self.content[row], 0, indent_n);
        let line_len = self.content[row].len();
        let split = BufferChange::NewLine { position: (row, line_len), content: String::new() };
        self.record_change(split);
        if indent_n > 0 {
            let ins = BufferChange::Insert {
                position: (row + 1, 0),
                content: chars_to_string(&indent),
            };
            self.record_change(ins);
        }
        self.content.insert(row + 1, indent);
        self.cursor_position = (row + 1, indent_n);
        proof {
            let l = old(self).lines()[row as int];
            let w = l.take(spec_indent_len(l) as int);
            assert(l.subrange(0, spec_indent_len(l) as int) =~= w);
            assert(self.lines() =~= old(self).lines().insert(row as int + 1, w));
            if spec_indent_len(l) > 0 {
                assert(self.undo_recs() =~= old(self).undo_recs().push(
                    pushed_rec(
                        *old(self),
                        ChangeV::NewLine { row: row as nat, col: l.len(), text: Seq::empty() },
                    ),
                ).push(
                    RecV {
                        change: ChangeV::Insert { row: (row + 1) as nat, col: 0, text: w },
                        cursor: old(self).cursor(),
                        id: (old(self).change_counter + 2) as nat,
                    },
                ));
            }
        }
    }

    /// Opens a new line above the current one, holding a copy of its
    /// indentation; the cursor stays on the new line, at the end of the
    /// indentation. Recorded as a split of the current line at column zero
    /// plus, when the indentation is not empty, an insertion of the indent
    /// text.
    pub fn insert_line_above(&mut self)
        requires
            old(self).wf(),
            old(self).change_counter + 2 <= usize::MAX,
            old(self).lines().len() < usize::MAX,
        ensures
            final(self).wf(),
            *final(self) == (Buffer {
                content: final(self).content,
                cursor_position: final(self).cursor_position,
                undo_stack: final(self).undo_stack,
                redo_stack: final(self).redo_stack,
                change_counter: final(self).change_counter,
                ..*old(self)
            }),
            ({
                let row = old(self).cursor().0;
                let l = old(self).lines()[row as int];
                let w = l.take(spec_indent_len(l) as int);
                let split_rec = pushed_rec(
                    *old(self),
                    ChangeV::NewLine { row, col: 0, text: l },
                );
                &&& final(self).lines() == old(self).lines().insert(row as int, w)
                &&& final(self).cursor() == (old(self).cursor().0, spec_indent_len(l))
                &&& final(self).undo_recs() == (if w.len() > 0 {
                    old(self).undo_recs().push(split_rec).push(
                        RecV {
                            change: ChangeV::Insert { row, col: 0, text: w },
                            cursor: old(self).cursor(),
                            id: (old(self).change_counter + 2) as nat,
                        },
                    )
                } else {
                    old(self).undo_recs().push(split_rec)
                })
                &&& final(self).redo_recs().len() == 0
                &&& final(self).change_counter == old(self).change_counter + (if w.len() > 0 {
                    2int
                } else {
                    1int
                })
                &&& final(self).spec_has_unsaved()
            }),
    {
        let row = self.cursor_position.0;
        proof {
            lemma_indent_len(old(self).lines()[row as int]);
        }
        let indent_n = Self::indent_len_of(&self.content[row]);
        let indent = crate::util::sub_chars(&self.content[row], 0, indent_n);
        let split = BufferChange::NewLine {
            position: (row, 0),
            content: chars_to_string(&self.content[row]),
        };
        self.record_change(split);
        if indent_n > 0 {
            let ins = BufferChange::Insert {
                position: (row, 0),
                content: chars_to_string(&indent),
            };
            self.record_change(ins);
        }
        self.content.insert(row, indent);
        self.cursor_position = (row, indent_n);
        proof {
            let l = old(self).lines()[row as int];
            let w = l.take(spec_indent_len(l) as int);
            assert(l.subrange(0, spec_indent_len(l) as int) =~= w);
            assert(l.subrange(0, l.len() as int) =~= l);
            assert(self.lines() =~= old(self).lines().insert(row as int, w));
            if spec_indent_len(l) > 0 {
                assert(self.undo_recs() =~= old(self).undo_recs().push(
                    pushed_rec(*old(self), ChangeV::NewLine { row: row as nat, col: 0, text: l }),
                ).push(
                    RecV {
                        change: ChangeV::Insert { row: row as nat, col: 0, text: w },
                        cursor: old(self).cursor(),
                        id: (old(self).change_counter + 2) as nat,
                    },
                ));
            }
        }
    }
}

impl Buffer {
    /// Whether the structural inverse of `ch` fits the current content, so
    /// that applying it cannot step out of range.
    fn change_fits(&self, ch: &BufferChange) -> (r: bool)
        ensures
            r == change_applicable(ch@, self.lines()),
    {
        match ch {
            BufferChange::Insert { position, content } => {
                let (row, col) = *position;
                let slen = content.as_str().unicode_len();
                row < self.content.len() && col <= self.content[row].len() && slen
                    <= self.content[row].len() - col
            },
            BufferChange::Delete { position, content } => {
                let (row, col) = *position;
                let slen = content.as_str().unicode_len();
                row < self.content.len() && col <= self.content[row].len() && slen <= usize::MAX
                    - self.content[row].len()
            },
            BufferChange::NewLine { position, content } => {
                let (row, _col) = *position;
                let slen = content.as_str().unicode_len();
                row < self.content.len() && row + 1 < self.content.len() && slen <= usize::MAX
                    - self.content[row].len()
            },
            BufferChange::DeleteLine { position, content } => {
                let row = *position;
                let slen = content.as_str().unicode_len();
                1 <= row && row <= self.content.len() && slen <= self.content[row - 1].len()
            },
        }
    }

    /// Applies the structural inverse of `ch` to the content. The caller has
    /// checked that the inverse fits.
    fn apply_revert(&mut self, ch: &BufferChange)
        requires
            change_applicable(ch@, old(self).lines()),
        ensures
            *final(self) == (Buffer { content: final(self).content, ..*old(self) }),
            final(self).lines() == change_revert(ch@, old(self).lines()),
            final(self).lines().len() >= 1,
    {
        match ch {
            BufferChange::Insert { position, content } => {
                let (row, col) = *position;
                let slen = content.as_str().unicode_len();
                let line_len = self.content[row].len();
                let new_line = splice_out(&self.content[row], col, col + slen);
                self.content.set(row, new_line);
                proof {
                    let l = old(self).lines()[row as int];
                    assert(l.take(col as int) + l.skip(col as int + slen as int) =~= l.take(
                        col as int,
                    ) + l.skip(col + content@.len()));
                    assert(self.lines() =~= change_revert(ch@, old(self).lines()));
                }
            },
            BufferChange::Delete { position, content } => {
                let (row, col) = *position;
                let w = str_chars(content.as_str());
                let new_line = splice_in(&self.content[row], col, &w);
                self.content.set(row, new_line);
                proof {
                    assert(self.lines() =~= change_revert(ch@, old(self).lines()));
                }
            },
            BufferChange::NewLine { position, content } => {
                let (row, _col) = *position;
                let n = self.content.len();
                assert(row < n);
                let w = str_chars(content.as_str());
                let joined = concat_chars(&self.content[row], &w);
                self.content.set(row, joined);
                self.content.remove(row + 1);
                proof {
                    assert(self.lines() =~= change_revert(ch@, old(self).lines()));
                }
            },
            BufferChange::DeleteLine { position, content } => {
                let row = *position;
                let slen = content.as_str().unicode_len();
                let prev_len = self.content[row - 1].len();
                let cut = splice_out(&self.content[row - 1], prev_len - slen, prev_len);
                self.content.set(row - 1, cut);
                let w = str_chars(content.as_str());
                self.content.insert(row, w);
                proof {
                    let prev = old(self).lines()[row - 1];
                    assert(prev.take(prev_len - slen as int) + prev.skip(prev_len as int) =~= prev
                        .take(prev.len() - content@.len()));
                    assert(self.lines() =~= change_revert(ch@, old(self).lines()));
                }
            },
        }
    }

    /// Clamps the cursor to the nearest valid position.
    pub(crate) fn clamp_cursor_to(&mut self, rc: (usize, usize))
        requires
            old(self).lines().len() >= 1,
        ensures
            *final(self) == (Buffer {
                cursor_position: final(self).cursor_position,
                ..*old(self)
            }),
            final(self).cursor() == clamp_cursor(old(self).lines(), (rc.0 as nat, rc.1 as nat)),
            final(self).wf() == (Buffer {
                cursor_position: final(self).cursor_position,
                ..*old(self)
            }).wf(),
    {
        let row = if rc.0 < self.content.len() {
            rc.0
        } else {
            self.content.len() - 1
        };
        let len = self.content[row].len();
        let col = if rc.1 <= len {
            rc.1
        } else {
            len
        };
        self.cursor_position = (row, col);
    }

    /// Undoes the most recent recorded change: applies its structural
    /// inverse to the content, restores the cursor recorded with it, and
    /// moves its inverse onto the redo stack under a fresh change id.
    /// Returns false — changing nothing — when there is nothing to undo or
    /// the record no longer fits the content.
    ///
    /// The round-trip laws — a run of recorded edits followed by as many
    /// undo calls restores content and cursor exactly, and an immediate
    /// redo inverts an undo — are stated and proved over this contract's
    /// model by the public proof functions of the undo-laws module.
    pub fn undo(&mut self) -> (r: bool)
        requires
            old(self).wf(),
        ensures
            final(self).wf(),
            *final(self) == (Buffer {
                content: final(self).content,
                cursor_position: final(self).cursor_position,
                undo_stack: final(self).undo_stack,
                redo_stack: final(self).redo_stack,
                change_counter: final(self).change_counter,
                ..*old(self)
            }),
            old(self).undo_recs().len() == 0 ==> !r && *final(self) == *old(self),
            old(self).undo_recs().len() > 0 ==> ({
                let rec = old(self).undo_recs().last();
                if change_applicable(rec.change, old(self).lines()) && old(self).change_counter
                    < usize::MAX {
                    &&& r
                    &&& final(self).lines() == change_revert(rec.change, old(self).lines())
                    &&& final(self).cursor() == clamp_cursor(final(self).lines(), rec.cursor)
                    &&& final(self).undo_recs() == old(self).undo_recs().drop_last()
                    &&& final(self).redo_recs() == old(self).redo_recs().push(
                        RecV {
                            change: change_inverse(rec.change, old(self).lines()),
                            cursor: old(self).cursor(),
                            id: (old(self).change_counter + 1) as nat,
                        },
                    )
                    &&& final(self).change_counter == old(self).change_counter + 1
                } else {
                    !r && *final(self) == *old(self)
                }
            }),
    {
        if self.undo_stack.len() == 0 {
            return false;
        }
        if self.change_counter == usize::MAX {
            return false;
        }
        if !self.change_fits(&self.undo_stack[self.undo_stack.len() - 1].change) {
            return false;
        }
        let rec_opt = self.undo_stack.pop();
        if let Some(rec) = rec_opt {
            let BufferChangeRecord { change, cursor, change_id: _ } = rec;
            let pre_cursor = self.cursor_position;
            let inv = self.inverse_change_keep(&change);
            self.apply_revert(&change);
            self.clamp_cursor_to(cursor);
            self.change_counter = self.change_counter + 1;
            let inv_rec = BufferChangeRecord {
                change: inv,
                cursor: pre_cursor,
                change_id: self.change_counter,
            };
            self.redo_stack.push(inv_rec);
            proof {
                assert(self.undo_recs() =~= old(self).undo_recs().drop_last());
                assert(self.redo_recs() =~= old(self).redo_recs().push(
                    RecV {
                        change: change_inverse(
                            old(self).undo_recs().last().change,
                            old(self).lines(),
                        ),
                        cursor: old(self).cursor(),
                        id: (old(self).change_counter + 1) as nat,
                    },
                ));
            }
            true
        } else {
            false
        }
    }

    /// Redoes the most recently undone change: reverts the record that
    /// `undo` pushed, restores the cursor recorded with it, and moves its
    /// inverse back onto the undo stack under a fresh change id. Returns
    /// false — changing nothing — when there is nothing to redo or the
    /// record no longer fits the content.
    pub fn redo(&mut self) -> (r: bool)
        requires
            old(self).wf(),
        ensures
            final(self).wf(),
            *final(self) == (Buffer {
                content: final(self).content,
                cursor_position: final(self).cursor_position,
                undo_stack: final(self).undo_stack,
                redo_stack: final(self).redo_stack,
                change_counter: final(self).change_counter,
                ..*old(self)
            }),
            old(self).redo_recs().len() == 0 ==> !r && *final(self) == *old(self),
            old(self).redo_recs().len() > 0 ==> ({
                let rec = old(self).redo_recs().last();
                if change_applicable(rec.change, old(self).lines()) && old(self).change_counter
                    < usize::MAX {
                    &&& r
                    &&& final(self).lines() == change_revert(rec.change, old(self).lines())
                    &&& final(self).cursor() == clamp_cursor(final(self).lines(), rec.cursor)
                    &&& final(self).redo_recs() == old(self).redo_recs().drop_last()
                    &&& final(self).undo_recs() == old(self).undo_recs().push(
                        RecV {
                            change: change_inverse(rec.change, old(self).lines()),
                            cursor: old(self).cursor(),
                            id: (old(self).change_counter + 1) as nat,
                        },
                    )
                    &&& final(self).change_counter == old(self).change_counter + 1
                } else {
                    !r && *final(self) == *old(self)
                }
            }),
    {
        if self.redo_stack.len() == 0 {
            return false;
        }
        if self.change_counter == usize::MAX {
            return false;
        }
        if !self.change_fits(&self.redo_stack[self.redo_stack.len() - 1].change) {
            return false;
        }
        let rec_opt = self.redo_stack.pop();
        if let Some(rec) = rec_opt {
            let BufferChangeRecord { change, cursor, change_id: _ } = rec;
            let pre_cursor = self.cursor_position;
            let inv = self.inverse_change_keep(&change);
            self.apply_revert(&change);
            self.clamp_cursor_to(cursor);
            self.change_counter = self.change_counter + 1;
            let inv_rec = BufferChangeRecord {
                change: inv,
                cursor: pre_cursor,
                change_id: self.change_counter,
            };
            self.undo_stack.push(inv_rec);
            proof {
                assert(self.redo_recs() =~= old(self).redo_recs().drop_last());
                assert(self.undo_recs() =~= old(self).undo_recs().push(
                    RecV {
                        change: change_inverse(
                            old(self).redo_recs().last().change,
                            old(self).lines(),
                        ),
                        cursor: old(self).cursor(),
                        id: (old(self).change_counter + 1) as nat,
                    },
                ));
            }
            true
        } else {
            false
        }
    }

    /// Builds the executable record whose view is
    /// `change_inverse(ch@, lines)` for the current content, copying the
    /// text out of `ch`.
    fn inverse_change_keep(&self, ch: &BufferChange) -> (r: BufferChange)
        requires
            change_applicable(ch@, self.lines()),
        ensures
            r@ == change_inverse(ch@, self.lines()),
    {
        match ch {
            BufferChange::Insert { position, content } => BufferChange::Delete {
                position: *position,
                content: clone_string(content),
            },
            BufferChange::Delete { position, content } => BufferChange::Insert {
                position: *position,
                content: clone_string(content),
            },
            BufferChange::NewLine { position, content } => {
                let n = self.content.len();
                assert(position.0 as int + 1 < n);
                BufferChange::DeleteLine { position: position.0 + 1, content: clone_string(content) }
            },
            BufferChange::DeleteLine { position, content } => {
                let slen = content.as_str().unicode_len();
                let col = self.content[*position - 1].len() - slen;
                BufferChange::NewLine {
                    position: (*position - 1, col),
                    content: clone_string(content),
                }
            },
        }
    }
}

impl Buffer {
    /// Records the current change id as the clean baseline: immediately
    /// afterwards the buffer reports no unsaved changes.
    pub fn mark_saved(&mut self)
        requires
            old(self).wf(),
        ensures
            final(self).wf(),
            *final(self) == (Buffer {
                last_save_change_id: final(self).last_save_change_id,
                ..*old(self)
            }),
            final(self).last_save_change_id as nat == old(self).spec_current_change_id(),
            !final(self).spec_has_unsaved(),
    {
        proof {
            if old(self).undo_recs().len() > 0 {
                assert(old(self).undo_recs()[old(self).undo_recs().len() - 1].id <= old(
                    self,
                ).change_counter as nat);
            }
        }
        if self.undo_stack.len() > 0 {
            self.last_save_change_id = self.undo_stack[self.undo_stack.len() - 1].change_id;
        } else {
            self.last_save_change_id = self.change_counter;
        }
    }

    /// The id of the change the buffer currently sits at.
    pub fn current_change_id(&self) -> (r: usize)
        ensures
            r as nat == self.spec_current_change_id(),
    {
        if self.undo_stack.len() > 0 {
            self.undo_stack[self.undo_stack.len() - 1].change_id
        } else {
            self.change_counter
        }
    }

    /// Dirty iff the current change id differs from the one recorded at the
    /// last save: false right after `mark_saved`, and made true again by
    /// every recording edit, whose contracts each re-establish it.
    pub fn has_unsaved_changes(&self) -> (r: bool)
        ensures
            r == self.spec_has_unsaved(),
    {
        self.current_change_id() != self.last_save_change_id
    }

    /// The number of recorded changes waiting to be undone.
    pub fn change_count(&self) -> (r: usize)
        ensures
            r == self.undo_recs().len(),
    {
        self.undo_stack.len()
    }

    /// The undo and redo stack sizes, in that order.
    pub fn get_stack_sizes(&self) -> (r: (usize, usize))
        ensures
            r.0 == self.undo_recs().len(),
            r.1 == self.redo_recs().len(),
    {
        (self.undo_stack.len(), self.redo_stack.len())
    }

    /// The most recent change record, without removing it.
    pub fn peek_last_change(&self) -> (r: Option<&BufferChangeRecord>)
        ensures
            match r {
                Some(rec) => self.undo_recs().len() > 0 && rec@ == self.undo_recs().last(),
                None => self.undo_recs().len() == 0,
            },
    {
        if self.undo_stack.len() > 0 {
            Some(&self.undo_stack[self.undo_stack.len() - 1])
        } else {
            None
        }
    }

    /// The whole undo stack, most recent record last.
    pub fn get_undo_stack(&self) -> (r: &Vec<BufferChangeRecord>)
        ensures
            r@.len() == self.undo_recs().len(),
            forall|i: int| 0 <= i < r@.len() ==> #[trigger] r@[i]@ == self.undo_recs()[i],
    {
        &self.undo_stack
    }
}

/// A copy of the string with the same characters.
fn clone_string(s: &String) -> (r: String)
    ensures
        r@ == s@,
{
    s.clone()
}

/// The whitespace prefix found by scanning is the one [`spec_indent_len`]
/// names.
proof fn lemma_indent_len_unique(l: Seq<char>, i: nat)
    requires
        i <= l.len(),
        forall|j: int| 0 <= j < i ==> crate::util::spec_is_ws(#[trigger] l[j]),
        i < l.len() ==> !crate::util::spec_is_ws(l[i as int]),
    ensures
        spec_indent_len(l) == i,
    decreases l.len(),
{
    if l.len() > 0 && crate::util::spec_is_ws(l[0]) {
        assert(i > 0);
        lemma_indent_len_unique(l.drop_first(), (i - 1) as nat);
    }
}

} // verus!
