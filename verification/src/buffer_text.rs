//! Unrecorded text operations: indentation, plain insertions, line splits
//! and removals, and the clipboard-backed cut, yank and paste. None of these
//! push change records; the recorded primitives live with the change log.

use vstd::prelude::*;

use crate::buffer::{clamp_cursor, spec_indent_len, Buffer};
use crate::buffer_motion::spec_word_backward;
use crate::clipboard::spec_yank;
use crate::util::{
    chars_to_string, concat_chars, lemma_split_plain_len, repeat_char, spec_split_plain,
    splice_in, splice_out, split_plain, str_chars, strs_view, sub_chars,
};

verus! {

impl Buffer {
    /// Inserts `size` spaces at column zero of the current line and moves
    /// the cursor right by the same amount.
    pub fn indent_line(&mut self, size: usize)
        requires
            old(self).wf(),
            old(self).lines()[old(self).cursor().0 as int].len() + size <= usize::MAX,
            old(self).cursor().1 + size <= usize::MAX,
        ensures
            final(self).wf(),
            *final(self) == (Buffer {
                content: final(self).content,
                cursor_position: final(self).cursor_position,
                ..*old(self)
            }),
            final(self).lines() == old(self).lines().update(
                old(self).cursor().0 as int,
                Seq::new(size as nat, |i: int| ' ') + old(self).lines()[old(
                    self,
                ).cursor().0 as int],
            ),
            final(self).cursor() == (old(self).cursor().0, old(self).cursor().1 + size as nat),
    {
        let row = self.cursor_position.0;
        let spaces = repeat_char(' ', size);
        let new_line = splice_in(&self.content[row], 0, &spaces);
        self.content.set(row, new_line);
        self.cursor_position.1 = self.cursor_position.1 + size;
        proof {
            let l = old(self).lines()[row as int];
            assert(spaces@ =~= Seq::new(size as nat, |i: int| ' '));
            assert(l.take(0) + spaces@ + l.skip(0) =~= Seq::new(size as nat, |i: int| ' ') + l);
            assert(self.lines() =~= old(self).lines().update(
                row as int,
                Seq::new(size as nat, |i: int| ' ') + l,
            ));
        }
    }

    /// Removes up to `size` characters of leading whitespace from the
    /// current line — never a non-whitespace character — and pulls the
    /// cursor left by the amount removed, saturating at column zero.
    pub fn dedent_line(&mut self, size: usize)
        requires
            old(self).wf(),
        ensures
            final(self).wf(),
            *final(self) == (Buffer {
                content: final(self).content,
                cursor_position: final(self).cursor_position,
                ..*old(self)
            }),
            ({
                let l = old(self).lines()[old(self).cursor().0 as int];
                let rm = if spec_indent_len(l) <= size {
                    spec_indent_len(l)
                } else {
                    size as nat
                };
                &&& final(self).lines() == if rm > 0 {
                    old(self).lines().update(old(self).cursor().0 as int, l.skip(rm as int))
                } else {
                    old(self).lines()
                }
                &&& final(self).cursor().0 == old(self).cursor().0
                &&& final(self).cursor().1 == if rm > 0 {
                    if old(self).cursor().1 >= rm {
                        old(self).cursor().1 - rm
                    } else {
                        0
                    }
                } else {
                    old(self).cursor().1 as int
                }
            }),
    {
        let row = self.cursor_position.0;
        proof {
            crate::buffer::lemma_indent_len(old(self).lines()[row as int]);
        }
        let ws = Self::indent_len_of(&self.content[row]);
        let rm = if ws < size {
            ws
        } else {
            size
        };
        if rm > 0 {
            let new_line = splice_out(&self.content[row], 0, rm);
            self.content.set(row, new_line);
            self.cursor_position.1 = if self.cursor_position.1 >= rm {
                self.cursor_position.1 - rm
            } else {
                0
            };
            proof {
                let l = old(self).lines()[row as int];
                assert(l.take(0) + l.skip(rm as int) =~= l.skip(rm as int));
                assert(self.lines() =~= old(self).lines().update(row as int, l.skip(rm as int)));
            }
        }
    }

    /// Deletes from the previous word start to the cursor on the current
    /// line, leaving the cursor at the word start.
    pub fn delete_word_backward(&mut self)
        requires
            old(self).wf(),
        ensures
            final(self).wf(),
            *final(self) == (Buffer {
                content: final(self).content,
                cursor_position: final(self).cursor_position,
                ..*old(self)
            }),
            ({
                let l = old(self).lines()[old(self).cursor().0 as int];
                let col = old(self).cursor().1;
                let back = spec_word_backward(l, col);
                &&& final(self).lines() == if back < col {
                    old(self).lines().update(
                        old(self).cursor().0 as int,
                        l.take(back as int) + l.skip(col as int),
                    )
                } else {
                    old(self).lines()
                }
                &&& final(self).cursor() == (old(self).cursor().0, back)
            }),
    {
        let start = self.cursor_position.1;
        self.move_word_backward();
        let end = self.cursor_position.1;
        let row = self.cursor_position.0;
        if start > end {
            let new_line = splice_out(&self.content[row], end, start);
            self.content.set(row, new_line);
            proof {
                let l = old(self).lines()[row as int];
                assert(self.lines() =~= old(self).lines().update(
                    row as int,
                    l.take(end as int) + l.skip(start as int),
                ));
            }
        }
    }

    /// Deletes everything before the cursor on the current line and sends
    /// the cursor to column zero.
    pub fn delete_to_line_start(&mut self)
        requires
            old(self).wf(),
        ensures
            final(self).wf(),
            *final(self) == (Buffer {
                content: final(self).content,
                cursor_position: final(self).cursor_position,
                ..*old(self)
            }),
            final(self).lines() == old(self).lines().update(
                old(self).cursor().0 as int,
                old(self).lines()[old(self).cursor().0 as int].skip(old(self).cursor().1 as int),
            ),
            final(self).cursor() == (old(self).cursor().0, 0nat),
    {
        let row = self.cursor_position.0;
        let col = self.cursor_position.1;
        let new_line = splice_out(&self.content[row], 0, col);
        self.content.set(row, new_line);
        self.cursor_position.1 = 0;
        proof {
            let l = old(self).lines()[row as int];
            assert(l.take(0) + l.skip(col as int) =~= l.skip(col as int));
            assert(self.lines() =~= old(self).lines().update(row as int, l.skip(col as int)));
        }
    }

    /// Inserts the characters of `text` at the cursor and advances the
    /// cursor past them.
    pub fn insert_text(&mut self, text: &str)
        requires
            old(self).wf(),
            old(self).lines()[old(self).cursor().0 as int].len() + text@.len() <= usize::MAX,
        ensures
            final(self).wf(),
            *final(self) == (Buffer {
                content: final(self).content,
                cursor_position: final(self).cursor_position,
                ..*old(self)
            }),
            final(self).lines() == ({
                let l = old(self).lines()[old(self).cursor().0 as int];
                let col = old(self).cursor().1 as int;
                old(self).lines().update(
                    old(self).cursor().0 as int,
                    l.take(col) + text@ + l.skip(col),
                )
            }),
            final(self).cursor() == (old(self).cursor().0, old(self).cursor().1 + text@.len()),
    {
        let (row, col) = self.cursor_position;
        let w = str_chars(text);
        let new_line = splice_in(&self.content[row], col, &w);
        self.content.set(row, new_line);
        self.cursor_position.1 = col + w.len();
        proof {
            let l = old(self).lines()[row as int];
            assert(self.lines() =~= old(self).lines().update(
                row as int,
                l.take(col as int) + text@ + l.skip(col as int),
            ));
        }
    }

    /// Inserts the characters of `content` at the cursor and advances the
    /// cursor past them.
    pub fn insert_at_cursor(&mut self, content: &str)
        requires
            old(self).wf(),
            old(self).lines()[old(self).cursor().0 as int].len() + content@.len() <= usize::MAX,
        ensures
            final(self).wf(),
            *final(self) == (Buffer {
                content: final(self).content,
                cursor_position: final(self).cursor_position,
                ..*old(self)
            }),
            final(self).lines() == ({
                let l = old(self).lines()[old(self).cursor().0 as int];
                let col = old(self).cursor().1 as int;
                old(self).lines().update(
                    old(self).cursor().0 as int,
                    l.take(col) + content@ + l.skip(col),
                )
            }),
            final(self).cursor() == (old(self).cursor().0, old(self).cursor().1 + content@.len()),
    {
        self.insert_text(content);
    }

    /// Inserts `c` at the cursor, replacing the character under it when
    /// there is one and appending otherwise; the cursor advances one column.
    pub fn insert_char_replace(&mut self, c: char)
        requires
            old(self).wf(),
            old(self).lines()[old(self).cursor().0 as int].len() < usize::MAX,
        ensures
            final(self).wf(),
            *final(self) == (Buffer {
                content: final(self).content,
                cursor_position: final(self).cursor_position,
                ..*old(self)
            }),
            ({
                let l = old(self).lines()[old(self).cursor().0 as int];
                let col = old(self).cursor().1;
                &&& final(self).lines() == old(self).lines().update(
                    old(self).cursor().0 as int,
                    if col < l.len() {
                        l.update(col as int, c)
                    } else {
                        l.push(c)
                    },
                )
                &&& final(self).cursor() == (old(self).cursor().0, col + 1)
            }),
    {
        let (row, col) = self.cursor_position;
        if col < self.content[row].len() {
            let mut line = sub_chars(&self.content[row], 0, self.content[row].len());
            line.set(col, c);
            self.content.set(row, line);
            proof {
                let l = old(self).lines()[row as int];
                assert(l.subrange(0, l.len() as int) =~= l);
                assert(self.lines() =~= old(self).lines().update(
                    row as int,
                    l.update(col as int, c),
                ));
            }
        } else {
            let mut line = sub_chars(&self.content[row], 0, self.content[row].len());
            line.push(c);
            self.content.set(row, line);
            proof {
                let l = old(self).lines()[row as int];
                assert(l.subrange(0, l.len() as int) =~= l);
                assert(self.lines() =~= old(self).lines().update(row as int, l.push(c)));
            }
        }
        self.cursor_position.1 = col + 1;
    }

    /// Splits the current line at the cursor without copying indentation;
    /// the cursor lands at the start of the new line below.
    pub fn insert_line(&mut self)
        requires
            old(self).wf(),
            old(self).lines().len() < usize::MAX,
        ensures
            final(self).wf(),
            *final(self) == (Buffer {
                content: final(self).content,
                cursor_position: final(self).cursor_position,
                ..*old(self)
            }),
            ({
                let row = old(self).cursor().0;
                let col = old(self).cursor().1;
                let l = old(self).lines()[row as int];
                &&& final(self).lines() == old(self).lines().update(row as int, l.take(col as int))
                    .insert(row as int + 1, l.skip(col as int))
                &&& final(self).cursor() == (row + 1, 0nat)
            }),
    {
        let (row, col) = self.cursor_position;
        let tail = sub_chars(&self.content[row], col, self.content[row].len());
        let head = sub_chars(&self.content[row], 0, col);
        self.content.set(row, head);
        self.content.insert(row + 1, tail);
        self.cursor_position = (row + 1, 0);
        proof {
            let l = old(self).lines()[row as int];
            assert(l.subrange(0, col as int) =~= l.take(col as int));
            assert(l.subrange(col as int, l.len() as int) =~= l.skip(col as int));
            assert(self.lines() =~= old(self).lines().update(row as int, l.take(col as int))
                .insert(row as int + 1, l.skip(col as int)));
        }
    }

    /// Removes the current line, or clears it when it is the only one; the
    /// cursor moves to column zero of the nearest remaining line.
    pub fn delete_line(&mut self)
        requires
            old(self).wf(),
        ensures
            final(self).wf(),
            *final(self) == (Buffer {
                content: final(self).content,
                cursor_position: final(self).cursor_position,
                ..*old(self)
            }),
            old(self).lines().len() > 1 ==> ({
                let row = old(self).cursor().0;
                &&& final(self).lines() == old(self).lines().remove(row as int)
                &&& final(self).cursor().0 == (if (row as int) < old(self).lines().len() - 1 {
                    row as int
                } else {
                    old(self).lines().len() - 2
                })
                &&& final(self).cursor().1 == 0
            }),
            old(self).lines().len() == 1 ==> final(self).lines() == seq![Seq::<char>::empty()]
                && final(self).cursor() == (0nat, 0nat),
    {
        if self.content.len() > 1 {
            let row = self.cursor_position.0;
            self.content.remove(row);
            if self.cursor_position.0 >= self.content.len() {
                self.cursor_position.0 = self.content.len() - 1;
            }
            self.cursor_position.1 = 0;
            proof {
                assert(self.lines() =~= old(self).lines().remove(old(self).cursor().0 as int));
            }
        } else {
            self.content.set(0, Vec::new());
            self.cursor_position = (0, 0);
            proof {
                assert(self.lines() =~= seq![Seq::<char>::empty()]);
            }
        }
    }

    /// Forward delete without recording: removes the character at the
    /// cursor, or joins the next line when at the end of a line; the cursor
    /// stays put.
    pub fn delete_char_fn(&mut self)
        requires
            old(self).wf(),
            old(self).cursor().1 >= old(self).lines()[old(self).cursor().0 as int].len() && old(
                self,
            ).cursor().0 + 1 < old(self).lines().len() ==> old(self).lines()[old(
                self,
            ).cursor().0 as int].len() + old(self).lines()[old(self).cursor().0 as int + 1].len()
                <= usize::MAX,
        ensures
            final(self).wf(),
            *final(self) == (Buffer { content: final(self).content, ..*old(self) }),
            ({
                let row = old(self).cursor().0;
                let col = old(self).cursor().1;
                let l = old(self).lines()[row as int];
                if col < l.len() {
                    final(self).lines() == old(self).lines().update(
                        row as int,
                        l.take(col as int) + l.skip(col as int + 1),
                    )
                } else if row + 1 < old(self).lines().len() {
                    final(self).lines() == old(self).lines().update(
                        row as int,
                        l + old(self).lines()[row as int + 1],
                    ).remove(row as int + 1)
                } else {
                    final(self).lines() == old(self).lines()
                }
            }),
    {
        let (row, col) = self.cursor_position;
        if col < self.content[row].len() {
            let new_line = splice_out(&self.content[row], col, col + 1);
            self.content.set(row, new_line);
            proof {
                let l = old(self).lines()[row as int];
                assert(self.lines() =~= old(self).lines().update(
                    row as int,
                    l.take(col as int) + l.skip(col as int + 1),
                ));
            }
        } else if row < self.content.len() - 1 {
            let joined = concat_chars(&self.content[row], &self.content[row + 1]);
            self.content.set(row, joined);
            self.content.remove(row + 1);
            proof {
                let l = old(self).lines()[row as int];
                assert(self.lines() =~= old(self).lines().update(
                    row as int,
                    l + old(self).lines()[row as int + 1],
                ).remove(row as int + 1));
            }
        }
    }

    /// Removes the character at the cursor into the buffer's clipboard, or —
    /// with nothing under the cursor — joins the next line onto this one.
    pub fn cut_char(&mut self)
        requires
            old(self).wf(),
            old(self).cursor().1 >= old(self).lines()[old(self).cursor().0 as int].len() && old(
                self,
            ).cursor().0 + 1 < old(self).lines().len() ==> old(self).lines()[old(
                self,
            ).cursor().0 as int].len() + old(self).lines()[old(self).cursor().0 as int + 1].len()
                <= usize::MAX,
        ensures
            final(self).wf(),
            *final(self) == (Buffer {
                content: final(self).content,
                clipboard: final(self).clipboard,
                ..*old(self)
            }),
            ({
                let row = old(self).cursor().0;
                let col = old(self).cursor().1;
                let l = old(self).lines()[row as int];
                if col < l.len() {
                    &&& final(self).lines() == old(self).lines().update(
                        row as int,
                        l.take(col as int) + l.skip(col as int + 1),
                    )
                    &&& match (old(self).clipboard, final(self).clipboard) {
                        (Some(c0), Some(c1)) => c1.entries() == spec_yank(
                            c0.entries(),
                            seq![l[col as int]],
                            c0.max(),
                        ) && c1.max() == c0.max(),
                        (None, None) => true,
                        _ => false,
                    }
                } else if row + 1 < old(self).lines().len() {
                    &&& final(self).lines() == old(self).lines().update(
                        row as int,
                        l + old(self).lines()[row as int + 1],
                    ).remove(row as int + 1)
                    &&& final(self).clipboard == old(self).clipboard
                } else {
                    &&& final(self).lines() == old(self).lines()
                    &&& final(self).clipboard == old(self).clipboard
                }
            }),
    {
        let (row, col) = self.cursor_position;
        if col < self.content[row].len() {
            let cut = self.content[row][col];
            let new_line = splice_out(&self.content[row], col, col + 1);
            self.content.set(row, new_line);
            if let Some(clipboard) = &mut self.clipboard {
                let mut text = String::new();
                crate::util::push_char(&mut text, cut);
                clipboard.yank(text);
            }
            proof {
                let l = old(self).lines()[row as int];
                assert(seq![l[col as int]] =~= Seq::<char>::empty().push(l[col as int]));
                assert(self.lines() =~= old(self).lines().update(
                    row as int,
                    l.take(col as int) + l.skip(col as int + 1),
                ));
            }
        } else if row < self.content.len() - 1 {
            let joined = concat_chars(&self.content[row], &self.content[row + 1]);
            self.content.set(row, joined);
            self.content.remove(row + 1);
            proof {
                let l = old(self).lines()[row as int];
                assert(self.lines() =~= old(self).lines().update(
                    row as int,
                    l + old(self).lines()[row as int + 1],
                ).remove(row as int + 1));
            }
        }
    }

    /// Inserts the characters of `piece` at the cursor when they fit the
    /// line within the machine's limits, and advances the cursor past them;
    /// otherwise changes nothing.
    pub(crate) fn try_insert_piece(&mut self, piece: &str)
        requires
            old(self).wf(),
        ensures
            final(self).wf(),
            *final(self) == (Buffer {
                content: final(self).content,
                cursor_position: final(self).cursor_position,
                ..*old(self)
            }),
            old(self).lines()[old(self).cursor().0 as int].len() + piece@.len() <= usize::MAX
                ==> ({
                let l = old(self).lines()[old(self).cursor().0 as int];
                let col = old(self).cursor().1 as int;
                &&& final(self).lines() == old(self).lines().update(
                    old(self).cursor().0 as int,
                    l.take(col) + piece@ + l.skip(col),
                )
                &&& final(self).cursor() == (old(self).cursor().0, old(self).cursor().1
                    + piece@.len())
            }),
            old(self).lines()[old(self).cursor().0 as int].len() + piece@.len() > usize::MAX
                ==> *final(self) == *old(self),
    {
        let row = self.cursor_position.0;
        let plen = piece.unicode_len();
        if plen <= usize::MAX - self.content[row].len() {
            self.insert_text(piece);
        }
    }

    /// Splits the line at the cursor with auto-indent when the machine's
    /// limits allow it; otherwise changes nothing.
    fn try_newline_auto_indent(&mut self)
        requires
            old(self).wf(),
        ensures
            final(self).wf(),
            *final(self) == (Buffer {
                content: final(self).content,
                cursor_position: final(self).cursor_position,
                undo_stack: final(self).undo_stack,
                redo_stack: final(self).redo_stack,
                change_counter: final(self).change_counter,
                ..*old(self)
            }),
            ({
                let l = old(self).lines()[old(self).cursor().0 as int];
                if old(self).change_counter < usize::MAX && 2 * l.len() <= usize::MAX && old(
                    self,
                ).lines().len() < usize::MAX {
                    let row = old(self).cursor().0;
                    let col = old(self).cursor().1;
                    let w = l.take(spec_indent_len(l) as int);
                    let rem = l.skip(col as int);
                    &&& final(self).lines() == old(self).lines().update(
                        row as int,
                        l.take(col as int),
                    ).insert(row as int + 1, w + rem)
                    &&& final(self).cursor() == (row + 1, spec_indent_len(l))
                    &&& final(self).change_counter == old(self).change_counter + 1
                } else {
                    *final(self) == *old(self)
                }
            }),
    {
        let row = self.cursor_position.0;
        let len = self.content[row].len();
        let n = self.content.len();
        if self.change_counter < usize::MAX && len <= usize::MAX / 2 && n < usize::MAX {
            self.insert_newline_auto_indent();
        }
    }

    /// One guarded inline insertion, as the pastes perform it: the text
    /// goes in at the cursor when the line stays within the machine's
    /// size, else nothing changes.
    pub open spec fn spec_guarded_insert(
        st: (Seq<Seq<char>>, (nat, nat)),
        text: Seq<char>,
    ) -> (Seq<Seq<char>>, (nat, nat)) {
        let l = st.0[st.1.0 as int];
        if l.len() + text.len() <= usize::MAX {
            (
                st.0.update(
                    st.1.0 as int,
                    l.take(st.1.1 as int) + text + l.skip(st.1.1 as int),
                ),
                (st.1.0, st.1.1 + text.len()),
            )
        } else {
            st
        }
    }

    /// One guarded auto-indented split, as the pastes perform it between
    /// lines: the line splits at the cursor when it stays within the
    /// machine's size, else nothing changes.
    pub open spec fn spec_guarded_split(
        st: (Seq<Seq<char>>, (nat, nat)),
    ) -> (Seq<Seq<char>>, (nat, nat)) {
        let (row, col) = st.1;
        let l = st.0[row as int];
        if 2 * l.len() <= usize::MAX && st.0.len() < usize::MAX {
            let w = l.take(spec_indent_len(l) as int);
            let rem = l.skip(col as int);
            (
                st.0.update(row as int, l.take(col as int)).insert(row as int + 1, w + rem),
                (row + 1, spec_indent_len(l)),
            )
        } else {
            st
        }
    }

    /// The paste fold over line pieces: each piece is inserted at the
    /// cursor and, when the pasted text held a newline, every insertion is
    /// followed by an auto-indented split.
    pub open spec fn spec_paste_pieces(
        st: (Seq<Seq<char>>, (nat, nat)),
        pieces: Seq<Seq<char>>,
        i: int,
        multi: bool,
    ) -> (Seq<Seq<char>>, (nat, nat))
        decreases pieces.len() - i,
    {
        if i < 0 || i >= pieces.len() {
            st
        } else {
            let st1 = Self::spec_guarded_insert(st, pieces[i]);
            let st2 = if multi {
                Self::spec_guarded_split(st1)
            } else {
                st1
            };
            Self::spec_paste_pieces(st2, pieces, i + 1, multi)
        }
    }

    /// The clipboard-paste fold over line pieces: pieces after the first
    /// are placed on auto-indented new lines.
    pub open spec fn spec_paste_clip(
        st: (Seq<Seq<char>>, (nat, nat)),
        pieces: Seq<Seq<char>>,
        i: int,
    ) -> (Seq<Seq<char>>, (nat, nat))
        decreases pieces.len() - i,
    {
        if i < 0 || i >= pieces.len() {
            st
        } else {
            let st0 = if i > 0 {
                Self::spec_guarded_split(st)
            } else {
                st
            };
            Self::spec_paste_clip(Self::spec_guarded_insert(st0, pieces[i]), pieces, i + 1)
        }
    }

    /// Inserts possibly multi-line text at the cursor: each line of `text`
    /// is inserted in turn and, when `text` contains a newline, every
    /// insertion is followed by an auto-indented line split.
    pub fn paste_at_cursor(&mut self, text: &str)
        requires
            old(self).wf(),
        ensures
            final(self).wf(),
            *final(self) == (Buffer {
                content: final(self).content,
                cursor_position: final(self).cursor_position,
                undo_stack: final(self).undo_stack,
                redo_stack: final(self).redo_stack,
                change_counter: final(self).change_counter,
                ..*old(self)
            }),
            (forall|i: int| 0 <= i < text@.len() ==> text@[i] != '\n') && text@.len() > 0 && old(
                self,
            ).lines()[old(self).cursor().0 as int].len() + text@.len() <= usize::MAX ==> ({
                let l = old(self).lines()[old(self).cursor().0 as int];
                let col = old(self).cursor().1 as int;
                &&& final(self).lines() == old(self).lines().update(
                    old(self).cursor().0 as int,
                    l.take(col) + text@ + l.skip(col),
                )
                &&& final(self).cursor() == (old(self).cursor().0, old(self).cursor().1
                    + text@.len())
            }),
            old(self).change_counter + crate::util::spec_split_lines(text@).len() <= usize::MAX
                ==> ({
                let st = Self::spec_paste_pieces(
                    (old(self).lines(), old(self).cursor()),
                    crate::util::spec_split_lines(text@),
                    0,
                    exists|k: int| 0 <= k < text@.len() && text@[k] == '\n',
                );
                final(self).lines() == st.0 && final(self).cursor() == st.1
            }),
    {
        let pieces = crate::util::split_lines(text);
        let multi = crate::util::contains_newline(text);
        proof {
            if forall|i: int| 0 <= i < text@.len() ==> text@[i] != '\n' {
                crate::util::lemma_split_lines_nl_free(text@);
            }
        }
        let mut i: usize = 0;
        while i < pieces.len()
            invariant
                self.wf(),
                crate::util::strs_view(pieces@) == crate::util::spec_split_lines(text@),
                multi == (exists|k: int| 0 <= k < text@.len() && text@[k] == '\n'),
                i == 0 ==> *self == *old(self),
                *self == (Buffer {
                    content: self.content,
                    cursor_position: self.cursor_position,
                    undo_stack: self.undo_stack,
                    redo_stack: self.redo_stack,
                    change_counter: self.change_counter,
                    ..*old(self)
                }),
                !multi && text@.len() > 0 && i > 0 ==> pieces@.len() == 1 && pieces@[0]@ == text@
                    && (old(self).lines()[old(self).cursor().0 as int].len() + text@.len()
                    <= usize::MAX ==> ({
                    let l = old(self).lines()[old(self).cursor().0 as int];
                    let col = old(self).cursor().1 as int;
                    &&& self.lines() == old(self).lines().update(
                        old(self).cursor().0 as int,
                        l.take(col) + text@ + l.skip(col),
                    )
                    &&& self.cursor() == (old(self).cursor().0, old(self).cursor().1
                        + text@.len())
                })),
                i <= pieces@.len(),
                old(self).change_counter + pieces@.len() <= usize::MAX ==> ({
                    &&& self.change_counter <= old(self).change_counter + i
                    &&& Self::spec_paste_pieces(
                        (old(self).lines(), old(self).cursor()),
                        crate::util::strs_view(pieces@),
                        0,
                        multi,
                    ) == Self::spec_paste_pieces(
                        (self.lines(), self.cursor()),
                        crate::util::strs_view(pieces@),
                        i as int,
                        multi,
                    )
                }),
            decreases pieces.len() - i,
        {
            proof {
                if !multi && text@.len() > 0 {
                    crate::util::lemma_split_lines_nl_free(text@);
                    assert(crate::util::strs_view(pieces@) =~= seq![text@]);
                    assert(crate::util::strs_view(pieces@).len() == pieces@.len());
                    assert(pieces@[0]@ == crate::util::strs_view(pieces@)[0]);
                }
            }
            let ghost st_pre = (self.lines(), self.cursor());
            proof {
                assert(pieces@[i as int]@ == crate::util::strs_view(pieces@)[i as int]);
            }
            self.try_insert_piece(pieces[i].as_str());
            if multi {
                self.try_newline_auto_indent();
            }
            i = i + 1;
            proof {
                if old(self).change_counter + pieces@.len() <= usize::MAX {
                    let ps = crate::util::strs_view(pieces@);
                    let st1 = Self::spec_guarded_insert(st_pre, ps[i - 1]);
                    let st2 = if multi {
                        Self::spec_guarded_split(st1)
                    } else {
                        st1
                    };
                    assert((self.lines(), self.cursor()) == st2);
                    assert(Self::spec_paste_pieces(st_pre, ps, i - 1, multi)
                        == Self::spec_paste_pieces(st2, ps, i as int, multi));
                }
            }
        }
        proof {
            if (forall|k: int| 0 <= k < text@.len() ==> text@[k] != '\n') && text@.len() > 0 {
                crate::util::lemma_split_lines_nl_free(text@);
                assert(crate::util::strs_view(pieces@) =~= seq![text@]);
                assert(crate::util::strs_view(pieces@).len() == pieces@.len());
                assert(pieces@.len() == 1);
            }
        }
    }

    /// Pastes the most recent clipboard entry at the cursor: a single-line
    /// entry is inserted in place, a multi-line entry is inserted line by
    /// line with auto-indented splits between the lines.
    pub fn paste(&mut self)
        requires
            old(self).wf(),
        ensures
            final(self).wf(),
            *final(self) == (Buffer {
                content: final(self).content,
                cursor_position: final(self).cursor_position,
                undo_stack: final(self).undo_stack,
                redo_stack: final(self).redo_stack,
                change_counter: final(self).change_counter,
                ..*old(self)
            }),
            (match old(self).clipboard {
                Some(c) => c.entries().len() == 0,
                None => true,
            }) ==> *final(self) == *old(self),
            (match old(self).clipboard {
                Some(c) => c.entries().len() > 0 && crate::util::spec_split_lines(
                    c.entries()[0],
                ).len() <= 1 && old(self).lines()[old(self).cursor().0 as int].len()
                    + c.entries()[0].len() <= usize::MAX ==> ({
                    let text = c.entries()[0];
                    let l = old(self).lines()[old(self).cursor().0 as int];
                    let col = old(self).cursor().1 as int;
                    &&& final(self).lines() == old(self).lines().update(
                        old(self).cursor().0 as int,
                        l.take(col) + text + l.skip(col),
                    )
                    &&& final(self).cursor() == (old(self).cursor().0, old(self).cursor().1
                        + text.len())
                }),
                None => true,
            }),
            (match old(self).clipboard {
                Some(c) => ({
                    let pieces = crate::util::spec_split_lines(c.entries()[0]);
                    c.entries().len() > 0 && pieces.len() > 1 && old(self).change_counter
                        + pieces.len() <= usize::MAX ==> ({
                        let st = Self::spec_paste_clip(
                            (old(self).lines(), old(self).cursor()),
                            pieces,
                            0,
                        );
                        final(self).lines() == st.0 && final(self).cursor() == st.1
                    })
                }),
                None => true,
            }),
    {
        let content_opt: Option<String> = match &self.clipboard {
            Some(c) => match c.peek() {
                Some(s) => Some(s.clone()),
                None => None,
            },
            None => None,
        };
        if let Some(content) = content_opt {
            let pieces = crate::util::split_lines(content.as_str());
            if pieces.len() > 1 {
                let mut i: usize = 0;
                while i < pieces.len()
                    invariant
                        self.wf(),
                        i <= pieces@.len(),
                        crate::util::strs_view(pieces@) == crate::util::spec_split_lines(
                            content@,
                        ),
                        (match old(self).clipboard {
                            Some(c) => c.entries().len() > 0 && content@ == c.entries()[0],
                            None => false,
                        }),
                        pieces@.len() > 1,
                        *self == (Buffer {
                            content: self.content,
                            cursor_position: self.cursor_position,
                            undo_stack: self.undo_stack,
                            redo_stack: self.redo_stack,
                            change_counter: self.change_counter,
                            ..*old(self)
                        }),
                        old(self).change_counter + pieces@.len() <= usize::MAX ==> ({
                            &&& self.change_counter <= old(self).change_counter + i
                            &&& Self::spec_paste_clip(
                                (old(self).lines(), old(self).cursor()),
                                crate::util::strs_view(pieces@),
                                0,
                            ) == Self::spec_paste_clip(
                                (self.lines(), self.cursor()),
                                crate::util::strs_view(pieces@),
                                i as int,
                            )
                        }),
                    decreases pieces.len() - i,
                {
                    let ghost st_pre = (self.lines(), self.cursor());
                    proof {
                        assert(pieces@[i as int]@ == crate::util::strs_view(pieces@)[i as int]);
                    }
                    if i > 0 {
                        self.try_newline_auto_indent();
                    }
                    self.try_insert_piece(pieces[i].as_str());
                    i = i + 1;
                    proof {
                        if old(self).change_counter + pieces@.len() <= usize::MAX {
                            let ps = crate::util::strs_view(pieces@);
                            let st0 = if i - 1 > 0 {
                                Self::spec_guarded_split(st_pre)
                            } else {
                                st_pre
                            };
                            let st1 = Self::spec_guarded_insert(st0, ps[i - 1]);
                            assert((self.lines(), self.cursor()) == st1);
                            assert(Self::spec_paste_clip(st_pre, ps, i - 1)
                                == Self::spec_paste_clip(st1, ps, i as int));
                        }
                    }
                }
            } else {
                self.try_insert_piece(content.as_str());
            }
        }
    }

    /// Inserts the newline-separated pieces of `content` as whole lines
    /// starting at `row`, and leaves the cursor at the start of the last
    /// inserted line.
    pub fn insert_lines_at(&mut self, row: usize, content: &str)
        requires
            old(self).wf(),
            row <= old(self).lines().len(),
            old(self).lines().len() + content@.len() + 1 <= usize::MAX,
        ensures
            final(self).wf(),
            *final(self) == (Buffer {
                content: final(self).content,
                cursor_position: final(self).cursor_position,
                ..*old(self)
            }),
            final(self).lines() == old(self).lines().take(row as int) + spec_split_plain(content@)
                + old(self).lines().skip(row as int),
            final(self).cursor().0 == row + spec_split_plain(content@).len() - 1,
            final(self).cursor().1 == 0,
    {
        let pieces = split_plain(content);
        proof {
            lemma_split_plain_len(content@);
        }
        let mut i: usize = 0;
        while i < pieces.len()
            invariant
                i <= pieces@.len(),
                row + pieces@.len() <= old(self).lines().len() + content@.len() + 1,
                old(self).lines().len() + content@.len() + 1 <= usize::MAX,
                row <= old(self).lines().len(),
                *self == (Buffer {
                    content: self.content,
                    cursor_position: self.cursor_position,
                    ..*old(self)
                }),
                strs_view(pieces@) == spec_split_plain(content@),
                self.lines() == old(self).lines().take(row as int) + spec_split_plain(
                    content@,
                ).take(i as int) + old(self).lines().skip(row as int),
                self.cursor_position == old(self).cursor_position,
            decreases pieces.len() - i,
        {
            let ghost prev = self.lines();
            let chars = str_chars(pieces[i].as_str());
            proof {
                assert(chars@ == strs_view(pieces@)[i as int]);
            }
            proof {
                assert(self.lines().len() == old(self).lines().len() + i);
                assert(row + i <= self.content@.len());
            }
            self.content.insert(row + i, chars);
            i = i + 1;
            proof {
                assert(self.lines() =~= prev.insert(row + i - 1, chars@));
                assert(self.lines() =~= old(self).lines().take(row as int) + spec_split_plain(
                    content@,
                ).take(i as int) + old(self).lines().skip(row as int));
            }
        }
        proof {
            assert(spec_split_plain(content@).take(spec_split_plain(content@).len() as int)
                =~= spec_split_plain(content@));
        }
        self.cursor_position = (row + pieces.len() - 1, 0);
        proof {
            assert(self.lines()[self.cursor().0 as int]
                == spec_split_plain(content@)[spec_split_plain(content@).len() - 1]);
        }
    }

    /// Yanks the text of the current line into the buffer's clipboard.
    pub fn yank(&mut self)
        requires
            old(self).wf(),
        ensures
            final(self).wf(),
            *final(self) == (Buffer { clipboard: final(self).clipboard, ..*old(self) }),
            match (old(self).clipboard, final(self).clipboard) {
                (Some(c0), Some(c1)) => c1.entries() == spec_yank(
                    c0.entries(),
                    old(self).lines()[old(self).cursor().0 as int],
                    c0.max(),
                ) && c1.max() == c0.max(),
                (None, None) => true,
                _ => false,
            },
    {
        let row = self.cursor_position.0;
        let line = chars_to_string(&self.content[row]);
        if let Some(clipboard) = &mut self.clipboard {
            clipboard.yank(line);
        }
    }
}

} // verus!
