//! Visual selections and text objects: the anchor/cursor pair, the selected
//! text, selection-wide deletion and indentation, block insertion, and the
//! cursor-relative spans for words, paragraphs and delimiter pairs.
//!
//! A selection region is computed lazily from the anchor and the cursor and
//! never stored normalised; the anchor may lie before or after the cursor.

use vstd::prelude::*;

use crate::buffer::{clamp_cursor, spec_indent_len, Buffer, SelectionType, VisualMode};
use crate::util::{
    chars_to_string, concat_chars, is_alnum, is_ws, push_char, repeat_char, spec_is_alnum,
    spec_is_ws, spec_split_plain, splice_in, splice_out, split_plain, str_chars, strs_view,
    sub_chars,
};

verus! {

/// The rows `[r, end_row)` in full followed by the first `end_col` columns
/// of row `end_row`, joined with newlines.
pub open spec fn spec_rows_cat(lines: Seq<Seq<char>>, r: int, end_row: int, end_col: int) -> Seq<
    char,
>
    decreases end_row - r,
{
    if r >= end_row {
        lines[end_row].take(end_col)
    } else {
        lines[r] + seq!['\n'] + spec_rows_cat(lines, r + 1, end_row, end_col)
    }
}

/// Whether the char-mode selection between `a` and `b` stays inside
/// `lines`.
pub open spec fn spec_sel_in_bounds(lines: Seq<Seq<char>>, a: (nat, nat), b: (nat, nat)) -> bool {
    let sr = if a.0 <= b.0 {
        a.0
    } else {
        b.0
    };
    let er = if a.0 <= b.0 {
        b.0
    } else {
        a.0
    };
    if sr == er {
        er < lines.len() && a.1 <= lines[sr as int].len() && b.1 <= lines[sr as int].len()
    } else {
        let c1 = if a.0 == sr {
            a.1
        } else {
            b.1
        };
        let c2 = if b.0 == er {
            b.1
        } else {
            a.1
        };
        er < lines.len() && c1 <= lines[sr as int].len() && c2 <= lines[er as int].len()
    }
}

/// The text of the char-mode selection between `a` and `b`: on one row the
/// span between the two columns; over several rows the tail of the first
/// row, the middle rows whole, and the head of the last row, joined with
/// newlines.
pub open spec fn spec_selected_text(lines: Seq<Seq<char>>, a: (nat, nat), b: (nat, nat)) -> Seq<
    char,
> {
    let sr = if a.0 <= b.0 {
        a.0
    } else {
        b.0
    };
    let er = if a.0 <= b.0 {
        b.0
    } else {
        a.0
    };
    if sr == er {
        let cmin = if a.1 <= b.1 {
            a.1
        } else {
            b.1
        };
        let cmax = if a.1 <= b.1 {
            b.1
        } else {
            a.1
        };
        lines[sr as int].subrange(cmin as int, cmax as int)
    } else {
        let c1 = if a.0 == sr {
            a.1
        } else {
            b.1
        };
        let c2 = if b.0 == er {
            b.1
        } else {
            a.1
        };
        lines[sr as int].skip(c1 as int) + seq!['\n'] + spec_rows_cat(
            lines,
            sr as int + 1,
            er as int,
            c2 as int,
        )
    }
}

impl Buffer {
    /// Chooses whether text objects select inside or around their
    /// delimiters.
    pub fn set_selection_type(&mut self, selection_type: SelectionType)
        ensures
            *final(self) == (Buffer { selection_type: Some(selection_type), ..*old(self) }),
    {
        self.selection_type = Some(selection_type);
    }

    /// Anchors a visual selection at the cursor.
    pub fn start_visual(&mut self)
        ensures
            *final(self) == (Buffer {
                visual_start: Some(old(self).cursor_position),
                ..*old(self)
            }),
    {
        self.visual_start = Some(self.cursor_position);
    }

    /// The selection as `(anchor, cursor)`, if one is active.
    pub fn get_visual_selection(&self) -> (r: Option<((usize, usize), (usize, usize))>)
        ensures
            match r {
                Some(p) => self.visual_start == Some(p.0) && p.1 == self.cursor_position,
                None => self.visual_start is None,
            },
    {
        match self.visual_start {
            Some(start) => Some((start, self.cursor_position)),
            None => None,
        }
    }

    /// Stashes the current selection bounds.
    pub fn store_visual_bounds(&mut self)
        ensures
            *final(self) == (Buffer {
                visual_bounds: match old(self).visual_start {
                    Some(s) => Some((s, old(self).cursor_position)),
                    None => None,
                },
                ..*old(self)
            }),
    {
        self.visual_bounds = self.get_visual_selection();
    }

    /// Restores stashed selection bounds: the anchor as stored, the cursor
    /// clamped to the content.
    pub fn restore_visual_bounds(&mut self)
        requires
            old(self).wf(),
        ensures
            final(self).wf(),
            *final(self) == (Buffer {
                visual_start: final(self).visual_start,
                cursor_position: final(self).cursor_position,
                ..*old(self)
            }),
            match old(self).visual_bounds {
                Some(p) => final(self).visual_start == Some(p.0) && final(self).cursor()
                    == clamp_cursor(old(self).lines(), (p.1.0 as nat, p.1.1 as nat)),
                None => *final(self) == *old(self),
            },
    {
        if let Some((start, end)) = self.visual_bounds {
            self.visual_start = Some(start);
            self.clamp_cursor_to(end);
        }
    }

    /// Starts the given visual interpretation, or clears the selection when
    /// it is already active; starting anchors the selection at the cursor
    /// unless an anchor exists.
    pub fn toggle_visual_mode(&mut self, mode: VisualMode)
        ensures
            old(self).visual_mode == Some(mode) ==> *final(self) == (Buffer {
                visual_start: None,
                visual_mode: None,
                visual_bounds: None,
                selection_type: None,
                ..*old(self)
            }),
            old(self).visual_mode != Some(mode) ==> *final(self) == (Buffer {
                visual_mode: Some(mode),
                visual_start: if old(self).visual_start is Some {
                    old(self).visual_start
                } else {
                    Some(old(self).cursor_position)
                },
                ..*old(self)
            }),
    {
        let same = match self.visual_mode {
            Some(current) => current == mode,
            None => false,
        };
        if same {
            self.clear_visual();
        } else {
            self.visual_mode = Some(mode);
            if self.visual_start.is_none() {
                self.start_visual();
            }
        }
    }

    /// Drops the selection: anchor, interpretation, stashed bounds and
    /// text-object kind.
    pub fn clear_visual(&mut self)
        ensures
            *final(self) == (Buffer {
                visual_start: None,
                visual_mode: None,
                visual_bounds: None,
                selection_type: None,
                ..*old(self)
            }),
    {
        self.visual_start = None;
        self.visual_mode = None;
        self.visual_bounds = None;
        self.selection_type = None;
    }

    /// The text of the active char-mode selection, or `None` when no
    /// selection is active or its bounds have fallen outside the content.
    pub fn get_selected_text(&self) -> (r: Option<String>)
        requires
            self.wf(),
        ensures
            match self.visual_start {
                None => r is None,
                Some(s) => {
                    let a = (s.0 as nat, s.1 as nat);
                    let b = self.cursor();
                    if spec_sel_in_bounds(self.lines(), a, b) {
                        match r {
                            Some(text) => text@ == spec_selected_text(self.lines(), a, b),
                            None => false,
                        }
                    } else {
                        r is None
                    }
                },
            },
    {
        let start = match self.visual_start {
            Some(s) => s,
            None => {
                return None;
            },
        };
        let end = self.cursor_position;
        let (sr, er) = if start.0 <= end.0 {
            (start.0, end.0)
        } else {
            (end.0, start.0)
        };
        if sr == er {
            if er >= self.content.len() || start.1 > self.content[sr].len() || end.1
                > self.content[sr].len() {
                return None;
            }
            let (cmin, cmax) = if start.1 <= end.1 {
                (start.1, end.1)
            } else {
                (end.1, start.1)
            };
            return Some(chars_to_string(&sub_chars(&self.content[sr], cmin, cmax)));
        }
        let c1 = if start.0 == sr {
            start.1
        } else {
            end.1
        };
        let c2 = if end.0 == er {
            end.1
        } else {
            start.1
        };
        if er >= self.content.len() || c1 > self.content[sr].len() || c2
            > self.content[er].len() {
            return None;
        }
        let mut text = chars_to_string(&sub_chars(&self.content[sr], c1, self.content[sr].len()));
        push_char(&mut text, '\n');
        let ghost a = (start.0 as nat, start.1 as nat);
        let ghost b = self.cursor();
        proof {
            let l = self.lines()[sr as int];
            assert(l.subrange(c1 as int, l.len() as int) =~= l.skip(c1 as int));
        }
        let mut r: usize = sr + 1;
        while r < er
            invariant
                sr < r <= er,
                er < self.lines().len(),
                c2 <= self.lines()[er as int].len(),
                text@ + spec_rows_cat(self.lines(), r as int, er as int, c2 as int)
                    == spec_selected_text(self.lines(), a, b),
                a == (start.0 as nat, start.1 as nat),
                b == self.cursor(),
            decreases er + 1 - r,
        {
            let ghost before = text@;
            let mut line_text = chars_to_string(&self.content[r]);
            text.append(line_text.as_str());
            push_char(&mut text, '\n');
            proof {
                assert(text@ =~= before + (self.lines()[r as int] + seq!['\n']));
                assert(before + (self.lines()[r as int] + seq!['\n']) + spec_rows_cat(
                    self.lines(),
                    r as int + 1,
                    er as int,
                    c2 as int,
                ) =~= before + spec_rows_cat(self.lines(), r as int, er as int, c2 as int));
            }
            r = r + 1;
        }
        let tail = chars_to_string(&sub_chars(&self.content[er], 0, c2));
        text.append(tail.as_str());
        proof {
            let le = self.lines()[er as int];
            assert(le.subrange(0, c2 as int) =~= le.take(c2 as int));
        }
        Some(text)
    }
}

/// What char-mode selection deletion does: on a single (existing) row it
/// removes the normalised column span; over several rows it removes the
/// tail of the first row, the middle rows whole, and the head of the last
/// row, joining what remains of the first and last rows. Columns are
/// clamped to their lines, the cursor parks at the selection's start, and
/// a selection reaching outside the document (or a join past the machine's
/// size) changes nothing.
pub open spec fn spec_del_char_sel(
    lines: Seq<Seq<char>>,
    cur: (nat, nat),
    a: (nat, nat),
    b: (nat, nat),
) -> (Seq<Seq<char>>, (nat, nat)) {
    let sr = if a.0 <= b.0 {
        a.0
    } else {
        b.0
    };
    let er = if a.0 <= b.0 {
        b.0
    } else {
        a.0
    };
    if sr == er && sr < lines.len() {
        let cmin = if a.1 <= b.1 {
            a.1
        } else {
            b.1
        };
        let cmax = if a.1 <= b.1 {
            b.1
        } else {
            a.1
        };
        let len = lines[sr as int].len();
        let es = if cmin <= len {
            cmin
        } else {
            len
        };
        let ee = if cmax <= len {
            cmax
        } else {
            len
        };
        (
            lines.update(sr as int, lines[sr as int].take(es as int) + lines[sr as int].skip(ee as int)),
            (sr, es),
        )
    } else if sr < er && er < lines.len() {
        let c1 = if a.0 <= b.0 {
            a.1
        } else {
            b.1
        };
        let c2 = if a.0 <= b.0 {
            b.1
        } else {
            a.1
        };
        let e1 = if c1 <= lines[sr as int].len() {
            c1
        } else {
            lines[sr as int].len()
        };
        let e2 = if c2 <= lines[er as int].len() {
            c2
        } else {
            lines[er as int].len()
        };
        let joined = lines[sr as int].take(e1 as int) + lines[er as int].skip(e2 as int);
        if joined.len() <= usize::MAX {
            (lines.take(sr as int).push(joined) + lines.skip(er as int + 1), (sr, e1))
        } else {
            (lines, cur)
        }
    } else {
        (lines, cur)
    }
}

/// What line-mode selection deletion does: the normalised row range,
/// clamped to the document, is removed whole; at least one (possibly empty)
/// line always remains, and the cursor parks at column zero of the nearest
/// remaining row.
pub open spec fn spec_del_line_sel(
    lines: Seq<Seq<char>>,
    cur: (nat, nat),
    a0: nat,
    b0: nat,
) -> (Seq<Seq<char>>, (nat, nat)) {
    let sr = if a0 <= b0 {
        a0
    } else {
        b0
    };
    let er = if a0 <= b0 {
        b0
    } else {
        a0
    };
    if sr >= lines.len() {
        (lines, cur)
    } else {
        let ee = if er < lines.len() {
            er as int
        } else {
            lines.len() - 1
        };
        let rest = lines.take(sr as int) + lines.skip(ee + 1);
        let out = if rest.len() == 0 {
            seq![Seq::<char>::empty()]
        } else {
            rest
        };
        let row = if (sr as int) < out.len() {
            sr as int
        } else {
            out.len() - 1
        };
        (out, (row as nat, 0))
    }
}

/// What block-mode selection deletion does: the normalised column span is
/// removed independently on every row of the normalised row range (clamped
/// to the document); rows shorter than the span's start keep their text.
/// The cursor parks at the block's top-left corner, clamped to the result.
pub open spec fn spec_del_block_sel(
    lines: Seq<Seq<char>>,
    a: (nat, nat),
    b: (nat, nat),
) -> (Seq<Seq<char>>, (nat, nat)) {
    let sr = if a.0 <= b.0 {
        a.0
    } else {
        b.0
    };
    let er = if a.0 <= b.0 {
        b.0
    } else {
        a.0
    };
    let cmin = if a.1 <= b.1 {
        a.1
    } else {
        b.1
    };
    let cmax = if a.1 <= b.1 {
        b.1
    } else {
        a.1
    };
    let out = Seq::new(
        lines.len(),
        |r: int|
            if sr <= r && r <= er && cmin < lines[r].len() {
                let ee = if cmax <= lines[r].len() {
                    cmax as int
                } else {
                    lines[r].len() as int
                };
                lines[r].take(cmin as int) + lines[r].skip(ee)
            } else {
                lines[r]
            },
    );
    (out, clamp_cursor(out, (sr, cmin)))
}

impl Buffer {
    /// Removes the char-mode selection between the two positions: the
    /// normalised span on one row, or — over several rows — the tail of the
    /// first row, the middle rows whole, and the head of the last row, with
    /// the remains of the first and last rows joined. The cursor parks at
    /// the selection's start.
    pub(crate) fn delete_char_selection(&mut self, start: (usize, usize), end: (usize, usize))
        requires
            old(self).wf(),
        ensures
            final(self).wf(),
            *final(self) == (Buffer {
                content: final(self).content,
                cursor_position: final(self).cursor_position,
                ..*old(self)
            }),
            ({
                let out = spec_del_char_sel(
                    old(self).lines(),
                    old(self).cursor(),
                    (start.0 as nat, start.1 as nat),
                    (end.0 as nat, end.1 as nat),
                );
                final(self).lines() == out.0 && final(self).cursor() == out.1
            }),
    {
        let sr = if start.0 <= end.0 {
            start.0
        } else {
            end.0
        };
        let er = if start.0 <= end.0 {
            end.0
        } else {
            start.0
        };
        if sr == er && sr < self.content.len() {
            let cmin = if start.1 <= end.1 {
                start.1
            } else {
                end.1
            };
            let cmax = if start.1 <= end.1 {
                end.1
            } else {
                start.1
            };
            let len = self.content[sr].len();
            let es = if cmin <= len {
                cmin
            } else {
                len
            };
            let ee = if cmax <= len {
                cmax
            } else {
                len
            };
            let new_line = splice_out(&self.content[sr], es, ee);
            self.content.set(sr, new_line);
            self.cursor_position = (sr, es);
            proof {
                let l = old(self).lines()[sr as int];
                assert(self.lines() =~= old(self).lines().update(
                    sr as int,
                    l.take(es as int) + l.skip(ee as int),
                ));
            }
        } else if sr < er && er < self.content.len() {
            let c1 = if start.0 <= end.0 {
                start.1
            } else {
                end.1
            };
            let c2 = if start.0 <= end.0 {
                end.1
            } else {
                start.1
            };
            let len1 = self.content[sr].len();
            let e1 = if c1 <= len1 {
                c1
            } else {
                len1
            };
            let len2 = self.content[er].len();
            let e2 = if c2 <= len2 {
                c2
            } else {
                len2
            };
            if len2 - e2 <= usize::MAX - e1 {
                let head = sub_chars(&self.content[sr], 0, e1);
                let tail = sub_chars(&self.content[er], e2, len2);
                let joined = concat_chars(&head, &tail);
                self.content.set(sr, joined);
                proof {
                    let first = old(self).lines()[sr as int];
                    let last = old(self).lines()[er as int];
                    assert(first.subrange(0, e1 as int) =~= first.take(e1 as int));
                    assert(last.subrange(e2 as int, len2 as int) =~= last.skip(e2 as int));
                }
                let ghost target = spec_del_char_sel(
                    old(self).lines(),
                    old(self).cursor(),
                    (start.0 as nat, start.1 as nat),
                    (end.0 as nat, end.1 as nat),
                ).0;
                let n0: usize = self.content.len();
                let mut k: usize = sr + 1;
                proof {
                    assert(self.lines().len() == n0);
                }
                while k <= er
                    invariant
                        sr < k <= er + 1,
                        er < n0,
                        *self == (Buffer {
                            content: self.content,
                            cursor_position: self.cursor_position,
                            ..*old(self)
                        }),
                        self.cursor_position == old(self).cursor_position,
                        self.lines().len() == sr + 1 + (n0 - k),
                        forall|j: int|
                            0 <= j <= sr ==> #[trigger] self.lines()[j] == (if j < sr {
                                old(self).lines()[j]
                            } else {
                                target[sr as int]
                            }),
                        forall|j: int|
                            sr < j < self.lines().len() ==> #[trigger] self.lines()[j] == old(
                                self,
                            ).lines()[j + (k - sr - 1)],
                    decreases er + 1 - k,
                {
                    let ghost pre = self.lines();
                    self.content.remove(sr + 1);
                    k = k + 1;
                    proof {
                        assert(self.content@.len() == pre.len() - 1);
                        assert forall|j: int| 0 <= j <= sr implies #[trigger] self.lines()[j] == (
                        if j < sr {
                            old(self).lines()[j]
                        } else {
                            target[sr as int]
                        }) by {
                            assert(self.lines()[j] == pre[j]);
                        }
                        assert forall|j: int|
                            sr < j < self.lines().len() implies #[trigger] self.lines()[j] == old(
                            self,
                        ).lines()[j + (k - sr - 1)] by {
                            assert(self.lines()[j] == pre[j + 1]);
                            assert(pre[j + 1] == old(self).lines()[j + 1 + (k - 1 - sr - 1)]);
                        }
                    }
                }
                self.cursor_position = (sr, e1);
                proof {
                    assert(self.lines() =~= target);
                }
            }
        }
    }

    /// Removes every row of the normalised row range, keeping at least one
    /// (possibly empty) line in the document.
    pub(crate) fn delete_line_selection(&mut self, start_row: usize, end_row: usize)
        requires
            old(self).wf(),
        ensures
            final(self).wf(),
            *final(self) == (Buffer {
                content: final(self).content,
                cursor_position: final(self).cursor_position,
                ..*old(self)
            }),
            ({
                let out = spec_del_line_sel(
                    old(self).lines(),
                    old(self).cursor(),
                    start_row as nat,
                    end_row as nat,
                );
                final(self).lines() == out.0 && final(self).cursor() == out.1
            }),
    {
        let sr = if start_row <= end_row {
            start_row
        } else {
            end_row
        };
        let er = if start_row <= end_row {
            end_row
        } else {
            start_row
        };
        if sr >= self.content.len() {
            return;
        }
        let n0: usize = self.content.len();
        let ee = if er < n0 {
            er
        } else {
            n0 - 1
        };
        let mut k: usize = sr;
        while k <= ee
            invariant
                sr <= k <= ee + 1,
                sr <= ee,
                ee < n0,
                n0 == old(self).lines().len(),
                *self == (Buffer {
                    content: self.content,
                    cursor_position: self.cursor_position,
                    ..*old(self)
                }),
                self.cursor_position == old(self).cursor_position,
                self.lines().len() == sr + (n0 - k),
                forall|j: int|
                    0 <= j < sr ==> #[trigger] self.lines()[j] == old(self).lines()[j],
                forall|j: int|
                    sr <= j < self.lines().len() ==> #[trigger] self.lines()[j] == old(
                        self,
                    ).lines()[j + (k - sr)],
            decreases ee + 1 - k,
        {
            let ghost pre = self.lines();
            self.content.remove(sr);
            k = k + 1;
            proof {
                assert(self.content@.len() == pre.len() - 1);
                assert forall|j: int| 0 <= j < sr implies #[trigger] self.lines()[j] == old(
                    self,
                ).lines()[j] by {
                    assert(self.lines()[j] == pre[j]);
                }
                assert forall|j: int| sr <= j < self.lines().len() implies #[trigger] self.lines()[j]
                    == old(self).lines()[j + (k - sr)] by {
                    assert(self.lines()[j] == pre[j + 1]);
                    assert(pre[j + 1] == old(self).lines()[j + 1 + (k - 1 - sr)]);
                }
            }
        }
        proof {
            assert(self.lines() =~= old(self).lines().take(sr as int) + old(self).lines().skip(
                ee + 1,
            ));
        }
        if self.content.len() == 0 {
            self.content.push(Vec::new());
            proof {
                assert(self.lines() =~= seq![Seq::<char>::empty()]);
            }
        }
        let row = if sr < self.content.len() {
            sr
        } else {
            self.content.len() - 1
        };
        self.cursor_position = (row, 0);
        proof {
            let out = spec_del_line_sel(
                old(self).lines(),
                old(self).cursor(),
                start_row as nat,
                end_row as nat,
            );
            assert(self.lines() =~= out.0);
        }
    }

    /// Removes the normalised column span on every row of the normalised
    /// row range; rows shorter than the span's start are untouched.
    pub(crate) fn delete_block_selection(&mut self, start: (usize, usize), end: (usize, usize))
        requires
            old(self).wf(),
        ensures
            final(self).wf(),
            *final(self) == (Buffer {
                content: final(self).content,
                cursor_position: final(self).cursor_position,
                ..*old(self)
            }),
            ({
                let out = spec_del_block_sel(
                    old(self).lines(),
                    (start.0 as nat, start.1 as nat),
                    (end.0 as nat, end.1 as nat),
                );
                final(self).lines() == out.0 && final(self).cursor() == out.1
            }),
    {
        let sr = if start.0 <= end.0 {
            start.0
        } else {
            end.0
        };
        let er = if start.0 <= end.0 {
            end.0
        } else {
            start.0
        };
        let cmin = if start.1 <= end.1 {
            start.1
        } else {
            end.1
        };
        let cmax = if start.1 <= end.1 {
            end.1
        } else {
            start.1
        };
        let ghost out = spec_del_block_sel(
            old(self).lines(),
            (start.0 as nat, start.1 as nat),
            (end.0 as nat, end.1 as nat),
        );
        let mut r: usize = sr;
        while r <= er && r < self.content.len()
            invariant
                sr <= r,
                cmin <= cmax,
                out == spec_del_block_sel(
                    old(self).lines(),
                    (start.0 as nat, start.1 as nat),
                    (end.0 as nat, end.1 as nat),
                ),
                sr as nat == (if start.0 <= end.0 { start.0 as nat } else { end.0 as nat }),
                er as nat == (if start.0 <= end.0 { end.0 as nat } else { start.0 as nat }),
                cmin as nat == (if start.1 <= end.1 { start.1 as nat } else { end.1 as nat }),
                cmax as nat == (if start.1 <= end.1 { end.1 as nat } else { start.1 as nat }),
                *self == (Buffer {
                    content: self.content,
                    cursor_position: self.cursor_position,
                    ..*old(self)
                }),
                self.cursor_position == old(self).cursor_position,
                self.lines().len() == old(self).lines().len(),
                forall|j: int|
                    0 <= j < self.lines().len() ==> #[trigger] self.lines()[j] == (if sr <= j
                        && j < r {
                        out.0[j]
                    } else {
                        old(self).lines()[j]
                    }),
            decreases er + 1 - r,
        {
            let ghost pre = self.lines();
            if cmin < self.content[r].len() {
                let len = self.content[r].len();
                let ee = if cmax <= len {
                    cmax
                } else {
                    len
                };
                let new_line = splice_out(&self.content[r], cmin, ee);
                self.content.set(r, new_line);
            }
            r = r + 1;
            proof {
                assert forall|j: int| 0 <= j < self.lines().len() implies #[trigger] self.lines()[j]
                    == (if sr <= j && j < r {
                    out.0[j]
                } else {
                    old(self).lines()[j]
                }) by {
                    if j == r - 1 {
                        assert(pre[j] == old(self).lines()[j]);
                        assert(out.0[j] == (if cmin < old(self).lines()[j].len() {
                            let ee2 = if cmax <= old(self).lines()[j].len() {
                                cmax as int
                            } else {
                                old(self).lines()[j].len() as int
                            };
                            old(self).lines()[j].take(cmin as int) + old(self).lines()[j].skip(ee2)
                        } else {
                            old(self).lines()[j]
                        }));
                    } else {
                        assert(self.lines()[j] == pre[j]);
                        assert(pre[j] == (if sr <= j && j < r - 1 {
                            out.0[j]
                        } else {
                            old(self).lines()[j]
                        }));
                    }
                }
            }
        }
        proof {
            assert(self.lines() =~= out.0);
        }
        self.clamp_cursor_to((sr, cmin));
    }

    /// Deletes the active selection according to the visual interpretation
    /// (char-wise without an interpretation), parking the cursor at the
    /// selection's start; returns whether a selection was active.
    pub fn delete_selection(&mut self) -> (r: bool)
        requires
            old(self).wf(),
        ensures
            final(self).wf(),
            *final(self) == (Buffer {
                content: final(self).content,
                cursor_position: final(self).cursor_position,
                ..*old(self)
            }),
            match old(self).visual_start {
                None => !r && *final(self) == *old(self),
                Some(s) => {
                    let a = (s.0 as nat, s.1 as nat);
                    let b = old(self).cursor();
                    let out = match old(self).visual_mode {
                        Some(VisualMode::Line) => spec_del_line_sel(
                            old(self).lines(),
                            old(self).cursor(),
                            a.0,
                            b.0,
                        ),
                        Some(VisualMode::Block) => spec_del_block_sel(old(self).lines(), a, b),
                        _ => spec_del_char_sel(old(self).lines(), old(self).cursor(), a, b),
                    };
                    r && final(self).lines() == out.0 && final(self).cursor() == out.1
                },
            },
    {
        let start = match self.visual_start {
            Some(s) => s,
            None => {
                return false;
            },
        };
        let end = self.cursor_position;
        let mode = match self.visual_mode {
            Some(m) => m,
            None => VisualMode::Char,
        };
        match mode {
            VisualMode::Char => self.delete_char_selection(start, end),
            VisualMode::Line => self.delete_line_selection(start.0, end.0),
            VisualMode::Block => self.delete_block_selection(start, end),
        }
        true
    }

    /// Indents every row of the selected row range by `size` spaces; the
    /// cursor does not move.
    pub fn indent_selection(&mut self, size: usize)
        requires
            old(self).wf(),
            forall|j: int|
                0 <= j < old(self).lines().len() ==> #[trigger] old(self).lines()[j].len() + size
                    <= usize::MAX,
        ensures
            final(self).wf(),
            *final(self) == (Buffer { content: final(self).content, ..*old(self) }),
            match old(self).visual_start {
                None => *final(self) == *old(self),
                Some(s) => {
                    let sr = if s.0 <= old(self).cursor_position.0 {
                        s.0
                    } else {
                        old(self).cursor_position.0
                    };
                    let er = if s.0 <= old(self).cursor_position.0 {
                        old(self).cursor_position.0
                    } else {
                        s.0
                    };
                    final(self).lines() == Seq::new(
                        old(self).lines().len(),
                        |r: int|
                            if sr <= r && r <= er {
                                Seq::new(size as nat, |i: int| ' ') + old(self).lines()[r]
                            } else {
                                old(self).lines()[r]
                            },
                    )
                },
            },
    {
        let start = match self.visual_start {
            Some(s) => s,
            None => {
                proof {
                    assert(*final(self) == *old(self));
                }
                return;
            },
        };
        let end = self.cursor_position;
        let sr = if start.0 <= end.0 {
            start.0
        } else {
            end.0
        };
        let er = if start.0 <= end.0 {
            end.0
        } else {
            start.0
        };
        let ghost target = Seq::new(
            old(self).lines().len(),
            |r: int|
                if sr <= r && r <= er {
                    Seq::new(size as nat, |i: int| ' ') + old(self).lines()[r]
                } else {
                    old(self).lines()[r]
                },
        );
        let mut r: usize = sr;
        while r <= er && r < self.content.len()
            invariant
                sr <= r,
                target == Seq::new(
                    old(self).lines().len(),
                    |j: int|
                        if sr <= j && j <= er {
                            Seq::new(size as nat, |i: int| ' ') + old(self).lines()[j]
                        } else {
                            old(self).lines()[j]
                        },
                ),
                *self == (Buffer { content: self.content, ..*old(self) }),
                self.lines().len() == old(self).lines().len(),
                forall|j: int|
                    0 <= j < self.lines().len() ==> #[trigger] self.lines()[j] == (if sr <= j
                        && j < r {
                        target[j]
                    } else {
                        old(self).lines()[j]
                    }),
                forall|j: int|
                    0 <= j < old(self).lines().len() ==> #[trigger] old(self).lines()[j].len()
                        + size <= usize::MAX,
            decreases er + 1 - r,
        {
            let ghost pre = self.lines();
            proof {
                assert(pre[r as int] == old(self).lines()[r as int]);
                assert(old(self).lines()[r as int].len() + size <= usize::MAX);
            }
            let spaces = repeat_char(' ', size);
            let new_line = splice_in(&self.content[r], 0, &spaces);
            self.content.set(r, new_line);
            proof {
                let l = old(self).lines()[r as int];
                assert(spaces@ =~= Seq::new(size as nat, |i: int| ' '));
                assert(l.take(0) + spaces@ + l.skip(0) =~= Seq::new(size as nat, |i: int| ' ')
                    + l);
            }
            r = r + 1;
            proof {
                assert forall|j: int| 0 <= j < self.lines().len() implies #[trigger] self.lines()[j]
                    == (if sr <= j && j < r {
                    target[j]
                } else {
                    old(self).lines()[j]
                }) by {
                    if j == r - 1 {
                        assert(target[j] == Seq::new(size as nat, |i: int| ' ') + old(
                            self,
                        ).lines()[j]);
                    } else {
                        assert(self.lines()[j] == pre[j]);
                        assert(pre[j] == (if sr <= j && j < r - 1 {
                            target[j]
                        } else {
                            old(self).lines()[j]
                        }));
                    }
                }
            }
        }
        proof {
            if er < old(self).lines().len() {
                assert(self.lines() =~= target);
            } else {
                assert(self.lines() =~= target);
            }
        }
    }

    /// Dedents every row of the selected row range by up to `size`
    /// characters of leading whitespace; the cursor's column is clamped to
    /// its (possibly shortened) line afterwards.
    pub fn dedent_selection(&mut self, size: usize)
        requires
            old(self).wf(),
        ensures
            final(self).wf(),
            *final(self) == (Buffer {
                content: final(self).content,
                cursor_position: final(self).cursor_position,
                ..*old(self)
            }),
            match old(self).visual_start {
                None => *final(self) == *old(self),
                Some(s) => {
                    let sr = if s.0 <= old(self).cursor_position.0 {
                        s.0
                    } else {
                        old(self).cursor_position.0
                    };
                    let er = if s.0 <= old(self).cursor_position.0 {
                        old(self).cursor_position.0
                    } else {
                        s.0
                    };
                    &&& final(self).lines() == Seq::new(
                        old(self).lines().len(),
                        |r: int|
                            if sr <= r && r <= er {
                                let rm = if spec_indent_len(old(self).lines()[r]) <= size {
                                    spec_indent_len(old(self).lines()[r])
                                } else {
                                    size as nat
                                };
                                old(self).lines()[r].skip(rm as int)
                            } else {
                                old(self).lines()[r]
                            },
                    )
                    &&& final(self).cursor() == clamp_cursor(
                        final(self).lines(),
                        old(self).cursor(),
                    )
                },
            },
    {
        let start = match self.visual_start {
            Some(s) => s,
            None => {
                return;
            },
        };
        let end = self.cursor_position;
        let sr = if start.0 <= end.0 {
            start.0
        } else {
            end.0
        };
        let er = if start.0 <= end.0 {
            end.0
        } else {
            start.0
        };
        let ghost target = Seq::new(
            old(self).lines().len(),
            |r: int|
                if sr <= r && r <= er {
                    let rm = if spec_indent_len(old(self).lines()[r]) <= size {
                        spec_indent_len(old(self).lines()[r])
                    } else {
                        size as nat
                    };
                    old(self).lines()[r].skip(rm as int)
                } else {
                    old(self).lines()[r]
                },
        );
        let mut r: usize = sr;
        while r <= er && r < self.content.len()
            invariant
                sr <= r,
                target == Seq::new(
                    old(self).lines().len(),
                    |j: int|
                        if sr <= j && j <= er {
                            let rm = if spec_indent_len(old(self).lines()[j]) <= size {
                                spec_indent_len(old(self).lines()[j])
                            } else {
                                size as nat
                            };
                            old(self).lines()[j].skip(rm as int)
                        } else {
                            old(self).lines()[j]
                        },
                ),
                *self == (Buffer {
                    content: self.content,
                    cursor_position: self.cursor_position,
                    ..*old(self)
                }),
                self.cursor_position == old(self).cursor_position,
                self.lines().len() == old(self).lines().len(),
                forall|j: int|
                    0 <= j < self.lines().len() ==> #[trigger] self.lines()[j] == (if sr <= j
                        && j < r {
                        target[j]
                    } else {
                        old(self).lines()[j]
                    }),
            decreases er + 1 - r,
        {
            let ghost pre = self.lines();
            proof {
                assert(pre[r as int] == old(self).lines()[r as int]);
                crate::buffer::lemma_indent_len(old(self).lines()[r as int]);
            }
            let ws = Self::indent_len_of(&self.content[r]);
            let rm = if ws < size {
                ws
            } else {
                size
            };
            if rm > 0 {
                let new_line = splice_out(&self.content[r], 0, rm);
                self.content.set(r, new_line);
                proof {
                    let l = old(self).lines()[r as int];
                    assert(l.take(0) + l.skip(rm as int) =~= l.skip(rm as int));
                }
            } else {
                proof {
                    assert(old(self).lines()[r as int].skip(0) =~= old(self).lines()[r as int]);
                }
            }
            r = r + 1;
            proof {
                assert forall|j: int| 0 <= j < self.lines().len() implies #[trigger] self.lines()[j]
                    == (if sr <= j && j < r {
                    target[j]
                } else {
                    old(self).lines()[j]
                }) by {
                    if j == r - 1 {
                        let l = old(self).lines()[j];
                        let rm2 = if spec_indent_len(l) <= size {
                            spec_indent_len(l)
                        } else {
                            size as nat
                        };
                        assert(target[j] == l.skip(rm2 as int));
                    } else {
                        assert(self.lines()[j] == pre[j]);
                        assert(pre[j] == (if sr <= j && j < r - 1 {
                            target[j]
                        } else {
                            old(self).lines()[j]
                        }));
                    }
                }
            }
        }
        proof {
            assert(self.lines() =~= target);
        }
        let cur = self.cursor_position;
        self.clamp_cursor_to(cur);
    }
}

/// The start of the alphanumeric run ending at `i`.
pub open spec fn spec_scan_back_alnum(l: Seq<char>, i: nat) -> nat
    decreases i,
{
    if i == 0 {
        0
    } else if spec_is_alnum(l[i - 1]) {
        spec_scan_back_alnum(l, (i - 1) as nat)
    } else {
        i
    }
}

/// One past the end of the alphanumeric run starting at `i`.
pub open spec fn spec_scan_fwd_alnum(l: Seq<char>, i: nat) -> nat
    decreases l.len() - i,
{
    if i < l.len() && spec_is_alnum(l[i as int]) {
        spec_scan_fwd_alnum(l, i + 1)
    } else {
        i
    }
}

/// The start of the whitespace run ending at `i`.
pub open spec fn spec_scan_back_ws(l: Seq<char>, i: nat) -> nat
    decreases i,
{
    if i == 0 {
        0
    } else if spec_is_ws(l[i - 1]) {
        spec_scan_back_ws(l, (i - 1) as nat)
    } else {
        i
    }
}

/// One past the end of the whitespace run starting at `i`.
pub open spec fn spec_scan_fwd_ws(l: Seq<char>, i: nat) -> nat
    decreases l.len() - i,
{
    if i < l.len() && spec_is_ws(l[i as int]) {
        spec_scan_fwd_ws(l, i + 1)
    } else {
        i
    }
}

/// Whether a line holds only whitespace.
pub open spec fn spec_blank(l: Seq<char>) -> bool {
    forall|i: int| 0 <= i < l.len() ==> spec_is_ws(#[trigger] l[i])
}

/// The first row of the paragraph around `r`: scanning up stops below a
/// blank line or at the top.
pub open spec fn spec_para_start(lines: Seq<Seq<char>>, r: nat) -> nat
    decreases r,
{
    if r == 0 {
        0
    } else if spec_blank(lines[r - 1]) {
        r
    } else {
        spec_para_start(lines, (r - 1) as nat)
    }
}

/// The last row of the paragraph around `r`: scanning down stops above a
/// blank line or at the bottom.
pub open spec fn spec_para_last(lines: Seq<Seq<char>>, r: nat) -> nat
    decreases lines.len() - r,
{
    if r + 1 >= lines.len() {
        r
    } else if spec_blank(lines[r as int + 1]) {
        r
    } else {
        spec_para_last(lines, r + 1)
    }
}

/// Stack positions as pairs of naturals.
pub open spec fn spec_nat_pairs(st: Seq<(usize, usize)>) -> Seq<(nat, nat)> {
    Seq::new(st.len(), |i: int| (st[i].0 as nat, st[i].1 as nat))
}

/// The forward depth-stack scan for a balanced delimiter pair: characters
/// are read row-major from `(r, c)`; an `open` pushes its position, a
/// `close` with exactly one open pending yields that outermost pair, a
/// `close` with more pending pops one, and a `close` with none pending is
/// passed over. The scan answers `None` when it runs off the document — a
/// pending delimiter left unterminated finds nothing.
pub open spec fn spec_pair_scan(
    lines: Seq<Seq<char>>,
    r: nat,
    c: nat,
    open: char,
    close: char,
    stack: Seq<(nat, nat)>,
) -> Option<((nat, nat), (nat, nat))>
    decreases lines.len() - r, lines[r as int].len() + 1 - c,
{
    if r >= lines.len() {
        None
    } else if c >= lines[r as int].len() {
        spec_pair_scan(lines, r + 1, 0, open, close, stack)
    } else {
        let ch = lines[r as int][c as int];
        if ch == open {
            spec_pair_scan(lines, r, c + 1, open, close, stack.push((r, c)))
        } else if ch == close && stack.len() == 1 {
            Some((stack.last(), (r, c)))
        } else if ch == close && stack.len() > 1 {
            spec_pair_scan(lines, r, c + 1, open, close, stack.drop_last())
        } else {
            spec_pair_scan(lines, r, c + 1, open, close, stack)
        }
    }
}

impl Buffer {
    /// The inner-word span around `col`: the maximal alphanumeric run
    /// touching the cursor, found by scanning backward then forward.
    pub(crate) fn find_word_bounds(line: &Vec<char>, col: usize) -> (r: (usize, usize))
        requires
            col <= line@.len(),
        ensures
            r.0 == spec_scan_back_alnum(line@, col as nat),
            r.1 == spec_scan_fwd_alnum(line@, col as nat),
            r.0 <= col <= r.1 <= line@.len(),
    {
        let mut start: usize = col;
        while start > 0 && is_alnum(line[start - 1])
            invariant
                start <= col <= line@.len(),
                spec_scan_back_alnum(line@, col as nat) == spec_scan_back_alnum(
                    line@,
                    start as nat,
                ),
            decreases start,
        {
            start = start - 1;
        }
        let mut end: usize = col;
        while end < line.len() && is_alnum(line[end])
            invariant
                col <= end <= line@.len(),
                spec_scan_fwd_alnum(line@, col as nat) == spec_scan_fwd_alnum(line@, end as nat),
            decreases line@.len() - end,
        {
            end = end + 1;
        }
        (start, end)
    }

    /// The around-word span: the inner word widened by the whitespace runs
    /// on either side.
    pub(crate) fn find_word_bounds_with_spaces(line: &Vec<char>, col: usize) -> (r: (usize, usize))
        requires
            col <= line@.len(),
        ensures
            r.0 == spec_scan_back_ws(line@, spec_scan_back_alnum(line@, col as nat)),
            r.1 == spec_scan_fwd_ws(line@, spec_scan_fwd_alnum(line@, col as nat)),
            r.0 <= col <= r.1 <= line@.len(),
    {
        let (start, end) = Self::find_word_bounds(line, col);
        let mut s: usize = start;
        while s > 0 && is_ws(line[s - 1])
            invariant
                s <= start <= line@.len(),
                spec_scan_back_ws(line@, start as nat) == spec_scan_back_ws(line@, s as nat),
            decreases s,
        {
            s = s - 1;
        }
        let mut e: usize = end;
        while e < line.len() && is_ws(line[e])
            invariant
                end <= e <= line@.len(),
                spec_scan_fwd_ws(line@, end as nat) == spec_scan_fwd_ws(line@, e as nat),
            decreases line@.len() - e,
        {
            e = e + 1;
        }
        (s, e)
    }

    /// Selects the word under the cursor: the anchor moves to the span's
    /// start and the cursor to its end; `Around` includes the surrounding
    /// whitespace.
    pub fn select_word(&mut self, selection_type: SelectionType)
        requires
            old(self).wf(),
        ensures
            final(self).wf(),
            *final(self) == (Buffer {
                visual_start: final(self).visual_start,
                cursor_position: final(self).cursor_position,
                ..*old(self)
            }),
            ({
                let l = old(self).lines()[old(self).cursor().0 as int];
                let col = old(self).cursor().1;
                let s = if selection_type == SelectionType::Inner {
                    spec_scan_back_alnum(l, col)
                } else {
                    spec_scan_back_ws(l, spec_scan_back_alnum(l, col))
                };
                let e = if selection_type == SelectionType::Inner {
                    spec_scan_fwd_alnum(l, col)
                } else {
                    spec_scan_fwd_ws(l, spec_scan_fwd_alnum(l, col))
                };
                final(self).visual_start == Some((old(self).cursor_position.0, s as usize))
                    && final(self).cursor() == (old(self).cursor().0, e)
            }),
    {
        let (row, col) = self.cursor_position;
        let (start, end) = match selection_type {
            SelectionType::Inner => Self::find_word_bounds(&self.content[row], col),
            SelectionType::Around => Self::find_word_bounds_with_spaces(&self.content[row], col),
        };
        self.visual_start = Some((row, start));
        self.cursor_position = (row, end);
    }

    /// The first row of the paragraph around `row`.
    pub(crate) fn find_paragraph_start(&self, row: usize) -> (r: usize)
        requires
            self.wf(),
            (row as int) < self.lines().len(),
        ensures
            r == spec_para_start(self.lines(), row as nat),
            r <= row,
    {
        let mut start: usize = row;
        loop
            invariant
                start <= row < self.lines().len(),
                spec_para_start(self.lines(), row as nat) == spec_para_start(
                    self.lines(),
                    start as nat,
                ),
            decreases start,
        {
            if start == 0 {
                return start;
            }
            if Self::line_blank(&self.content[start - 1]) {
                return start;
            }
            start = start - 1;
        }
    }

    /// One past the last row of the paragraph around `row`.
    pub(crate) fn find_paragraph_end(&self, row: usize) -> (r: usize)
        requires
            self.wf(),
            (row as int) < self.lines().len(),
        ensures
            r == spec_para_last(self.lines(), row as nat) + 1,
            row < r <= self.lines().len(),
    {
        let mut end: usize = row;
        loop
            invariant
                row <= end,
                (end as int) < self.lines().len(),
                spec_para_last(self.lines(), row as nat) == spec_para_last(
                    self.lines(),
                    end as nat,
                ),
            decreases self.lines().len() - end,
        {
            if end >= self.content.len() - 1 {
                return end + 1;
            }
            if Self::line_blank(&self.content[end + 1]) {
                return end + 1;
            }
            end = end + 1;
        }
    }

    /// Whether a line holds only whitespace.
    fn line_blank(line: &Vec<char>) -> (r: bool)
        ensures
            r == spec_blank(line@),
    {
        let mut i: usize = 0;
        while i < line.len()
            invariant
                i <= line@.len(),
                forall|j: int| 0 <= j < i ==> spec_is_ws(#[trigger] line@[j]),
            decreases line@.len() - i,
        {
            if !is_ws(line[i]) {
                return false;
            }
            i = i + 1;
        }
        true
    }

    /// Selects the paragraph around the cursor: `Inner` spans the rows
    /// strictly between the enclosing blank lines, `Around` starts at the
    /// paragraph's first row and runs to the row after its last (clamped to
    /// the document).
    pub fn select_paragraph(&mut self, selection_type: SelectionType)
        requires
            old(self).wf(),
        ensures
            final(self).wf(),
            *final(self) == (Buffer {
                visual_start: final(self).visual_start,
                cursor_position: final(self).cursor_position,
                ..*old(self)
            }),
            ({
                let ps = spec_para_start(old(self).lines(), old(self).cursor().0);
                let pl = spec_para_last(old(self).lines(), old(self).cursor().0);
                if selection_type == SelectionType::Inner {
                    final(self).visual_start == Some(((ps + 1) as usize, 0usize))
                        && final(self).cursor() == (pl, old(self).lines()[pl as int].len())
                } else {
                    final(self).visual_start == Some((ps as usize, 0usize)) && final(self).cursor()
                        == clamp_cursor(old(self).lines(), (pl + 1, 0))
                }
            }),
    {
        let row = self.cursor_position.0;
        let start_row = self.find_paragraph_start(row);
        let end_row = self.find_paragraph_end(row);
        match selection_type {
            SelectionType::Inner => {
                self.visual_start = Some((start_row + 1, 0));
                let last = end_row - 1;
                self.cursor_position = (last, self.content[last].len());
            },
            SelectionType::Around => {
                self.visual_start = Some((start_row, 0));
                self.clamp_cursor_to((end_row, 0));
            },
        }
    }

    /// The forward depth-stack scan from the cursor for the first balanced
    /// `open`/`close` pair, exactly as [`spec_pair_scan`] describes it: the
    /// returned positions hold the named delimiters, in document order at
    /// or after the cursor, and `None` comes only when the scan closes no
    /// pair at depth zero before the end of the document.
    pub(crate) fn find_matching_pair(&self, open: char, close: char) -> (r: Option<
        ((usize, usize), (usize, usize)),
    >)
        requires
            self.wf(),
        ensures
            ({
                let scan = spec_pair_scan(
                    self.lines(),
                    self.cursor().0,
                    self.cursor().1,
                    open,
                    close,
                    Seq::empty(),
                );
                match r {
                    Some(p) => scan == Some(
                        (
                            ((p.0).0 as nat, (p.0).1 as nat),
                            ((p.1).0 as nat, (p.1).1 as nat),
                        ),
                    ),
                    None => scan is None,
                }
            }),
            match r {
                Some(p) => {
                    let ((r1, c1), (r2, c2)) = p;
                    &&& (r1 as int) < self.lines().len()
                    &&& (c1 as int) < self.lines()[r1 as int].len()
                    &&& self.lines()[r1 as int][c1 as int] == open
                    &&& (r2 as int) < self.lines().len()
                    &&& (c2 as int) < self.lines()[r2 as int].len()
                    &&& self.lines()[r2 as int][c2 as int] == close
                    &&& (r1 < r2 || (r1 == r2 && c1 < c2))
                    &&& (r1 > self.cursor().0 || (r1 == self.cursor().0 && c1
                        >= self.cursor().1))
                },
                None => true,
            },
    {
        let (row, col) = self.cursor_position;
        let ghost full = spec_pair_scan(
            self.lines(),
            row as nat,
            col as nat,
            open,
            close,
            Seq::empty(),
        );
        let mut stack: Vec<(usize, usize)> = Vec::new();
        let mut curr_row: usize = row;
        let mut curr_col: usize = col;
        proof {
            assert(spec_nat_pairs(stack@) =~= Seq::<(nat, nat)>::empty());
        }
        while curr_row < self.content.len()
            invariant
                self.wf(),
                row <= curr_row,
                row == self.cursor_position.0,
                col == self.cursor_position.1,
                curr_row == row ==> curr_col == col,
                curr_row > row ==> curr_col == 0,
                full == spec_pair_scan(
                    self.lines(),
                    row as nat,
                    col as nat,
                    open,
                    close,
                    Seq::empty(),
                ),
                full == spec_pair_scan(
                    self.lines(),
                    curr_row as nat,
                    curr_col as nat,
                    open,
                    close,
                    spec_nat_pairs(stack@),
                ),
                forall|i: int|
                    0 <= i < stack@.len() ==> {
                        let p = #[trigger] stack@[i];
                        &&& (p.0 as int) < self.lines().len()
                        &&& (p.1 as int) < self.lines()[p.0 as int].len()
                        &&& self.lines()[p.0 as int][p.1 as int] == open
                        &&& (p.0 > row || (p.0 == row && p.1 >= col))
                        &&& (p.0 < curr_row || (p.0 == curr_row && p.1 < curr_col))
                    },
            decreases self.lines().len() - curr_row,
        {
            let line_len = self.content[curr_row].len();
            while curr_col < line_len
                invariant
                    self.wf(),
                    row <= curr_row,
                    (curr_row as int) < self.lines().len(),
                    line_len == self.lines()[curr_row as int].len(),
                    row == self.cursor_position.0,
                    col == self.cursor_position.1,
                    curr_row == row ==> curr_col >= col,
                    full == spec_pair_scan(
                        self.lines(),
                        row as nat,
                        col as nat,
                        open,
                        close,
                        Seq::empty(),
                    ),
                    full == spec_pair_scan(
                        self.lines(),
                        curr_row as nat,
                        curr_col as nat,
                        open,
                        close,
                        spec_nat_pairs(stack@),
                    ),
                    forall|i: int|
                        0 <= i < stack@.len() ==> {
                            let p = #[trigger] stack@[i];
                            &&& (p.0 as int) < self.lines().len()
                            &&& (p.1 as int) < self.lines()[p.0 as int].len()
                            &&& self.lines()[p.0 as int][p.1 as int] == open
                            &&& (p.0 > row || (p.0 == row && p.1 >= col))
                            &&& (p.0 < curr_row || (p.0 == curr_row && p.1 < curr_col))
                        },
                decreases line_len - curr_col,
            {
                let ghost gs = spec_nat_pairs(stack@);
                let c = self.content[curr_row][curr_col];
                if c == open {
                    stack.push((curr_row, curr_col));
                    proof {
                        assert(spec_nat_pairs(stack@) =~= gs.push(
                            (curr_row as nat, curr_col as nat),
                        ));
                    }
                } else if c == close {
                    let popped = stack.pop();
                    if let Some(start) = popped {
                        if stack.len() == 0 {
                            proof {
                                assert(gs.len() == 1);
                                assert(gs.last() == (start.0 as nat, start.1 as nat));
                            }
                            return Some((start, (curr_row, curr_col)));
                        }
                        proof {
                            assert(spec_nat_pairs(stack@) =~= gs.drop_last());
                        }
                    } else {
                        proof {
                            assert(spec_nat_pairs(stack@) =~= gs);
                        }
                    }
                }
                curr_col = curr_col + 1;
            }
            curr_row = curr_row + 1;
            curr_col = 0;
        }
        None
    }

    /// Selects the text inside (or, for `Around`, including) the first
    /// balanced pair of the given delimiters at or after the cursor, as the
    /// forward scan [`spec_pair_scan`] finds it: `Inner` anchors just after
    /// the opening delimiter with the cursor on the closing one, `Around`
    /// anchors on the opening delimiter with the cursor just past the
    /// closing one. No pair, no change.
    pub fn select_paired_chars(&mut self, open: char, close: char, selection_type: SelectionType)
        requires
            old(self).wf(),
        ensures
            final(self).wf(),
            *final(self) == (Buffer {
                visual_start: final(self).visual_start,
                cursor_position: final(self).cursor_position,
                ..*old(self)
            }),
            ({
                let scan = spec_pair_scan(
                    old(self).lines(),
                    old(self).cursor().0,
                    old(self).cursor().1,
                    open,
                    close,
                    Seq::empty(),
                );
                match scan {
                    None => *final(self) == *old(self),
                    Some((s, e)) => if selection_type == SelectionType::Inner {
                        &&& final(self).visual_start == Some((s.0 as usize, (s.1 + 1) as usize))
                        &&& final(self).cursor() == e
                    } else {
                        &&& final(self).visual_start == Some((s.0 as usize, s.1 as usize))
                        &&& final(self).cursor() == (e.0, e.1 + 1)
                    },
                }
            }),
    {
        let pair = self.find_matching_pair(open, close);
        if let Some((start, end)) = pair {
            let start_len = self.content[start.0].len();
            let end_len = self.content[end.0].len();
            proof {
                assert(start.1 < start_len);
                assert(end.1 < end_len);
            }
            match selection_type {
                SelectionType::Inner => {
                    self.visual_start = Some((start.0, start.1 + 1));
                    self.cursor_position = (end.0, end.1);
                },
                SelectionType::Around => {
                    self.visual_start = Some(start);
                    self.cursor_position = (end.0, end.1 + 1);
                },
            }
        }
    }
}

/// The outcome of pasting `p` over the selection between `anchor` and the
/// cursor under the given visual interpretation (char-wise without one):
/// the selection is deleted first, then `p` — the snapshot taken before the
/// delete — is inserted. Char-wise it goes inline at the post-delete
/// cursor; line-wise its newline-separated pieces become whole lines at the
/// anchor row; block-wise the pieces go row by row from the anchor with
/// space padding. An insertion past the machine's size leaves the
/// post-delete state.
pub open spec fn spec_paste_over(
    lines: Seq<Seq<char>>,
    cur: (nat, nat),
    anchor: (nat, nat),
    mode: Option<VisualMode>,
    p: Seq<char>,
) -> (Seq<Seq<char>>, (nat, nat)) {
    match mode {
        Some(VisualMode::Line) => {
            let del = spec_del_line_sel(lines, cur, anchor.0, cur.0);
            let n = del.0.len();
            let row = if anchor.0 <= n {
                anchor.0 as int
            } else {
                n as int
            };
            let pieces = spec_split_plain(p);
            if n < usize::MAX - 1 && p.len() <= usize::MAX - 1 - n {
                (del.0.take(row) + pieces + del.0.skip(row), ((row + pieces.len() - 1) as nat, 0))
            } else {
                del
            }
        },
        Some(VisualMode::Block) => {
            let del = spec_del_block_sel(lines, anchor, cur);
            let pieces = spec_split_plain(p);
            let target = Seq::new(
                del.0.len(),
                |r: int|
                    if anchor.0 <= r && r < anchor.0 + pieces.len() && del.0[r].len() + anchor.1
                        + pieces[r - anchor.0].len() <= usize::MAX {
                        spec_block_row(del.0[r], anchor.1, pieces[r - anchor.0])
                    } else {
                        del.0[r]
                    },
            );
            (target, clamp_cursor(target, anchor))
        },
        _ => {
            let del = spec_del_char_sel(lines, cur, anchor, cur);
            let l = del.0[del.1.0 as int];
            if l.len() + p.len() <= usize::MAX {
                (
                    del.0.update(
                        del.1.0 as int,
                        l.take(del.1.1 as int) + p + l.skip(del.1.1 as int),
                    ),
                    (del.1.0, del.1.1 + p.len()),
                )
            } else {
                del
            }
        },
    }
}

/// A row after block insertion: the line, padded with spaces up to `col` if
/// it is shorter, with `piece` spliced in at `col`.
pub open spec fn spec_block_row(l: Seq<char>, col: nat, piece: Seq<char>) -> Seq<char> {
    if l.len() >= col {
        l.take(col as int) + piece + l.skip(col as int)
    } else {
        l + Seq::new((col - l.len()) as nat, |i: int| ' ') + piece
    }
}

impl Buffer {
    /// Inserts one piece of text into one row at the block column, padding
    /// short rows with spaces; out-of-range rows are left alone.
    fn insert_block_piece(&mut self, row: usize, col: usize, piece: &str)
        requires
            old(self).wf(),
            old(self).cursor().1 <= old(self).lines()[old(self).cursor().0 as int].len()
                || old(self).cursor().0 != row as nat,
        ensures
            final(self).wf(),
            *final(self) == (Buffer {
                content: final(self).content,
                cursor_position: final(self).cursor_position,
                ..*old(self)
            }),
            final(self).cursor() == clamp_cursor(final(self).lines(), old(self).cursor()),
            final(self).lines() == if (row as int) < old(self).lines().len() && old(
                self,
            ).lines()[row as int].len() + col + piece@.len() <= usize::MAX {
                old(self).lines().update(
                    row as int,
                    spec_block_row(old(self).lines()[row as int], col as nat, piece@),
                )
            } else {
                old(self).lines()
            },
    {
        if row < self.content.len() {
            let len = self.content[row].len();
            let plen = piece.unicode_len();
            if col <= usize::MAX - len && plen <= usize::MAX - len - col {
                if len < col {
                    let pad = repeat_char(' ', col - len);
                    let padded = concat_chars(&self.content[row], &pad);
                    let w = str_chars(piece);
                    let new_line = concat_chars(&padded, &w);
                    self.content.set(row, new_line);
                    proof {
                        let l = old(self).lines()[row as int];
                        assert(pad@ =~= Seq::new((col - l.len()) as nat, |i: int| ' '));
                        assert(self.lines() =~= old(self).lines().update(
                            row as int,
                            spec_block_row(l, col as nat, piece@),
                        ));
                    }
                } else {
                    let w = str_chars(piece);
                    let new_line = splice_in(&self.content[row], col, &w);
                    self.content.set(row, new_line);
                    proof {
                        let l = old(self).lines()[row as int];
                        assert(self.lines() =~= old(self).lines().update(
                            row as int,
                            spec_block_row(l, col as nat, piece@),
                        ));
                    }
                }
            }
        }
        let cur = self.cursor_position;
        self.clamp_cursor_to(cur);
    }

    /// Inserts the newline-separated pieces of `content` block-wise: piece
    /// `i` goes into row `start.0 + i` at column `start.1`, padding short
    /// rows with spaces; rows past the end of the document take nothing.
    /// The cursor parks at the block's top-left corner, clamped to the
    /// result.
    pub fn insert_block_at(&mut self, start: (usize, usize), content: &str)
        requires
            old(self).wf(),
        ensures
            final(self).wf(),
            *final(self) == (Buffer {
                content: final(self).content,
                cursor_position: final(self).cursor_position,
                ..*old(self)
            }),
            ({
                let pieces = spec_split_plain(content@);
                let target = Seq::new(
                    old(self).lines().len(),
                    |r: int|
                        if start.0 <= r && r < start.0 + pieces.len() && old(self).lines()[r].len()
                            + start.1 + pieces[r - start.0].len() <= usize::MAX {
                            spec_block_row(
                                old(self).lines()[r],
                                start.1 as nat,
                                pieces[r - start.0],
                            )
                        } else {
                            old(self).lines()[r]
                        },
                );
                &&& final(self).lines() == target
                &&& final(self).cursor() == clamp_cursor(
                    target,
                    (start.0 as nat, start.1 as nat),
                )
            }),
    {
        let pieces = split_plain(content);
        let ghost target = Seq::new(
            old(self).lines().len(),
            |r: int|
                if start.0 <= r && r < start.0 + strs_view(pieces@).len() && old(
                    self,
                ).lines()[r].len() + start.1 + strs_view(pieces@)[r - start.0].len()
                    <= usize::MAX {
                    spec_block_row(
                        old(self).lines()[r],
                        start.1 as nat,
                        strs_view(pieces@)[r - start.0],
                    )
                } else {
                    old(self).lines()[r]
                },
        );
        let n0: usize = self.content.len();
        let mut i: usize = 0;
        while i < pieces.len()
            invariant
                self.wf(),
                n0 == old(self).lines().len(),
                strs_view(pieces@) == spec_split_plain(content@),
                target == Seq::new(
                    old(self).lines().len(),
                    |r: int|
                        if start.0 <= r && r < start.0 + strs_view(pieces@).len() && old(
                            self,
                        ).lines()[r].len() + start.1 + strs_view(pieces@)[r - start.0].len()
                            <= usize::MAX {
                            spec_block_row(
                                old(self).lines()[r],
                                start.1 as nat,
                                strs_view(pieces@)[r - start.0],
                            )
                        } else {
                            old(self).lines()[r]
                        },
                ),
                i <= pieces@.len(),
                *self == (Buffer {
                    content: self.content,
                    cursor_position: self.cursor_position,
                    ..*old(self)
                }),
                self.lines().len() == old(self).lines().len(),
                forall|r: int|
                    0 <= r < self.lines().len() ==> #[trigger] self.lines()[r] == (if start.0 <= r
                        && r < start.0 + i {
                        target[r]
                    } else {
                        old(self).lines()[r]
                    }),
            decreases pieces.len() - i,
        {
            let ghost pre = self.lines();
            if i <= usize::MAX - start.0 {
                self.insert_block_piece(start.0 + i, start.1, pieces[i].as_str());
            }
            i = i + 1;
            proof {
                assert forall|r: int| 0 <= r < self.lines().len() implies #[trigger] self.lines()[r]
                    == (if start.0 <= r && r < start.0 + i {
                    target[r]
                } else {
                    old(self).lines()[r]
                }) by {
                    if r == start.0 + i - 1 {
                        assert(pre[r] == old(self).lines()[r]);
                        assert(strs_view(pieces@)[r - start.0] == pieces@[i - 1]@);
                    } else {
                        assert(self.lines()[r] == pre[r]);
                        assert(pre[r] == (if start.0 <= r && r < start.0 + i - 1 {
                            target[r]
                        } else {
                            old(self).lines()[r]
                        }));
                    }
                }
            }
        }
        proof {
            assert(self.lines() =~= target);
        }
        self.clamp_cursor_to(start);
    }

    /// Pastes the most recent clipboard entry over the active selection,
    /// exactly as [`spec_paste_over`] describes: the selection is deleted
    /// first and the snapshot of the clipboard entry taken before the
    /// delete is then inserted according to the visual interpretation.
    /// Without a selection or clipboard entry nothing changes.
    pub fn paste_over_selection(&mut self)
        requires
            old(self).wf(),
        ensures
            final(self).wf(),
            *final(self) == (Buffer {
                content: final(self).content,
                cursor_position: final(self).cursor_position,
                ..*old(self)
            }),
            match old(self).clipboard {
                None => *final(self) == *old(self),
                Some(cb) => if cb.entries().len() == 0 {
                    *final(self) == *old(self)
                } else {
                    match old(self).visual_start {
                        None => *final(self) == *old(self),
                        Some(vs) => ({
                            let out = spec_paste_over(
                                old(self).lines(),
                                old(self).cursor(),
                                (vs.0 as nat, vs.1 as nat),
                                old(self).visual_mode,
                                cb.entries()[0],
                            );
                            final(self).lines() == out.0 && final(self).cursor() == out.1
                        }),
                    }
                },
            },
    {
        let content_opt: Option<String> = match &self.clipboard {
            Some(c) => match c.peek() {
                Some(s) => Some(s.clone()),
                None => None,
            },
            None => None,
        };
        let selection = self.get_visual_selection();
        let mode = match self.visual_mode {
            Some(m) => m,
            None => VisualMode::Char,
        };
        if let (Some(content), Some((start, _end))) = (content_opt, selection) {
            self.delete_selection();
            match mode {
                VisualMode::Char => {
                    self.try_insert_piece(content.as_str());
                },
                VisualMode::Line => {
                    let row = if start.0 <= self.content.len() {
                        start.0
                    } else {
                        self.content.len()
                    };
                    let n = self.content.len();
                    let clen = content.as_str().unicode_len();
                    if n < usize::MAX - 1 && clen <= usize::MAX - 1 - n {
                        self.insert_lines_at(row, content.as_str());
                    }
                },
                VisualMode::Block => {
                    self.insert_block_at(start, content.as_str());
                },
            }
        }
    }
}

} // verus!
