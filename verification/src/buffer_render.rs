//! Line rendering: each line prefixed with a right-aligned line number,
//! search matches wrapped in colour escapes (the current match highlighted
//! differently), and the visual selection overlaid in inverse video.

use vstd::prelude::*;

use crate::buffer::Buffer;
use crate::util::{chars_to_string, pad_left, spec_dec, usize_to_string};

verus! {

/// The escape opening a search-match highlight: the current match gets the
/// current-match colour, every other match the plain one.
pub open spec fn spec_mark(row: int, start: int, cur: Option<(int, int)>) -> Seq<char> {
    if cur == Some((row, start)) {
        seq!['\x1b', '[', '4', '3', 'm']
    } else {
        seq!['\x1b', '[', '4', '2', 'm']
    }
}

/// The escape closing a highlight.
pub open spec fn spec_reset() -> Seq<char> {
    seq!['\x1b', '[', '0', 'm']
}

/// The escape opening the inverse-video selection overlay.
pub open spec fn spec_invert() -> Seq<char> {
    seq!['\x1b', '[', '7', 'm']
}

/// A line with its search matches wrapped in highlight escapes: the match
/// list is walked in stored order from position `pos`; entries on other
/// rows, overlapping a previous match, or out of range are passed over.
pub open spec fn spec_hl(
    l: Seq<char>,
    ms: Seq<(usize, usize, usize)>,
    row: int,
    cur: Option<(int, int)>,
    pos: int,
) -> Seq<char>
    decreases ms.len(),
{
    if ms.len() == 0 {
        l.skip(pos)
    } else {
        let m = ms[0];
        if m.0 == row && pos <= m.1 && m.1 <= m.2 && m.2 <= l.len() {
            l.subrange(pos, m.1 as int) + spec_mark(row, m.1 as int, cur) + l.subrange(
                m.1 as int,
                m.2 as int,
            ) + spec_reset() + spec_hl(l, ms.drop_first(), row, cur, m.2 as int)
        } else {
            spec_hl(l, ms.drop_first(), row, cur, pos)
        }
    }
}

/// The line-number prefix of row `i`: the one-based number right-aligned to
/// four columns, then a separator.
pub open spec fn spec_num_prefix(i: int) -> Seq<char> {
    let d = spec_dec((i + 1) as nat);
    let padded = if d.len() >= 4 {
        d
    } else {
        Seq::new((4 - d.len()) as nat, |j: int| ' ') + d
    };
    padded + seq![' ', '|', ' ']
}

/// The position of the current match, when one is selected and in range.
pub open spec fn spec_cur_pos(b: Buffer) -> Option<(int, int)> {
    match b.current_match {
        Some(i) => if (i as int) < b.search_matches@.len() {
            Some((b.search_matches@[i as int].0 as int, b.search_matches@[i as int].1 as int))
        } else {
            None
        },
        None => None,
    }
}

/// A search-highlighted line with the visual selection overlaid: rows
/// strictly inside a multi-row selection (and its first and last rows) are
/// wrapped whole in inverse video; a single-row selection wraps only the
/// normalised column span, clamped to the rendered line.
pub open spec fn spec_vis_overlay(
    sline: Seq<char>,
    row: int,
    anchor: (int, int),
    cursor: (int, int),
) -> Seq<char> {
    let sr = if anchor.0 <= cursor.0 {
        anchor.0
    } else {
        cursor.0
    };
    let er = if anchor.0 <= cursor.0 {
        cursor.0
    } else {
        anchor.0
    };
    if sr <= row && row <= er {
        if sr == er {
            let a = if anchor.1 <= cursor.1 {
                anchor.1
            } else {
                cursor.1
            };
            let b = if anchor.1 <= cursor.1 {
                cursor.1
            } else {
                anchor.1
            };
            let b2 = if b <= sline.len() {
                b
            } else {
                sline.len() as int
            };
            if a < sline.len() {
                sline.take(a) + spec_invert() + sline.subrange(a, b2) + spec_reset()
                    + sline.skip(b2)
            } else {
                sline
            }
        } else {
            spec_invert() + sline + spec_reset()
        }
    } else {
        sline
    }
}

fn push_esc5(out: &mut Vec<char>, a: char, b: char)
    ensures
        final(out)@ == old(out)@ + seq!['\x1b', '[', a, b, 'm'],
{
    out.push('\x1b');
    out.push('[');
    out.push(a);
    out.push(b);
    out.push('m');
    proof {
        assert(final(out)@ =~= old(out)@ + seq!['\x1b', '[', a, b, 'm']);
    }
}

fn push_esc4(out: &mut Vec<char>, a: char)
    ensures
        final(out)@ == old(out)@ + seq!['\x1b', '[', a, 'm'],
{
    out.push('\x1b');
    out.push('[');
    out.push(a);
    out.push('m');
    proof {
        assert(final(out)@ =~= old(out)@ + seq!['\x1b', '[', a, 'm']);
    }
}

impl Buffer {
    /// The search-highlighted text of one row; current-match emphasis only
    /// when asked for.
    fn hl_line(&self, row: usize, use_current: bool) -> (out: Vec<char>)
        requires
            self.wf(),
            (row as int) < self.lines().len(),
        ensures
            out@ == spec_hl(
                self.lines()[row as int],
                self.search_matches@,
                row as int,
                if use_current {
                    spec_cur_pos(*self)
                } else {
                    None
                },
                0,
            ),
    {
        let cur_start: Option<(usize, usize)> = if use_current {
            match self.current_match {
                Some(i) => if i < self.search_matches.len() {
                    Some((self.search_matches[i].0, self.search_matches[i].1))
                } else {
                    None
                },
                None => None,
            }
        } else {
            None
        };
        let ghost cs = if use_current {
            spec_cur_pos(*self)
        } else {
            None
        };
        proof {
            assert(cs == match cur_start {
                Some(c) => Some((c.0 as int, c.1 as int)),
                None => None,
            });
        }
        let l = &self.content[row];
        let n = l.len();
        let mut out: Vec<char> = Vec::new();
        let mut pos: usize = 0;
        let mut k: usize = 0;
        let ghost full = spec_hl(self.lines()[row as int], self.search_matches@, row as int, cs, 0);
        proof {
            assert(self.search_matches@.skip(0) =~= self.search_matches@);
        }
        while k < self.search_matches.len()
            invariant
                self.wf(),
                (row as int) < self.lines().len(),
                k <= self.search_matches@.len(),
                pos <= n,
                n == self.lines()[row as int].len(),
                l == &self.content@[row as int],
                cs == (match cur_start {
                    Some(c) => Some((c.0 as int, c.1 as int)),
                    None => None,
                }),
                full == spec_hl(
                    self.lines()[row as int],
                    self.search_matches@,
                    row as int,
                    cs,
                    0,
                ),
                out@ + spec_hl(
                    self.lines()[row as int],
                    self.search_matches@.skip(k as int),
                    row as int,
                    cs,
                    pos as int,
                ) == full,
            decreases self.search_matches@.len() - k,
        {
            let ghost pre = out@;
            let m = self.search_matches[k];
            if m.0 == row && pos <= m.1 && m.1 <= m.2 && m.2 <= n {
                let mut i: usize = pos;
                while i < m.1
                    invariant
                        pos <= i <= m.1,
                        m.1 <= n,
                        n == self.lines()[row as int].len(),
                        l == &self.content@[row as int],
                        (row as int) < self.lines().len(),
                        out@ == pre + self.lines()[row as int].subrange(pos as int, i as int),
                    decreases m.1 - i,
                {
                    out.push(l[i]);
                    i = i + 1;
                    assert(out@ =~= pre + self.lines()[row as int].subrange(
                        pos as int,
                        i as int,
                    ));
                }
                let is_cur = match cur_start {
                    Some(c) => c.0 == row && c.1 == m.1,
                    None => false,
                };
                if is_cur {
                    push_esc5(&mut out, '4', '3');
                } else {
                    push_esc5(&mut out, '4', '2');
                }
                let ghost pre2 = out@;
                let mut i2: usize = m.1;
                while i2 < m.2
                    invariant
                        m.1 <= i2 <= m.2,
                        m.2 <= n,
                        n == self.lines()[row as int].len(),
                        l == &self.content@[row as int],
                        (row as int) < self.lines().len(),
                        out@ == pre2 + self.lines()[row as int].subrange(m.1 as int, i2 as int),
                    decreases m.2 - i2,
                {
                    out.push(l[i2]);
                    i2 = i2 + 1;
                    assert(out@ =~= pre2 + self.lines()[row as int].subrange(
                        m.1 as int,
                        i2 as int,
                    ));
                }
                push_esc4(&mut out, '0');
                proof {
                    let lrow = self.lines()[row as int];
                    assert(out@ =~= pre + lrow.subrange(pos as int, m.1 as int) + spec_mark(
                        row as int,
                        m.1 as int,
                        cs,
                    ) + lrow.subrange(m.1 as int, m.2 as int) + spec_reset());
                    assert(self.search_matches@.skip(k as int).drop_first()
                        =~= self.search_matches@.skip(k as int + 1));
                    assert(self.search_matches@.skip(k as int)[0] == self.search_matches@[k as int]);
                }
                pos = m.2;
            } else {
                proof {
                    assert(self.search_matches@.skip(k as int).drop_first()
                        =~= self.search_matches@.skip(k as int + 1));
                    assert(self.search_matches@.skip(k as int)[0] == self.search_matches@[k as int]);
                }
            }
            k = k + 1;
        }
        let ghost pre3 = out@;
        let mut i3: usize = pos;
        while i3 < n
            invariant
                pos <= i3 <= n,
                n == self.lines()[row as int].len(),
                l == &self.content@[row as int],
                (row as int) < self.lines().len(),
                out@ == pre3 + self.lines()[row as int].subrange(pos as int, i3 as int),
            decreases n - i3,
        {
            out.push(l[i3]);
            i3 = i3 + 1;
            assert(out@ =~= pre3 + self.lines()[row as int].subrange(pos as int, i3 as int));
        }
        proof {
            assert(self.search_matches@.skip(self.search_matches@.len() as int)
                =~= Seq::<(usize, usize, usize)>::empty());
            assert(self.lines()[row as int].subrange(pos as int, n as int)
                =~= self.lines()[row as int].skip(pos as int));
            assert(out@ =~= full);
        }
        out
    }

    /// The line-number prefix of a row.
    fn num_prefix(i: usize) -> (out: Vec<char>)
        requires
            i < usize::MAX,
        ensures
            out@ == spec_num_prefix(i as int),
    {
        let num = usize_to_string(i + 1);
        let digits = crate::util::str_chars(num.as_str());
        let mut out = pad_left(digits, 4);
        let ghost padded = out@;
        out.push(' ');
        out.push('|');
        out.push(' ');
        proof {
            let d = spec_dec((i + 1) as nat);
            if d.len() >= 4 {
                assert(padded =~= d);
            } else {
                assert(padded =~= Seq::new((4 - d.len()) as nat, |j: int| ' ') + d);
            }
            assert(out@ =~= padded + seq![' ', '|', ' ']);
        }
        out
    }

    /// Every line rendered with its line number and search highlights.
    pub fn render_lines(&self) -> (r: Vec<String>)
        requires
            self.wf(),
            self.lines().len() < usize::MAX,
        ensures
            r@.len() == self.lines().len(),
            forall|i: int|
                0 <= i < r@.len() ==> #[trigger] r@[i]@ == spec_num_prefix(i) + spec_hl(
                    self.lines()[i],
                    self.search_matches@,
                    i,
                    spec_cur_pos(*self),
                    0,
                ),
    {
        let mut r: Vec<String> = Vec::new();
        let mut row: usize = 0;
        while row < self.content.len()
            invariant
                self.wf(),
                self.lines().len() < usize::MAX,
                row <= self.lines().len(),
                r@.len() == row,
                forall|i: int|
                    0 <= i < row ==> #[trigger] r@[i]@ == spec_num_prefix(i) + spec_hl(
                        self.lines()[i],
                        self.search_matches@,
                        i,
                        spec_cur_pos(*self),
                        0,
                    ),
            decreases self.lines().len() - row,
        {
            let body = self.hl_line(row, true);
            let line = Self::num_prefix(row);
            let full = crate::util::concat_chars(&line, &body);
            r.push(chars_to_string(&full));
            row = row + 1;
        }
        r
    }

    /// Every line rendered with its line number, search highlights, and
    /// the visual selection overlaid in inverse video.
    pub fn render_lines_with_visual(&self) -> (r: Vec<String>)
        requires
            self.wf(),
            self.lines().len() < usize::MAX,
        ensures
            r@.len() == self.lines().len(),
            forall|i: int|
                0 <= i < r@.len() ==> #[trigger] r@[i]@ == spec_num_prefix(i) + ({
                    let sline = spec_hl(
                        self.lines()[i],
                        self.search_matches@,
                        i,
                        if self.visual_start is Some {
                            None
                        } else {
                            spec_cur_pos(*self)
                        },
                        0,
                    );
                    match self.visual_start {
                        Some(vs) => spec_vis_overlay(
                            sline,
                            i,
                            (vs.0 as int, vs.1 as int),
                            (self.cursor_position.0 as int, self.cursor_position.1 as int),
                        ),
                        None => sline,
                    }
                }),
    {
        let mut r: Vec<String> = Vec::new();
        let mut row: usize = 0;
        while row < self.content.len()
            invariant
                self.wf(),
                self.lines().len() < usize::MAX,
                row <= self.lines().len(),
                r@.len() == row,
                forall|i: int|
                    0 <= i < row ==> #[trigger] r@[i]@ == spec_num_prefix(i) + ({
                        let sline = spec_hl(
                            self.lines()[i],
                            self.search_matches@,
                            i,
                            if self.visual_start is Some {
                                None
                            } else {
                                spec_cur_pos(*self)
                            },
                            0,
                        );
                        match self.visual_start {
                            Some(vs) => spec_vis_overlay(
                                sline,
                                i,
                                (vs.0 as int, vs.1 as int),
                                (self.cursor_position.0 as int, self.cursor_position.1 as int),
                            ),
                            None => sline,
                        }
                    }),
            decreases self.lines().len() - row,
        {
            let use_current = match self.visual_start {
                Some(_) => false,
                None => true,
            };
            let body = self.hl_line(row, use_current);
            let overlaid = self.vis_overlay(body, row);
            let line = Self::num_prefix(row);
            let full = crate::util::concat_chars(&line, &overlaid);
            r.push(chars_to_string(&full));
            row = row + 1;
        }
        r
    }

    /// Applies the inverse-video selection overlay to one rendered row.
    fn vis_overlay(&self, sline: Vec<char>, row: usize) -> (out: Vec<char>)
        ensures
            out@ == match self.visual_start {
                Some(vs) => spec_vis_overlay(
                    sline@,
                    row as int,
                    (vs.0 as int, vs.1 as int),
                    (self.cursor_position.0 as int, self.cursor_position.1 as int),
                ),
                None => sline@,
            },
    {
        let (vsr, vsc) = match self.visual_start {
            Some(vs) => vs,
            None => {
                return sline;
            },
        };
        let (cr, cc) = self.cursor_position;
        let sr = if vsr <= cr {
            vsr
        } else {
            cr
        };
        let er = if vsr <= cr {
            cr
        } else {
            vsr
        };
        if sr <= row && row <= er {
            if sr == er {
                let a = if vsc <= cc {
                    vsc
                } else {
                    cc
                };
                let b = if vsc <= cc {
                    cc
                } else {
                    vsc
                };
                let b2 = if b <= sline.len() {
                    b
                } else {
                    sline.len()
                };
                if a < sline.len() {
                    let mut out = crate::util::sub_chars(&sline, 0, a);
                    push_esc4(&mut out, '7');
                    let mid = crate::util::sub_chars(&sline, a, b2);
                    let mut out2 = crate::util::concat_chars(&out, &mid);
                    push_esc4(&mut out2, '0');
                    let tail = crate::util::sub_chars(&sline, b2, sline.len());
                    let out3 = crate::util::concat_chars(&out2, &tail);
                    proof {
                        assert(sline@.subrange(0, a as int) =~= sline@.take(a as int));
                        assert(sline@.subrange(b2 as int, sline@.len() as int) =~= sline@.skip(
                            b2 as int,
                        ));
                        assert(out3@ =~= sline@.take(a as int) + spec_invert() + sline@.subrange(
                            a as int,
                            b2 as int,
                        ) + spec_reset() + sline@.skip(b2 as int));
                    }
                    out3
                } else {
                    sline
                }
            } else {
                let mut out: Vec<char> = Vec::new();
                push_esc4(&mut out, '7');
                let mut out2 = crate::util::concat_chars(&out, &sline);
                push_esc4(&mut out2, '0');
                proof {
                    assert(out2@ =~= spec_invert() + sline@ + spec_reset());
                }
                out2
            }
        } else {
            sline
        }
    }
}

} // verus!
