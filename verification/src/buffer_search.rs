//! Search: finds every occurrence of a query, scanning left to right and
//! advancing one column past each found start, so occurrences one character
//! apart are all reported. Case-insensitive search folds ASCII letters on
//! both sides. Match navigation saturates at the ends of the match list.

use vstd::prelude::*;

use crate::buffer::Buffer;
use crate::util::str_chars;

verus! {

/// The ASCII lowercase of a character: ASCII uppercase letters fold, all
/// other characters stay.
pub open spec fn spec_fold_char(c: char) -> char {
    if c == 'A' {
        'a'
    } else if c == 'B' {
        'b'
    } else if c == 'C' {
        'c'
    } else if c == 'D' {
        'd'
    } else if c == 'E' {
        'e'
    } else if c == 'F' {
        'f'
    } else if c == 'G' {
        'g'
    } else if c == 'H' {
        'h'
    } else if c == 'I' {
        'i'
    } else if c == 'J' {
        'j'
    } else if c == 'K' {
        'k'
    } else if c == 'L' {
        'l'
    } else if c == 'M' {
        'm'
    } else if c == 'N' {
        'n'
    } else if c == 'O' {
        'o'
    } else if c == 'P' {
        'p'
    } else if c == 'Q' {
        'q'
    } else if c == 'R' {
        'r'
    } else if c == 'S' {
        's'
    } else if c == 'T' {
        't'
    } else if c == 'U' {
        'u'
    } else if c == 'V' {
        'v'
    } else if c == 'W' {
        'w'
    } else if c == 'X' {
        'x'
    } else if c == 'Y' {
        'y'
    } else if c == 'Z' {
        'z'
    } else {
        c
    }
}

/// Executable twin of [`spec_fold_char`].
pub fn fold_char(c: char) -> (r: char)
    ensures
        r == spec_fold_char(c),
{
    match c {
        'A' => 'a',
        'B' => 'b',
        'C' => 'c',
        'D' => 'd',
        'E' => 'e',
        'F' => 'f',
        'G' => 'g',
        'H' => 'h',
        'I' => 'i',
        'J' => 'j',
        'K' => 'k',
        'L' => 'l',
        'M' => 'm',
        'N' => 'n',
        'O' => 'o',
        'P' => 'p',
        'Q' => 'q',
        'R' => 'r',
        'S' => 's',
        'T' => 't',
        'U' => 'u',
        'V' => 'v',
        'W' => 'w',
        'X' => 'x',
        'Y' => 'y',
        'Z' => 'z',
        _ => c,
    }
}

/// A text folded character by character when the search is
/// case-insensitive; untouched when it is case-sensitive.
pub open spec fn spec_fold_text(l: Seq<char>, case_sensitive: bool) -> Seq<char> {
    if case_sensitive {
        l
    } else {
        Seq::new(l.len(), |i: int| spec_fold_char(l[i]))
    }
}

/// Whether `q` occurs in `l` starting at position `p`.
pub open spec fn spec_occurs_at(l: Seq<char>, q: Seq<char>, p: int) -> bool {
    0 <= p && p + q.len() <= l.len() && l.subrange(p, p + q.len()) == q
}

/// The positions at or after `p` where `q` occurs in `l`, in increasing
/// order; the scan advances one column past each found start, so
/// overlapping occurrences are all listed.
pub open spec fn spec_match_positions(l: Seq<char>, q: Seq<char>, p: int) -> Seq<int>
    decreases l.len() + 1 - p,
{
    if p + q.len() > l.len() || p < 0 {
        Seq::empty()
    } else if spec_occurs_at(l, q, p) {
        seq![p] + spec_match_positions(l, q, p + 1)
    } else {
        spec_match_positions(l, q, p + 1)
    }
}

/// All matches of the query in the document, in document order: one triple
/// `(row, start, start + query length)` per occurrence of the folded query
/// in each folded line.
pub open spec fn spec_search_matches(
    lines: Seq<Seq<char>>,
    q: Seq<char>,
    case_sensitive: bool,
    row: int,
) -> Seq<(int, int, int)>
    decreases lines.len() - row,
{
    if row < 0 || row >= lines.len() {
        Seq::empty()
    } else {
        let qf = spec_fold_text(q, case_sensitive);
        let cols = spec_match_positions(spec_fold_text(lines[row], case_sensitive), qf, 0);
        cols.map_values(|p: int| (row, p, p + q.len() as int)) + spec_search_matches(
            lines,
            q,
            case_sensitive,
            row + 1,
        )
    }
}

/// The stored match triples as mathematical triples.
pub open spec fn spec_triples(v: Seq<(usize, usize, usize)>) -> Seq<(int, int, int)> {
    Seq::new(v.len(), |i: int| (v[i].0 as int, v[i].1 as int, v[i].2 as int))
}

/// Folds every character of a vector when the search is case-insensitive.
fn fold_chars(v: &Vec<char>, case_sensitive: bool) -> (r: Vec<char>)
    ensures
        r@ == spec_fold_text(v@, case_sensitive),
{
    if case_sensitive {
        let r = crate::util::sub_chars(v, 0, v.len());
        proof {
            assert(v@.subrange(0, v@.len() as int) =~= v@);
        }
        r
    } else {
        let mut r: Vec<char> = Vec::new();
        let mut i: usize = 0;
        while i < v.len()
            invariant
                i <= v@.len(),
                r@.len() == i,
                forall|j: int| 0 <= j < i ==> r@[j] == spec_fold_char(v@[j]),
            decreases v@.len() - i,
        {
            r.push(fold_char(v[i]));
            i = i + 1;
        }
        proof {
            assert(r@ =~= spec_fold_text(v@, case_sensitive));
        }
        r
    }
}

/// Whether `q` occurs in `l` at position `p`.
fn occurs_at(l: &Vec<char>, q: &Vec<char>, p: usize) -> (r: bool)
    requires
        p + q@.len() <= l@.len(),
    ensures
        r == spec_occurs_at(l@, q@, p as int),
{
    let n = l.len();
    let mut i: usize = 0;
    while i < q.len()
        invariant
            i <= q@.len(),
            n == l@.len(),
            p + q@.len() <= l@.len(),
            forall|j: int| 0 <= j < i ==> l@[p + j] == q@[j],
        decreases q@.len() - i,
    {
        if l[p + i] != q[i] {
            proof {
                assert(l@.subrange(p as int, p + q@.len()) != q@) by {
                    assert(l@.subrange(p as int, p + q@.len())[i as int] == l@[p + i]);
                }
            }
            return false;
        }
        i = i + 1;
    }
    proof {
        assert(l@.subrange(p as int, p + q@.len()) =~= q@);
    }
    true
}

impl Buffer {
    /// Scans the whole document for the query and fills the match list in
    /// document order; resets the current match to the first one and moves
    /// the cursor to it when any match exists. An empty query clears the
    /// match state and returns zero. Returns the number of matches.
    pub fn search(&mut self, query: &str, case_sensitive: bool) -> (count: usize)
        requires
            old(self).wf(),
        ensures
            final(self).wf(),
            *final(self) == (Buffer {
                search_matches: final(self).search_matches,
                current_match: final(self).current_match,
                cursor_position: final(self).cursor_position,
                ..*old(self)
            }),
            query@.len() == 0 ==> final(self).search_matches@.len() == 0
                && (final(self).current_match is None) && count == 0
                && final(self).cursor_position == old(self).cursor_position,
            query@.len() > 0 ==> ({
                let ms = spec_search_matches(old(self).lines(), query@, case_sensitive, 0);
                &&& spec_triples(final(self).search_matches@) == ms
                &&& count == ms.len()
                &&& (ms.len() > 0 ==> final(self).current_match == Some(0usize)
                    && final(self).cursor() == (ms[0].0 as nat, ms[0].1 as nat))
                &&& (ms.len() == 0 ==> (final(self).current_match is None)
                    && final(self).cursor_position == old(self).cursor_position)
            }),
    {
        self.search_matches = Vec::new();
        self.current_match = None;
        if query.unicode_len() == 0 {
            return 0;
        }
        let q = str_chars(query);
        let qf = fold_chars(&q, case_sensitive);
        let qlen = q.len();
        let ghost ms = spec_search_matches(old(self).lines(), query@, case_sensitive, 0);
        let mut row: usize = 0;
        while row < self.content.len()
            invariant
                row <= self.lines().len(),
                *self == (Buffer {
                    search_matches: self.search_matches,
                    current_match: self.current_match,
                    ..*old(self)
                }),
                self.current_match is None,
                qlen == query@.len(),
                q@ == query@,
                qf@ == spec_fold_text(query@, case_sensitive),
                query@.len() > 0,
                spec_triples(self.search_matches@) + spec_search_matches(
                    old(self).lines(),
                    query@,
                    case_sensitive,
                    row as int,
                ) == spec_search_matches(old(self).lines(), query@, case_sensitive, 0),
                forall|i: int|
                    0 <= i < self.search_matches@.len() ==> {
                        let m = #[trigger] self.search_matches@[i];
                        (m.0 as int) < self.lines().len() && m.1 <= m.2 <= self.lines()[m.0 as int].len()
                    },
            decreases self.lines().len() - row,
        {
            let lf = fold_chars(&self.content[row], case_sensitive);
            let llen = lf.len();
            let ghost l = spec_fold_text(self.lines()[row as int], case_sensitive);
            let ghost row_cols = spec_match_positions(l, qf@, 0);
            let ghost pre_matches = spec_triples(self.search_matches@);
            let mut p: usize = 0;
            let ghost done: Seq<int> = Seq::empty();
            while qlen <= llen && p <= llen - qlen
                invariant
                    p <= llen + 1,
                    qlen == query@.len(),
                    query@.len() > 0,
                    llen == l.len(),
                    lf@ == l,
                    qf@ == spec_fold_text(query@, case_sensitive),
                    row < self.lines().len(),
                    l == spec_fold_text(self.lines()[row as int], case_sensitive),
                    l.len() == self.lines()[row as int].len(),
                    *self == (Buffer {
                        search_matches: self.search_matches,
                        current_match: self.current_match,
                        ..*old(self)
                    }),
                    self.current_match is None,
                    spec_match_positions(l, qf@, 0) == done + spec_match_positions(
                        l,
                        qf@,
                        p as int,
                    ),
                    spec_triples(self.search_matches@) == pre_matches + done.map_values(
                        |c: int| (row as int, c, c + query@.len() as int),
                    ),
                    forall|i: int|
                        0 <= i < self.search_matches@.len() ==> {
                            let m = #[trigger] self.search_matches@[i];
                            (m.0 as int) < self.lines().len() && m.1 <= m.2 <= self.lines()[m.0 as int].len()
                        },
                decreases llen - p,
            {
                let ghost done0 = done;
                let ghost pm = self.search_matches@;
                if occurs_at(&lf, &qf, p) {
                    self.search_matches.push((row, p, p + qlen));
                    proof {
                        done = done0 + seq![p as int];
                        assert(done0 + (seq![p as int] + spec_match_positions(l, qf@, p + 1))
                            =~= done + spec_match_positions(l, qf@, p + 1));
                        assert(spec_triples(self.search_matches@) =~= spec_triples(pm) + seq![
                            (row as int, p as int, p + qlen as int),
                        ]);
                        assert(done.map_values(|c: int| (row as int, c, c + query@.len() as int))
                            =~= done0.map_values(
                            |c: int| (row as int, c, c + query@.len() as int),
                        ) + seq![(row as int, p as int, p + qlen as int)]);
                        assert(spec_triples(self.search_matches@) =~= pre_matches
                            + done.map_values(
                            |c: int| (row as int, c, c + query@.len() as int),
                        ));
                    }
                }
                p = p + 1;
            }
            proof {
                assert(spec_match_positions(l, qf@, p as int) =~= Seq::<int>::empty());
                assert(done =~= spec_match_positions(l, qf@, 0));
                assert(spec_search_matches(old(self).lines(), query@, case_sensitive, row as int)
                    == done.map_values(|c: int| (row as int, c, c + query@.len() as int))
                    + spec_search_matches(
                    old(self).lines(),
                    query@,
                    case_sensitive,
                    row as int + 1,
                ));
                assert(spec_triples(self.search_matches@) + spec_search_matches(
                    old(self).lines(),
                    query@,
                    case_sensitive,
                    row as int + 1,
                ) =~= spec_search_matches(old(self).lines(), query@, case_sensitive, 0));
            }
            row = row + 1;
        }
        proof {
            assert(spec_search_matches(old(self).lines(), query@, case_sensitive, row as int)
                =~= Seq::<(int, int, int)>::empty());
            assert(spec_triples(self.search_matches@) =~= ms);
        }
        if self.search_matches.len() > 0 {
            self.current_match = Some(0);
            self.jump_to_current_match();
            proof {
                assert(ms[0] == spec_triples(self.search_matches@)[0]);
            }
        }
        self.search_matches.len()
    }

    /// Moves the cursor to the current match, clamping to the content; no
    /// current match, no movement.
    pub(crate) fn jump_to_current_match(&mut self)
        requires
            old(self).wf(),
        ensures
            final(self).wf(),
            *final(self) == (Buffer {
                cursor_position: final(self).cursor_position,
                ..*old(self)
            }),
            match old(self).current_match {
                Some(i) => if (i as int) < old(self).search_matches@.len() {
                    final(self).cursor() == crate::buffer::clamp_cursor(
                        old(self).lines(),
                        (
                            old(self).search_matches@[i as int].0 as nat,
                            old(self).search_matches@[i as int].1 as nat,
                        ),
                    )
                } else {
                    *final(self) == *old(self)
                },
                None => *final(self) == *old(self),
            },
    {
        if let Some(current) = self.current_match {
            if current < self.search_matches.len() {
                let (row, col, _) = self.search_matches[current];
                self.clamp_cursor_to((row, col));
            }
        }
    }

    /// Steps to the next match if there is one, repositioning the cursor;
    /// returns false — moving nothing — at the end of the match list or
    /// without a search.
    pub fn next_match(&mut self) -> (r: bool)
        requires
            old(self).wf(),
        ensures
            final(self).wf(),
            *final(self) == (Buffer {
                current_match: final(self).current_match,
                cursor_position: final(self).cursor_position,
                ..*old(self)
            }),
            match old(self).current_match {
                Some(i) => if i + 1 < old(self).search_matches@.len() {
                    &&& r
                    &&& final(self).current_match == Some((i + 1) as usize)
                    &&& final(self).cursor() == crate::buffer::clamp_cursor(
                        old(self).lines(),
                        (
                            old(self).search_matches@[i + 1].0 as nat,
                            old(self).search_matches@[i + 1].1 as nat,
                        ),
                    )
                } else {
                    !r && *final(self) == *old(self)
                },
                None => !r && *final(self) == *old(self),
            },
    {
        if let Some(current) = self.current_match {
            let mlen = self.search_matches.len();
            if mlen > 0 && current < mlen - 1 {
                self.current_match = Some(current + 1);
                self.jump_to_current_match();
                return true;
            }
        }
        false
    }

    /// Steps to the previous match if there is one, repositioning the
    /// cursor; returns false — moving nothing — at the start of the match
    /// list or without a search.
    pub fn previous_match(&mut self) -> (r: bool)
        requires
            old(self).wf(),
        ensures
            final(self).wf(),
            *final(self) == (Buffer {
                current_match: final(self).current_match,
                cursor_position: final(self).cursor_position,
                ..*old(self)
            }),
            match old(self).current_match {
                Some(i) => if i > 0 {
                    &&& r
                    &&& final(self).current_match == Some((i - 1) as usize)
                    &&& final(self).cursor() == (if i - 1 < old(self).search_matches@.len() {
                        crate::buffer::clamp_cursor(
                            old(self).lines(),
                            (
                                old(self).search_matches@[i - 1].0 as nat,
                                old(self).search_matches@[i - 1].1 as nat,
                            ),
                        )
                    } else {
                        old(self).cursor()
                    })
                } else {
                    !r && *final(self) == *old(self)
                },
                None => !r && *final(self) == *old(self),
            },
    {
        if let Some(current) = self.current_match {
            if current > 0 {
                self.current_match = Some(current - 1);
                self.jump_to_current_match();
                return true;
            }
        }
        false
    }

    /// Discards the match list and current match without touching cursor or
    /// content.
    pub fn clear_search(&mut self)
        ensures
            *final(self) == (Buffer {
                search_matches: final(self).search_matches,
                current_match: None,
                ..*old(self)
            }),
            final(self).search_matches@.len() == 0,
    {
        self.search_matches = Vec::new();
        self.current_match = None;
    }
}

} // verus!
