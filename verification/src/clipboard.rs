//! Bounded yank history: a most-recent-first ring of yanked strings, capped at
//! `max_history` entries, with non-destructive peeks, a destructive pop, and a
//! pair of rotations that are exact inverses of each other.

use vstd::prelude::*;

use crate::util::{join_with_newlines, spec_join_lines, spec_split_lines, split_lines, strs_view};

verus! {

/// What the history becomes when `content` is yanked in front of `h` with the
/// cap `max`: empty content is dropped, otherwise the front-extended history
/// is truncated to the cap.
pub open spec fn spec_yank(h: Seq<Seq<char>>, content: Seq<char>, max: nat) -> Seq<Seq<char>> {
    if content.len() == 0 {
        h
    } else if h.len() + 1 <= max {
        seq![content] + h
    } else {
        (seq![content] + h).take(max as int)
    }
}

/// One forward rotation: the front entry moves to the back.
pub open spec fn spec_rotate_forward(h: Seq<Seq<char>>) -> Seq<Seq<char>> {
    if h.len() == 0 {
        h
    } else {
        h.drop_first().push(h[0])
    }
}

/// One backward rotation: the back entry moves to the front.
pub open spec fn spec_rotate_backward(h: Seq<Seq<char>>) -> Seq<Seq<char>> {
    if h.len() == 0 {
        h
    } else {
        seq![h.last()] + h.drop_last()
    }
}

/// Rotating forward and then backward (or the other way round) restores the
/// history exactly.
pub proof fn lemma_rotation_round_trip(h: Seq<Seq<char>>)
    ensures
        spec_rotate_backward(spec_rotate_forward(h)) == h,
        spec_rotate_forward(spec_rotate_backward(h)) == h,
{
    if h.len() > 0 {
        assert(spec_rotate_backward(spec_rotate_forward(h)) =~= h);
        assert(spec_rotate_forward(spec_rotate_backward(h)) =~= h);
    }
}

/// Ordered history of yanked strings, most recent first, bounded by
/// `max_history`.
#[derive(Debug)]
pub struct Clipboard {
    history: Vec<String>,
    max_history: usize,
}

impl Clipboard {
    /// The history, most recent entry first.
    pub closed spec fn entries(&self) -> Seq<Seq<char>> {
        strs_view(self.history@)
    }

    /// The cap on the history length.
    pub closed spec fn max(&self) -> nat {
        self.max_history as nat
    }

    /// The history never exceeds its cap.
    pub open spec fn wf(&self) -> bool {
        self.entries().len() <= self.max()
    }

    /// A fresh clipboard holding up to ten entries.
    pub fn new() -> (r: Self)
        ensures
            r.wf(),
            r.entries() == Seq::<Seq<char>>::empty(),
            r.max() == 10,
    {
        let r = Clipboard { history: Vec::new(), max_history: 10 };
        proof {
            assert(r.entries() =~= Seq::<Seq<char>>::empty());
        }
        r
    }

    /// A fresh clipboard with the given cap.
    pub fn new_with_capacity(max_history: usize) -> (r: Self)
        ensures
            r.wf(),
            r.entries() == Seq::<Seq<char>>::empty(),
            r.max() == max_history,
    {
        let r = Clipboard { history: Vec::new(), max_history };
        proof {
            assert(r.entries() =~= Seq::<Seq<char>>::empty());
        }
        r
    }

    /// Pushes `content` to the front of the ring, dropping the oldest entries
    /// beyond the cap; empty content is a no-op.
    pub fn yank(&mut self, content: String)
        requires
            old(self).wf(),
        ensures
            final(self).wf(),
            final(self).max() == old(self).max(),
            final(self).entries() == spec_yank(
                old(self).entries(),
                content@,
                old(self).max(),
            ),
    {
        if content.as_str().is_empty() {
            return;
        }
        let ghost pre = self.entries();
        self.history.insert(0, content);
        proof {
            assert(self.entries() =~= seq![content@] + pre);
        }
        proof {
            assert(self.entries() =~= (seq![content@] + pre).take(self.entries().len() as int));
        }
        while self.history.len() > self.max_history
            invariant
                self.max_history == old(self).max_history,
                self.entries() == (seq![content@] + pre).take(self.entries().len() as int),
                self.entries().len() <= pre.len() + 1,
                self.entries().len() < pre.len() + 1 ==> self.entries().len() >= self.max(),
            decreases self.history.len(),
        {
            let ghost before = self.entries();
            self.history.pop();
            proof {
                assert(self.entries() =~= before.drop_last());
                assert(self.entries() =~= (seq![content@] + pre).take(self.entries().len() as int));
            }
        }
        proof {
            if pre.len() + 1 <= old(self).max() {
                assert(self.entries().len() == pre.len() + 1);
                assert(self.entries() =~= seq![content@] + pre);
            } else {
                assert(self.entries().len() == old(self).max());
            }
        }
    }

    /// The most recent entry, without removing it.
    pub fn peek(&self) -> (r: Option<&String>)
        ensures
            match r {
                Some(s) => self.entries().len() > 0 && s@ == self.entries()[0],
                None => self.entries().len() == 0,
            },
    {
        if self.history.len() > 0 {
            Some(&self.history[0])
        } else {
            None
        }
    }

    /// The entry at the given history index, most recent first.
    pub fn peek_at(&self, index: usize) -> (r: Option<&String>)
        ensures
            match r {
                Some(s) => index < self.entries().len() && s@ == self.entries()[index as int],
                None => index >= self.entries().len(),
            },
    {
        if index < self.history.len() {
            Some(&self.history[index])
        } else {
            None
        }
    }

    /// Removes and returns the most recent entry.
    pub fn pop(&mut self) -> (r: Option<String>)
        requires
            old(self).wf(),
        ensures
            final(self).wf(),
            final(self).max() == old(self).max(),
            match r {
                Some(s) => old(self).entries().len() > 0 && s@ == old(self).entries()[0]
                    && final(self).entries() == old(self).entries().drop_first(),
                None => old(self).entries().len() == 0
                    && final(self).entries() == old(self).entries(),
            },
    {
        if self.history.len() > 0 {
            let s = self.history.remove(0);
            proof {
                assert(self.entries() =~= old(self).entries().drop_first());
            }
            Some(s)
        } else {
            None
        }
    }

    /// Empties the history.
    pub fn clear(&mut self)
        ensures
            final(self).wf(),
            final(self).max() == old(self).max(),
            final(self).entries() == Seq::<Seq<char>>::empty(),
    {
        self.history.clear();
        proof {
            assert(self.entries() =~= Seq::<Seq<char>>::empty());
        }
    }

    /// The number of stored entries.
    pub fn len(&self) -> (r: usize)
        ensures
            r == self.entries().len(),
    {
        self.history.len()
    }

    /// Whether the history holds no entry.
    pub fn is_empty(&self) -> (r: bool)
        ensures
            r == (self.entries().len() == 0),
    {
        self.history.len() == 0
    }

    /// The stored history, most recent first.
    pub fn get_history(&self) -> (r: &Vec<String>)
        ensures
            strs_view(r@) == self.entries(),
    {
        &self.history
    }

    /// Moves the front entry to the back of the ring.
    pub fn rotate_forward(&mut self)
        requires
            old(self).wf(),
        ensures
            final(self).wf(),
            final(self).max() == old(self).max(),
            final(self).entries() == spec_rotate_forward(old(self).entries()),
    {
        if self.history.len() > 0 {
            let item = self.history.remove(0);
            self.history.push(item);
            proof {
                assert(self.entries() =~= spec_rotate_forward(old(self).entries()));
            }
        }
    }

    /// Moves the back entry to the front of the ring; the exact inverse of
    /// [`Self::rotate_forward`].
    pub fn rotate_backward(&mut self)
        requires
            old(self).wf(),
        ensures
            final(self).wf(),
            final(self).max() == old(self).max(),
            final(self).entries() == spec_rotate_backward(old(self).entries()),
    {
        if self.history.len() > 0 {
            let item_opt = self.history.pop();
            if let Some(item) = item_opt {
                self.history.insert(0, item);
            }
            proof {
                assert(self.entries() =~= spec_rotate_backward(old(self).entries()));
            }
        }
    }

    /// Joins the given lines with newlines and yanks the result as one entry;
    /// an empty list is a no-op.
    pub fn yank_lines(&mut self, lines: Vec<String>)
        requires
            old(self).wf(),
        ensures
            final(self).wf(),
            final(self).max() == old(self).max(),
            final(self).entries() == if lines@.len() == 0 {
                old(self).entries()
            } else {
                spec_yank(old(self).entries(), spec_join_lines(strs_view(lines@)), old(self).max())
            },
    {
        if lines.len() == 0 {
            return;
        }
        let content = join_with_newlines(&lines);
        self.yank(content);
    }

    /// The most recent entry split back into its lines; the inverse of
    /// [`Self::yank_lines`] for non-empty line lists.
    pub fn peek_lines(&self) -> (r: Option<Vec<String>>)
        ensures
            match r {
                Some(v) => self.entries().len() > 0 && strs_view(v@) == spec_split_lines(
                    self.entries()[0],
                ),
                None => self.entries().len() == 0,
            },
    {
        if self.history.len() > 0 {
            Some(split_lines(self.history[0].as_str()))
        } else {
            None
        }
    }

    /// Changes the cap, dropping the oldest entries beyond it.
    pub fn set_max_history(&mut self, max_history: usize)
        requires
            old(self).wf(),
        ensures
            final(self).wf(),
            final(self).max() == max_history,
            final(self).entries() == if old(self).entries().len() <= max_history {
                old(self).entries()
            } else {
                old(self).entries().take(max_history as int)
            },
    {
        self.max_history = max_history;
        proof {
            assert(self.entries() =~= old(self).entries().take(self.entries().len() as int));
        }
        while self.history.len() > self.max_history
            invariant
                self.max_history == max_history,
                self.entries() == old(self).entries().take(self.entries().len() as int),
                self.entries().len() <= old(self).entries().len(),
                self.entries().len() < old(self).entries().len() ==> self.entries().len()
                    >= max_history,
            decreases self.history.len(),
        {
            let ghost before = self.entries();
            self.history.pop();
            proof {
                assert(self.entries() =~= before.drop_last());
                assert(self.entries() =~= old(self).entries().take(self.entries().len() as int));
            }
        }
        proof {
            if old(self).entries().len() <= max_history {
                assert(self.entries().len() == old(self).entries().len());
                assert(self.entries() =~= old(self).entries());
            }
        }
    }
}

} // verus!
