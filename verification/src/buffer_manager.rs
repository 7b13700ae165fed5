//! The multi-document layer: a map from buffer identifiers to buffers that
//! tracks which buffer is active and evicts the least-recently-used buffer
//! beyond a fixed cap. Buffers are kept most recently used first, so the
//! order of the entries is the use order. Background loading and per-buffer
//! locking are an outer concern; the manager holds plain buffers.

use vstd::prelude::*;

use crate::buffer::Buffer;

verus! {

/// The most buffers the manager keeps before evicting.
pub const BUFFER_CAP: usize = 100;

/// One managed buffer and its identifier.
pub struct BufferEntry {
    pub id: usize,
    pub buffer: Buffer,
}

/// Buffers by identifier, most recently used first.
pub struct BufferManager {
    entries: Vec<BufferEntry>,
    active_buffer: Option<usize>,
}

impl BufferManager {
    /// The identifiers in use order, most recent first.
    pub closed spec fn ids(&self) -> Seq<usize> {
        Seq::new(self.entries@.len(), |i: int| self.entries@[i].id)
    }

    /// The buffer stored under the identifier at position `i`.
    pub closed spec fn buffer_at(&self, i: int) -> Buffer {
        self.entries@[i].buffer
    }

    /// The active identifier, if one is designated.
    pub closed spec fn active(&self) -> Option<usize> {
        self.active_buffer
    }

    /// Identifiers are unique, the cap holds, and the active identifier —
    /// when set — is stored.
    pub open spec fn wf(&self) -> bool {
        &&& forall|i: int, j: int|
            0 <= i < j < self.ids().len() ==> #[trigger] self.ids()[i] != #[trigger] self.ids()[j]
        &&& self.ids().len() <= BUFFER_CAP
        &&& match self.active() {
            Some(id) => self.ids().contains(id),
            None => true,
        }
    }

    /// A fresh manager with no buffers and no active designation.
    pub fn new() -> (r: Self)
        ensures
            r.wf(),
            r.ids() == Seq::<usize>::empty(),
            r.active() is None,
    {
        let r = BufferManager { entries: Vec::new(), active_buffer: None };
        proof {
            assert(r.ids() =~= Seq::<usize>::empty());
        }
        r
    }

    /// The number of managed buffers.
    pub fn buffer_count(&self) -> (r: usize)
        ensures
            r == self.ids().len(),
    {
        self.entries.len()
    }

    /// The active identifier, if any.
    pub fn active_id(&self) -> (r: Option<usize>)
        ensures
            r == self.active(),
    {
        self.active_buffer
    }

    /// The position of an identifier in the use order.
    fn position_of(&self, id: usize) -> (r: Option<usize>)
        ensures
            match r {
                Some(i) => i < self.ids().len() && self.ids()[i as int] == id,
                None => !self.ids().contains(id),
            },
    {
        let mut i: usize = 0;
        while i < self.entries.len()
            invariant
                i <= self.ids().len(),
                forall|j: int| 0 <= j < i ==> #[trigger] self.ids()[j] != id,
            decreases self.ids().len() - i,
        {
            if self.entries[i].id == id {
                return Some(i);
            }
            i = i + 1;
        }
        proof {
            assert(forall|j: int|
                0 <= j < self.ids().len() ==> #[trigger] self.ids()[j] != id);
            if self.ids().contains(id) {
                let k = choose|k: int| 0 <= k < self.ids().len() && self.ids()[k] == id;
                assert(self.ids()[k] != id);
            }
        }
        None
    }

    /// Whether a buffer is stored under the identifier.
    pub fn contains(&self, id: usize) -> (r: bool)
        ensures
            r == self.ids().contains(id),
    {
        let pos = self.position_of(id);
        proof {
            if let Some(i) = pos {
                assert(self.ids().contains(id)) by {
                    assert(self.ids()[i as int] == id);
                }
            }
        }
        match pos {
            Some(_) => true,
            None => false,
        }
    }

    /// A shared view of the buffer stored under the identifier.
    pub fn get_buffer(&self, id: usize) -> (r: Option<&Buffer>)
        ensures
            match r {
                Some(b) => exists|i: int|
                    0 <= i < self.ids().len() && #[trigger] self.ids()[i] == id && *b
                        == self.buffer_at(i),
                None => !self.ids().contains(id),
            },
    {
        match self.position_of(id) {
            Some(i) => {
                let b = &self.entries[i].buffer;
                proof {
                    assert(self.ids()[i as int] == id && *b == self.buffer_at(i as int));
                }
                Some(b)
            },
            None => None,
        }
    }

    /// Stores `buffer` under `id` and makes it active and most recent: an
    /// existing entry under the same identifier is replaced, and when the
    /// cap would be exceeded the least-recently-used buffer is evicted.
    pub fn add_buffer(&mut self, id: usize, buffer: Buffer)
        requires
            old(self).wf(),
        ensures
            final(self).wf(),
            final(self).active() == Some(id),
            final(self).ids().len() >= 1,
            final(self).ids()[0] == id,
            final(self).buffer_at(0) == buffer,
            final(self).ids().len() <= BUFFER_CAP,
            // Everything else keeps its relative use order; at most the
            // least-recently-used entry leaves.
            old(self).ids().contains(id) ==> final(self).ids().len() == old(self).ids().len(),
            !old(self).ids().contains(id) ==> final(self).ids().len() as int == (if old(
                self,
            ).ids().len() < BUFFER_CAP {
                old(self).ids().len() + 1
            } else {
                BUFFER_CAP as nat
            }),
    {
        let existing = self.position_of(id);
        if let Some(i) = existing {
            self.entries.remove(i);
            proof {
                assert(self.ids() =~= old(self).ids().remove(i as int));
                lemma_ids_remove(*old(self), *self, i as int);
            }
        }
        let ghost mid = *self;
        self.entries.insert(0, BufferEntry { id, buffer });
        proof {
            assert(self.ids() =~= seq![id].add(mid.ids()));
            assert forall|a: int, b: int|
                0 <= a < b < self.ids().len() implies #[trigger] self.ids()[a]
                != #[trigger] self.ids()[b] by {
                if a == 0 {
                    assert(self.ids()[b] == mid.ids()[b - 1]);
                    if let Some(i) = existing {
                    } else {
                        assert(!old(self).ids().contains(id));
                        if mid.ids()[b - 1] == id {
                            assert(old(self).ids()[b - 1] == id);
                            assert(old(self).ids().contains(id));
                        }
                    }
                } else {
                    assert(self.ids()[a] == mid.ids()[a - 1]);
                    assert(self.ids()[b] == mid.ids()[b - 1]);
                }
            }
        }
        if self.entries.len() > BUFFER_CAP {
            let ghost pre = *self;
            self.entries.pop();
            proof {
                assert(self.ids() =~= pre.ids().drop_last());
            }
        }
        self.active_buffer = Some(id);
        proof {
            assert(self.ids()[0] == id);
            assert(self.ids().contains(id));
        }
    }

    /// Makes the buffer under `id` active and most recent; an unknown
    /// identifier changes nothing and returns false.
    pub fn switch_buffer(&mut self, id: usize) -> (r: bool)
        requires
            old(self).wf(),
        ensures
            final(self).wf(),
            r == old(self).ids().contains(id),
            r ==> final(self).active() == Some(id) && final(self).ids().len() == old(
                self,
            ).ids().len() && final(self).ids()[0] == id,
            !r ==> *final(self) == *old(self),
    {
        let pos = match self.position_of(id) {
            Some(i) => i,
            None => {
                return false;
            },
        };
        proof {
            assert(self.ids().contains(id)) by {
                assert(self.ids()[pos as int] == id);
            }
        }
        let entry = self.entries.remove(pos);
        proof {
            assert(self.ids() =~= old(self).ids().remove(pos as int));
            lemma_ids_remove(*old(self), *self, pos as int);
        }
        let ghost mid = *self;
        self.entries.insert(0, entry);
        self.active_buffer = Some(id);
        proof {
            assert(self.ids() =~= seq![id].add(mid.ids()));
            assert forall|a: int, b: int|
                0 <= a < b < self.ids().len() implies #[trigger] self.ids()[a]
                != #[trigger] self.ids()[b] by {
                if a == 0 {
                    assert(self.ids()[b] == mid.ids()[b - 1]);
                } else {
                    assert(self.ids()[a] == mid.ids()[a - 1]);
                    assert(self.ids()[b] == mid.ids()[b - 1]);
                }
            }
            assert(self.ids()[0] == id);
            assert(self.ids().contains(id));
        }
        true
    }
}

/// Removing one entry keeps the others, shifted, and keeps their ids
/// distinct; the removed id leaves no duplicate behind.
proof fn lemma_ids_remove(pre: BufferManager, post: BufferManager, i: int)
    requires
        pre.wf(),
        0 <= i < pre.ids().len(),
        post.ids() == pre.ids().remove(i),
    ensures
        forall|a: int, b: int|
            0 <= a < b < post.ids().len() ==> #[trigger] post.ids()[a] != #[trigger] post.ids()[b],
        forall|j: int| 0 <= j < post.ids().len() ==> #[trigger] post.ids()[j] != pre.ids()[i],
{
    assert forall|a: int, b: int|
        0 <= a < b < post.ids().len() implies #[trigger] post.ids()[a]
        != #[trigger] post.ids()[b] by {
        let pa = if a < i {
            a
        } else {
            a + 1
        };
        let pb = if b < i {
            b
        } else {
            b + 1
        };
        assert(post.ids()[a] == pre.ids()[pa]);
        assert(post.ids()[b] == pre.ids()[pb]);
    }
    assert forall|j: int| 0 <= j < post.ids().len() implies #[trigger] post.ids()[j]
        != pre.ids()[i] by {
        let pj = if j < i {
            j
        } else {
            j + 1
        };
        assert(post.ids()[j] == pre.ids()[pj]);
    }
}

} // verus!
