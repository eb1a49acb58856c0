use vstd::prelude::*;

use crate::drain::id_set;
use crate::record::Quote;

verus! {

/// The set of record ids a query worker has already observed.
///
/// It is initialized from the store's contents at startup, grows by union
/// with the ids of each drained snapshot, and never shrinks. It is owned
/// exclusively by one query worker; no other component reads or writes it.
pub struct SeenTracker {
    ids: Vec<i64>,
}

impl View for SeenTracker {
    type V = Set<i64>;

    closed spec fn view(&self) -> Set<i64> {
        self.ids@.to_set()
    }
}

impl SeenTracker {
    /// An empty tracker: no id has been observed yet.
    pub fn new() -> (r: SeenTracker)
        ensures
            r@ == Set::<i64>::empty(),
    {
        let r = SeenTracker { ids: Vec::new() };
        proof {
            assert(r@ =~= Set::<i64>::empty());
        }
        r
    }

    /// Whether `id` has been observed.
    pub fn contains(&self, id: i64) -> (r: bool)
        ensures
            r == self@.contains(id),
    {
        let n = self.ids.len();
        let mut k: usize = 0;
        while k < n
            invariant
                k <= n,
                n == self.ids@.len(),
                forall|i: int| 0 <= i < k ==> self.ids@[i] != id,
            decreases n - k,
        {
            if self.ids[k] == id {
                proof {
                    assert(self.ids@.contains(id));
                }
                return true;
            }
            k += 1;
        }
        proof {
            assert(!self.ids@.contains(id));
        }
        false
    }

    /// Record one id as observed.
    pub fn observe(&mut self, id: i64)
        ensures
            final(self)@ == old(self)@.insert(id),
    {
        if !self.contains(id) {
            self.ids.push(id);
            proof {
                assert forall|x: i64| self.ids@.contains(x) implies old(self).ids@.contains(x) || x
                    == id by {
                    let i = choose|i: int| 0 <= i < self.ids@.len() && self.ids@[i] == x;
                    if i < old(self).ids@.len() {
                        assert(old(self).ids@[i] == x);
                    }
                }
                assert forall|x: i64| old(self).ids@.contains(x) implies self.ids@.contains(x) by {
                    let i = choose|i: int| 0 <= i < old(self).ids@.len() && old(self).ids@[i] == x;
                    assert(self.ids@[i] == x);
                }
                assert(self.ids@[old(self).ids@.len() as int] == id);
                assert(self.ids@.contains(id));
                assert(self@ =~= old(self)@.insert(id));
            }
        } else {
            proof {
                assert(self@ =~= old(self)@.insert(id));
            }
        }
    }

    /// Record the ids of every record in `snapshot` as observed.
    ///
    /// This is the merge step of a drain: the tracker becomes the union of
    /// its old contents and the snapshot's id set, so it only ever grows.
    pub fn update_seen(&mut self, snapshot: &Vec<Quote>)
        ensures
            final(self)@ == old(self)@.union(id_set(snapshot@)),
            old(self)@.subset_of(final(self)@),
    {
        let n = snapshot.len();
        proof {
            assert(self@ =~= old(self)@.union(id_set(snapshot@.subrange(0, 0))));
        }
        let mut k: usize = 0;
        while k < n
            invariant
                k <= n,
                n == snapshot@.len(),
                self@ == old(self)@.union(id_set(snapshot@.subrange(0, k as int))),
            decreases n - k,
        {
            proof {
                crate::drain::lemma_id_set_take_step(snapshot@, k as int);
            }
            self.observe(snapshot[k].id);
            proof {
                assert(self@ =~= old(self)@.union(id_set(snapshot@.subrange(0, k as int + 1))));
            }
            k += 1;
        }
        proof {
            assert(snapshot@.subrange(0, n as int) =~= snapshot@);
            assert(self@ =~= old(self)@.union(id_set(snapshot@)));
        }
    }

    /// A tracker initialized to exactly the ids present in `snapshot`:
    /// everything that pre-exists at startup counts as already observed and
    /// is intentionally never delivered.
    pub fn from_snapshot(snapshot: &Vec<Quote>) -> (r: SeenTracker)
        ensures
            r@ == id_set(snapshot@),
    {
        let mut r = SeenTracker::new();
        r.update_seen(snapshot);
        proof {
            assert(r@ =~= id_set(snapshot@));
        }
        r
    }
}

} // verus!
