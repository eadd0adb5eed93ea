//! What is known of the entries that commits hold.
use std::collections::HashMap;

use vstd::prelude::*;
use vstd::std_specs::hash::*;

use crate::object_id::ObjectId;
use crate::repo::FoundEntry;

verus! {

broadcast use group_hash_axioms;

/// What the last of several pairs for `low` says, if there is one.
spec fn last_for(pairs: Seq<(u32, Option<FoundEntry>)>, low: u32) -> Option<Option<FoundEntry>>
    decreases pairs.len(),
{
    if pairs.len() == 0 {
        None
    } else if pairs.last().0 == low {
        Some(pairs.last().1)
    } else {
        last_for(pairs.drop_last(), low)
    }
}

/// Remembers for commits which entry stands at a path in them, if any.
///
/// The pairs are found by the first 128 bits of the commit's id; those of commits that share
/// these bits stand side by side.
pub struct Memo {
    pairs: HashMap<u128, Vec<(u32, Option<FoundEntry>)>>,
}

impl Memo {
    spec fn known(&self, id: ObjectId) -> Option<Option<FoundEntry>> {
        if self.pairs@.contains_key(id.high) {
            last_for(self.pairs@[id.high]@, id.low)
        } else {
            None
        }
    }
}

impl View for Memo {
    type V = Map<ObjectId, Option<FoundEntry>>;

    closed spec fn view(&self) -> Map<ObjectId, Option<FoundEntry>> {
        Map::new(|id: ObjectId| self.known(id) is Some, |id: ObjectId| self.known(id)->0)
    }
}

impl Memo {
    /// Nothing is known yet.
    pub fn new() -> (r: Memo)
        ensures
            r@ == Map::<ObjectId, Option<FoundEntry>>::empty(),
    {
        let r = Memo { pairs: HashMap::new() };
        assert(r@ =~= Map::empty());
        r
    }

    /// What is known of the commit `id`.
    pub fn get(&self, id: ObjectId) -> (r: Option<Option<FoundEntry>>)
        ensures
            r == (if self@.contains_key(id) {
                Some(self@[id])
            } else {
                None
            }),
    {
        match self.pairs.get(&id.high) {
            None => None,
            Some(pairs) => {
                let mut n: usize = pairs.len();
                assert(pairs@.take(n as int) =~= pairs@);
                while n > 0
                    invariant
                        n <= pairs@.len(),
                        self.known(id) == last_for(pairs@.take(n as int), id.low),
                    decreases n,
                {
                    assert(pairs@.take(n as int).drop_last() =~= pairs@.take(n - 1));
                    let (low, found) = pairs[n - 1];
                    if low == id.low {
                        return Some(found);
                    }
                    n = n - 1;
                }
                None
            },
        }
    }

    /// Remembers `found` for the commit `id`.
    pub fn insert(&mut self, id: ObjectId, found: Option<FoundEntry>)
        ensures
            final(self)@ == old(self)@.insert(id, found),
    {
        let ghost before = *self;
        let mut pairs: Vec<(u32, Option<FoundEntry>)> = match self.pairs.remove(&id.high) {
            Some(pairs) => pairs,
            None => Vec::new(),
        };
        let ghost shorter = pairs@;
        pairs.push((id.low, found));
        self.pairs.insert(id.high, pairs);
        proof {
            assert(pairs@.drop_last() =~= shorter);
            assert forall|other: ObjectId| #[trigger] self.known(other) == (if other == id {
                Some(found)
            } else {
                before.known(other)
            }) by {
                if other.high == id.high {
                    assert(self.pairs@[other.high]@ == pairs@);
                    assert(before.known(other) == last_for(shorter, other.low));
                }
            }
            assert(self@ =~= before@.insert(id, found));
        }
    }
}

} // verus!
