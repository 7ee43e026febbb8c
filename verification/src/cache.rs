//! Per-batch commitment cache: the "build once, share forever" pattern
//! for settled batches. A batch's log sequence is immutable once settled,
//! so its root is cached under the batch number and never rebuilt; a hit
//! leaves the cache untouched, and every cached root is the commitment of
//! the log sequence it was built from.

use vstd::prelude::*;

use std::collections::HashMap;

use vstd::arithmetic::power2::pow2;

use crate::merkle::batch_root;
use crate::merkle::build;
use crate::merkle::MAX_TREE_DEPTH;
use crate::types::Hash256;
use crate::types::L1BatchNumber;
use crate::types::L2ToL1Log;

verus! {

broadcast use vstd::std_specs::hash::group_hash_axioms;

/// Cache of batch commitments, keyed by batch number, all built at one
/// fixed tree depth. The ghost `sources` records, for each cached batch,
/// the log sequence its root was built from.
pub struct RootCache {
    pub roots: HashMap<u32, Hash256>,
    pub depth: u64,
    pub sources: Ghost<Map<u32, Seq<L2ToL1Log>>>,
}

impl RootCache {
    /// Every cached root is the commitment of the logs it was built from.
    pub open spec fn wf(self) -> bool {
        &&& self.depth <= MAX_TREE_DEPTH
        &&& forall|k: u32| #[trigger]
            self.roots@.contains_key(k) ==> self.sources@.contains_key(k) && self.roots@[k]
                == batch_root(self.sources@[k], self.depth as nat)
    }

    /// The batches the cache holds.
    pub open spec fn cached(self) -> Set<u32> {
        self.roots@.dom()
    }

    /// The log sequence a cached batch's root was built from.
    pub open spec fn source_of(self, batch: L1BatchNumber) -> Seq<L2ToL1Log> {
        self.sources@[batch.value]
    }

    /// The tree depth of every commitment in the cache.
    pub open spec fn spec_depth(self) -> u64 {
        self.depth
    }

    /// An empty cache for trees of the given depth.
    pub fn new(depth: u64) -> (r: RootCache)
        requires
            depth <= MAX_TREE_DEPTH,
        ensures
            r.wf(),
            r.cached() == Set::<u32>::empty(),
            r.spec_depth() == depth,
    {
        let roots: HashMap<u32, Hash256> = HashMap::new();
        RootCache { roots, depth, sources: Ghost(Map::empty()) }
    }

    /// The commitment of one settled batch: returned from the cache when
    /// the batch was built before — the cache is then left untouched, the
    /// at-most-once population guarantee — and built and recorded
    /// otherwise.
    pub fn get_or_build(&mut self, batch: L1BatchNumber, logs: &Vec<L2ToL1Log>) -> (root: Hash256)
        requires
            old(self).wf(),
            logs@.len() <= pow2(old(self).spec_depth() as nat),
        ensures
            final(self).wf(),
            final(self).spec_depth() == old(self).spec_depth(),
            old(self).cached().contains(batch.value) ==> (*final(self) == *old(self) && root
                == batch_root(old(self).source_of(batch), old(self).spec_depth() as nat)),
            !old(self).cached().contains(batch.value) ==> (root == batch_root(
                logs@,
                old(self).spec_depth() as nat,
            ) && final(self).cached() == old(self).cached().insert(batch.value)
                && final(self).source_of(batch) == logs@),
            final(self).cached().contains(batch.value),
    {
        proof {
            assert(vstd::std_specs::hash::obeys_key_model::<u32>());
            assert(vstd::std_specs::hash::builds_valid_hashers::<
                std::collections::hash_map::RandomState,
            >());
        }
        match self.roots.get(&batch.value) {
            Some(root) => *root,
            None => {
                let root = build(logs, self.depth);
                self.roots.insert(batch.value, root);
                proof {
                    self.sources@ = self.sources@.insert(batch.value, logs@);
                    assert forall|k: u32| #[trigger]
                        self.roots@.contains_key(k) implies self.sources@.contains_key(k)
                        && self.roots@[k] == batch_root(self.sources@[k], self.depth as nat) by {
                        if k != batch.value {
                            assert(old(self).roots@.contains_key(k));
                            assert(old(self).roots@[k] == batch_root(
                                old(self).sources@[k],
                                old(self).depth as nat,
                            ));
                            assert(self.roots@[k] == old(self).roots@[k]);
                            assert(self.sources@[k] == old(self).sources@[k]);
                        }
                    }
                }
                root
            },
        }
    }
}

} // verus!
