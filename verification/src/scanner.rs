//! The mempool scanner's de-duplication state.
//!
//! The scanner remembers every transaction identifier it has processed in
//! this process's lifetime.  An identifier is marked only after its
//! transaction has been fetched successfully, so a failed fetch is retried
//! on a later pass; once marked, an identifier is never fetched or
//! inspected again, however often later pending lists repeat it.

use vstd::prelude::*;

use crate::types::Txid;

verus! {

/// The set of transaction identifiers already inspected.  Grows
/// monotonically; never pruned; mutated only by the scan loop.
pub struct Scanner {
    seen: Vec<Txid>,
}

impl Scanner {
    /// Whether an identifier has been processed already.
    pub closed spec fn spec_is_seen(self, t: Txid) -> bool {
        self.seen@.contains(t)
    }

    /// Whether the scan loop must fetch and inspect an identifier: exactly
    /// the identifiers not processed before.
    pub open spec fn spec_should_fetch(self, t: Txid) -> bool {
        !self.spec_is_seen(t)
    }

    /// A fresh scanner: nothing has been processed.
    pub fn new() -> (s: Scanner)
        ensures
            forall|t: Txid| !s.spec_is_seen(t),
    {
        Scanner { seen: Vec::new() }
    }

    /// Decide whether an identifier from the pending list must be fetched:
    /// it must unless it was processed before.
    pub fn should_fetch(&self, txid: &Txid) -> (r: bool)
        ensures
            r == self.spec_should_fetch(*txid),
    {
        let mut i: usize = 0;
        while i < self.seen.len()
            invariant
                0 <= i <= self.seen@.len(),
                forall|j: int| 0 <= j < i ==> self.seen@[j] != *txid,
            decreases self.seen@.len() - i,
        {
            if self.seen[i] == *txid {
                return false;
            }
            i = i + 1;
        }
        proof {
            assert(!self.seen@.contains(*txid));
        }
        true
    }

    /// Mark an identifier as processed, after its transaction was fetched
    /// and inspected.  Every identifier seen before stays seen: the
    /// set only grows.
    pub fn mark_seen(&mut self, txid: Txid)
        ensures
            forall|t: Txid|
                final (self).spec_is_seen(t) == (old(self).spec_is_seen(t) || t == txid),
    {
        let ghost before = self.seen@;
        self.seen.push(txid);
        proof {
            assert forall|t: Txid|
                self.seen@.contains(t) == (before.contains(t) || t == txid) by {
                if before.contains(t) {
                    let k = choose|k: int| 0 <= k < before.len() && before[k] == t;
                    assert(self.seen@[k] == t);
                }
                if t == txid {
                    assert(self.seen@[before.len() as int] == t);
                }
                if self.seen@.contains(t) {
                    let k = choose|k: int|
                        0 <= k < self.seen@.len() && self.seen@[k] == t;
                    if k < before.len() {
                        assert(before[k] == t);
                    }
                }
            }
        }
    }
}

/// The de-duplication law: an identifier processed once is never fetched
/// again, so re-listing it in a later pending-list call triggers no second
/// fetch and no second inspection.
pub proof fn lemma_no_refetch(s: Scanner, t: Txid)
    requires
        s.spec_is_seen(t),
    ensures
        !s.spec_should_fetch(t),
{
}

} // verus!
