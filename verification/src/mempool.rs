//! The one-shot mempool inscription count.
//!
//! The caller lists the pending transactions, fetches each one and runs
//! the envelope extractor over it; this module holds the report type and
//! the counting itself.

use vstd::prelude::*;

use crate::types::InscriptionId;
use crate::types::SatPoint;

verus! {

/// One found inscription: its identifier, where it sits, and a link for a
/// reader.
pub struct Output {
    /// The inscription found in a pending transaction.
    pub inscription: InscriptionId,
    /// The satoshi position it inscribes.
    pub location: SatPoint,
    /// A browser link to the inscription.
    pub explorer: String,
}

/// How many entries of a sequence are set.
pub open spec fn spec_count_true(s: Seq<bool>) -> int
    decreases s.len(),
{
    if s.len() == 0 {
        0
    } else {
        spec_count_true(s.drop_last()) + if s.last() {
            1int
        } else {
            0int
        }
    }
}

/// Count the pending transactions in which the extractor found an
/// inscription, `found` holding one flag per pending transaction.
pub fn count_inscribed(found: &Vec<bool>) -> (n: usize)
    ensures
        n == spec_count_true(found@),
{
    let mut n: usize = 0;
    let mut i: usize = 0;
    while i < found.len()
        invariant
            0 <= i <= found@.len(),
            n <= i,
            n == spec_count_true(found@.take(i as int)),
        decreases found@.len() - i,
    {
        proof {
            assert(found@.take(i + 1).drop_last() =~= found@.take(i as int));
        }
        if found[i] {
            n = n + 1;
        }
        i = i + 1;
    }
    proof {
        assert(found@.take(found@.len() as int) =~= found@);
    }
    n
}

} // verus!
