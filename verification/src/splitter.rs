//! Planning the split of an oversized wallet output.
//!
//! A spendable output whose amount exceeds the configured threshold is
//! converted into several outputs no larger than the threshold.  Planning is
//! pure arithmetic: the caller measures the probe transaction's virtual size
//! and turns it into a required fee, and performs every node call (address
//! allocation, transaction construction, signing, broadcast) itself.
//!
//! A plan first allots one threshold-sized destination per whole threshold
//! contained in the amount beyond the first (the final sliver of value is
//! deliberately left to the fee).  It then drops destinations one at a time
//! until their value covers the required fee; whatever the dropped
//! destinations overshoot comes back as one extra destination, unless that
//! remainder is dust, in which case it too is absorbed into the fee.

use vstd::arithmetic::div_mod::lemma_fundamental_div_mod_converse_div;
use vstd::prelude::*;

use crate::fee::sum;

verus! {

/// Amounts at or below this floor (in satoshis) are not worth an output of
/// their own: a trimming remainder this small is absorbed into the fee.
pub const DUST_FLOOR: u64 = 1000;

/// Why a split could not be planned.
#[derive(Clone, Copy, Debug, PartialEq, Eq, Structural)]
pub enum SplitError {
    /// The required fee exceeds the whole value staged for splitting: no
    /// destination set this plan could produce would pay it.
    FeeExceedsValue,
}

/// Whether an output is oversized: only outputs strictly above the threshold
/// are ever touched by the splitter.
pub open spec fn needs_split(amount: u64, threshold: u64) -> bool {
    amount > threshold
}

/// How many threshold-sized destinations an oversized amount is first split
/// into: one per whole threshold contained in `amount - 1`.
pub open spec fn spec_candidate_count(amount: u64, threshold: u64) -> int {
    (amount - 1) / (threshold as int)
}

/// How many threshold-sized destinations must be dropped so that their
/// combined value reaches `required_fee`: the least `k` with
/// `k * threshold >= required_fee`.
pub open spec fn spec_trim_count(required_fee: u64, threshold: u64) -> int {
    (required_fee + threshold - 1) / (threshold as int)
}

/// The value by which the dropped destinations overshoot the required fee.
pub open spec fn spec_trim_remainder(required_fee: u64, threshold: u64) -> int {
    spec_trim_count(required_fee, threshold) * threshold - required_fee
}

/// Decide whether an output is oversized and must be split.
pub fn should_split(amount: u64, threshold: u64) -> (r: bool)
    ensures
        r == needs_split(amount, threshold),
{
    amount > threshold
}

/// An output no larger than the threshold is never touched by a later
/// splitting pass: one pass per output is enough, and a second pass over an
/// already-split wallet leaves every output alone.
pub proof fn lemma_split_idempotent_per_output(amount: u64, threshold: u64)
    requires
        amount <= threshold,
    ensures
        !needs_split(amount, threshold),
{
}

/// Count the threshold-sized destinations an oversized output is staged
/// into: repeatedly subtract the threshold until no more than one threshold
/// of value remains, allotting one destination per subtraction.
///
/// The count is exactly `(amount - 1) / threshold`; what remains after the
/// subtractions is positive and at most one threshold, and is not given a
/// destination of its own (it is left to the fee).
pub fn count_split_outputs(amount: u64, threshold: u64) -> (n: u64)
    requires
        threshold > 0,
        needs_split(amount, threshold),
    ensures
        n == spec_candidate_count(amount, threshold),
        n >= 1,
        n * threshold < amount,
        amount <= n * threshold + threshold,
{
    let mut remaining: u64 = amount;
    let mut n: u64 = 0;
    while remaining > threshold
        invariant
            threshold > 0,
            remaining > 0,
            remaining + n * threshold == amount,
        decreases remaining,
    {
        remaining = remaining - threshold;
        proof {
            assert(n * threshold + threshold == (n + 1) * threshold) by (nonlinear_arith);
            assert(n + 1 <= (n + 1) * threshold) by (nonlinear_arith)
                requires
                    threshold >= 1 && n >= 0,
            ;
        }
        n = n + 1;
    }
    proof {
        lemma_fundamental_div_mod_converse_div(
            amount - 1,
            threshold as int,
            n as int,
            remaining - 1,
        );
    }
    n
}

/// The destination set and fee of one planned split.
#[derive(Clone, Copy, Debug, PartialEq, Eq)]
pub struct SplitPlan {
    /// The threshold the plan was made for.
    pub threshold: u64,
    /// How many destinations carry exactly `threshold` satoshis.
    pub threshold_output_count: u64,
    /// The one destination carrying the trimming remainder, when that
    /// remainder is above the dust floor.
    pub remainder_output: Option<u64>,
    /// Everything not carried by a destination: the fee the transaction
    /// pays.  At least the required fee the plan was asked to cover.
    pub fee: u64,
}

impl SplitPlan {
    /// The amounts of the destinations the plan produces, in order: the
    /// threshold-sized destinations, then the remainder destination if any.
    pub open spec fn output_amounts(self) -> Seq<u64> {
        let thresholds = Seq::<u64>::new(
            self.threshold_output_count as nat,
            |i: int| self.threshold,
        );
        match self.remainder_output {
            Some(r) => thresholds.push(r),
            None => thresholds,
        }
    }

    /// Every produced destination holds a positive amount no larger than
    /// the threshold.
    pub open spec fn outputs_bounded(self) -> bool {
        forall|i: int|
            0 <= i < self.output_amounts().len() ==> 0 < #[trigger] self.output_amounts()[i]
                <= self.threshold
    }
}

/// The sum of a constant sequence.
proof fn lemma_sum_constant(n: nat, v: u64)
    ensures
        sum(Seq::<u64>::new(n, |i: int| v)) == n * v,
    decreases n,
{
    let s = Seq::<u64>::new(n, |i: int| v);
    if n == 0 {
        assert(n * v == 0) by (nonlinear_arith)
            requires
                n == 0,
        ;
    } else {
        lemma_sum_constant((n - 1) as nat, v);
        assert(s.drop_last() =~= Seq::<u64>::new((n - 1) as nat, |i: int| v));
        assert((n - 1) * v + v == n * v) by (nonlinear_arith);
    }
}

proof fn lemma_sum_push(s: Seq<u64>, v: u64)
    ensures
        sum(s.push(v)) == sum(s) + v,
{
    assert(s.push(v).drop_last() =~= s);
}

/// Plan the split of one oversized output of `amount` satoshis.
///
/// The staged destination set is `count_split_outputs(amount, threshold)`
/// destinations of exactly `threshold`; destinations are then dropped one at
/// a time until their combined value covers `required_fee`.  The overshoot
/// comes back as one extra destination when it exceeds the dust floor and is
/// otherwise left to the fee.  The plan fails only when even the whole
/// staged destination set cannot pay the required fee.
///
/// An accepted plan conserves value: the produced destinations plus the fee
/// equal the original amount, the fee covers the required fee, and every
/// produced destination is positive and no larger than the threshold.
pub fn plan_split(amount: u64, threshold: u64, required_fee: u64) -> (r: Result<
    SplitPlan,
    SplitError,
>)
    requires
        threshold > 0,
        needs_split(amount, threshold),
    ensures
        r is Err <==> spec_trim_count(required_fee, threshold) > spec_candidate_count(
            amount,
            threshold,
        ),
        r is Err ==> r == Err::<SplitPlan, SplitError>(SplitError::FeeExceedsValue),
        r matches Ok(p) ==> {
            let n = spec_candidate_count(amount, threshold);
            let k = spec_trim_count(required_fee, threshold);
            let rem = spec_trim_remainder(required_fee, threshold);
            &&& p.threshold == threshold
            &&& p.threshold_output_count == n - k
            &&& p.remainder_output == (if rem > DUST_FLOOR {
                Some(rem as u64)
            } else {
                None::<u64>
            })
            &&& sum(p.output_amounts()) + p.fee == amount
            &&& p.fee >= required_fee
            &&& p.outputs_bounded()
        },
{
    let n = count_split_outputs(amount, threshold);
    let mut taken: u64 = 0;
    let mut fee_paid: u64 = 0;
    while fee_paid < required_fee
        invariant
            threshold > 0,
            taken <= n,
            fee_paid == taken * threshold,
            n * threshold < amount,
            n == spec_candidate_count(amount, threshold),
            taken > 0 ==> (taken - 1) * threshold < required_fee,
        decreases n - taken,
    {
        if taken == n {
            proof {
                lemma_trim_count_exceeds(required_fee, threshold, n);
            }
            return Err(SplitError::FeeExceedsValue);
        }
        proof {
            assert((taken + 1) * threshold == taken * threshold + threshold) by (nonlinear_arith);
            assert((taken + 1) * threshold <= n * threshold) by (nonlinear_arith)
                requires
                    taken + 1 <= n && threshold > 0,
            ;
        }
        taken = taken + 1;
        fee_paid = fee_paid + threshold;
    }
    proof {
        lemma_trim_count_reached(required_fee, threshold, taken as int);
    }
    let remainder = fee_paid - required_fee;
    let keep = n - taken;
    proof {
        assert(keep * threshold <= n * threshold) by (nonlinear_arith)
            requires
                0 <= keep <= n && threshold > 0,
        ;
        assert(keep * threshold == n * threshold - taken * threshold) by (nonlinear_arith)
            requires
                keep == n - taken,
        ;
    }
    let kept_value = keep * threshold;
    let remainder_output = if remainder > DUST_FLOOR {
        Some(remainder)
    } else {
        None
    };
    let carried = match remainder_output {
        Some(r) => r,
        None => 0,
    };
    let fee = amount - kept_value - carried;
    let plan = SplitPlan { threshold, threshold_output_count: keep, remainder_output, fee };
    proof {
        lemma_sum_constant(keep as nat, threshold);
        if remainder_output is Some {
            lemma_sum_push(Seq::<u64>::new(keep as nat, |i: int| threshold), remainder);
        }
        if taken > 0 {
            assert(taken * threshold - threshold < required_fee) by (nonlinear_arith)
                requires
                    (taken - 1) * threshold < required_fee,
            ;
        }
    }
    Ok(plan)
}

/// When all `n` staged destinations together still fall short of the
/// required fee, the trim count exceeds `n`.
proof fn lemma_trim_count_exceeds(required_fee: u64, threshold: u64, n: u64)
    requires
        threshold > 0,
        n * threshold < required_fee,
    ensures
        spec_trim_count(required_fee, threshold) > n,
{
    let t = threshold as int;
    let k = spec_trim_count(required_fee, threshold);
    vstd::arithmetic::div_mod::lemma_fundamental_div_mod(required_fee + t - 1, t);
    assert(required_fee + t - 1 == k * t + ((required_fee + t - 1) % t));
    assert(0 <= (required_fee + t - 1) % t < t) by {
        vstd::arithmetic::div_mod::lemma_mod_bound(required_fee + t - 1, t);
    }
    assert(k * t >= required_fee);
    assert(k > n) by (nonlinear_arith)
        requires
            k * t >= required_fee && n * t < required_fee && t > 0 && k >= 0,
    ;
}

/// The trimming loop stops at exactly the least number of destinations
/// whose combined value reaches the required fee.
proof fn lemma_trim_count_reached(required_fee: u64, threshold: u64, taken: int)
    requires
        threshold > 0,
        taken >= 0,
        taken * threshold >= required_fee,
        taken > 0 ==> (taken - 1) * threshold < required_fee,
        required_fee > 0 ==> taken > 0,
    ensures
        spec_trim_count(required_fee, threshold) == taken,
{
    let t = threshold as int;
    if required_fee == 0 {
        assert(taken * t >= 0);
        if taken > 0 {
            assert((taken - 1) * t < 0);
            assert((taken - 1) * t >= 0) by (nonlinear_arith)
                requires
                    taken - 1 >= 0 && t > 0,
            ;
        }
        lemma_fundamental_div_mod_converse_div(t - 1, t, 0, t - 1);
    } else {
        let r0 = required_fee + t - 1 - taken * t;
        assert((taken - 1) * t == taken * t - t) by (nonlinear_arith);
        assert(taken > 0);
        assert(0 <= r0 < t);
        lemma_fundamental_div_mod_converse_div(required_fee + t - 1, t, taken, r0);
    }
}

} // verus!
