//! Fee arithmetic: transaction fees and fee rates.
//!
//! Amounts are integer satoshi values.  A fee rate carries millisatoshi
//! precision (millisatoshis per virtual byte), so that fractional
//! satoshi-per-vbyte rates and the escalation multiplier are represented
//! exactly; a fee is rounded to the nearest satoshi, halves rounding up.

use vstd::prelude::*;

verus! {

/// Numerator of the fee-rate escalation multiplier applied when racing a
/// detected transaction (the multiplier is 3/2).
pub const ESCALATION_NUMERATOR: u64 = 3;

/// Denominator of the fee-rate escalation multiplier.
pub const ESCALATION_DENOMINATOR: u64 = 2;

/// Why a fee or fee-rate computation was refused.
#[derive(Clone, Copy, Debug, PartialEq, Eq, Structural)]
pub enum FeeError {
    /// Declared outputs exceed the resolved inputs: the resolver is
    /// inconsistent, so the transaction is not processed further.
    NegativeFee,
    /// The transaction reports a virtual size of zero vbytes.
    ZeroVirtualSize,
    /// A rate must be positive to be usable for a broadcast.
    ZeroRate,
    /// The exact result does not fit in 64 bits.
    Overflow,
}

/// A fee rate in millisatoshis per virtual byte.
#[derive(Clone, Copy, Debug, PartialEq, Eq, Structural)]
pub struct FeeRate {
    /// Millisatoshis of fee per virtual byte of transaction weight.
    pub millisats_per_vbyte: u64,
}

/// The sum of a sequence of satoshi amounts, as an unbounded integer.
pub open spec fn sum(s: Seq<u64>) -> int
    decreases s.len(),
{
    if s.len() == 0 {
        0
    } else {
        sum(s.drop_last()) + s.last()
    }
}

/// The sum of `n` 64-bit amounts is at most `n * u64::MAX`, and never
/// negative.
pub proof fn lemma_sum_bound(s: Seq<u64>)
    ensures
        0 <= sum(s) <= s.len() * (u64::MAX as int),
    decreases s.len(),
{
    if s.len() > 0 {
        lemma_sum_bound(s.drop_last());
        assert((s.len() - 1) * (u64::MAX as int) + (u64::MAX as int) == s.len() * (
        u64::MAX as int)) by (nonlinear_arith);
    }
}

proof fn lemma_sum_push(s: Seq<u64>, i: int)
    requires
        0 <= i < s.len(),
    ensures
        sum(s.take(i + 1)) == sum(s.take(i)) + s[i],
{
    assert(s.take(i + 1).drop_last() =~= s.take(i));
    assert(s.take(i + 1).last() == s[i]);
}

/// Add up a list of satoshi amounts.  The result is exact: a 128-bit
/// accumulator cannot overflow on 64-bit amounts.
fn total_amount(amounts: &Vec<u64>) -> (t: u128)
    ensures
        t == sum(amounts@),
{
    let mut t: u128 = 0;
    let mut i: usize = 0;
    while i < amounts.len()
        invariant
            0 <= i <= amounts.len(),
            t == sum(amounts@.take(i as int)),
        decreases amounts.len() - i,
    {
        proof {
            lemma_sum_bound(amounts@.take(i as int));
            assert((i as int) * (u64::MAX as int) + (u64::MAX as int) < u128::MAX) by (nonlinear_arith)
                requires
                    0 <= i < 0x1_0000_0000_0000_0000,
            ;
            lemma_sum_push(amounts@, i as int);
        }
        t = t + amounts[i] as u128;
        i = i + 1;
    }
    proof {
        assert(amounts@.take(amounts@.len() as int) =~= amounts@);
    }
    t
}

impl FeeRate {
    /// A usable rate is positive: a zero rate cannot outbid anything and is
    /// refused at construction.
    pub open spec fn wf(self) -> bool {
        self.millisats_per_vbyte > 0
    }

    /// Build a fee rate from a millisatoshi-per-vbyte figure.  Construction
    /// succeeds exactly when the figure is positive.
    pub fn try_from_millisats(millisats_per_vbyte: u64) -> (r: Result<FeeRate, FeeError>)
        ensures
            millisats_per_vbyte == 0 ==> r == Err::<FeeRate, FeeError>(FeeError::ZeroRate),
            millisats_per_vbyte > 0 ==> r == Ok::<FeeRate, FeeError>(
                FeeRate { millisats_per_vbyte },
            ),
            r matches Ok(f) ==> f.wf(),
    {
        if millisats_per_vbyte == 0 {
            Err(FeeError::ZeroRate)
        } else {
            Ok(FeeRate { millisats_per_vbyte })
        }
    }

    /// The fee this rate implies for a transaction of `vsize` virtual bytes,
    /// rounded to the nearest satoshi with halves rounding up.
    pub open spec fn spec_fee(self, vsize: u64) -> int {
        (self.millisats_per_vbyte * vsize + 500) / 1000
    }

    /// Compute the fee owed for a transaction of `vsize` virtual bytes.
    /// Fails only when the exact rounded fee does not fit in 64 bits.
    pub fn fee(&self, vsize: u64) -> (r: Result<u64, FeeError>)
        ensures
            self.spec_fee(vsize) <= u64::MAX ==> r == Ok::<u64, FeeError>(
                self.spec_fee(vsize) as u64,
            ),
            self.spec_fee(vsize) > u64::MAX ==> r == Err::<u64, FeeError>(FeeError::Overflow),
    {
        proof {
            assert((self.millisats_per_vbyte as u128) * (vsize as u128) <= (u64::MAX as u128) * (
            u64::MAX as u128)) by (nonlinear_arith)
                requires
                    self.millisats_per_vbyte <= u64::MAX,
                    vsize <= u64::MAX,
            ;
        }
        let millisats: u128 = (self.millisats_per_vbyte as u128) * (vsize as u128) + 500;
        let sats: u128 = millisats / 1000;
        if sats > u64::MAX as u128 {
            Err(FeeError::Overflow)
        } else {
            Ok(sats as u64)
        }
    }

}

/// A measured rate multiplied by the racing multiplier 3/2, truncated to
/// millisatoshi precision.
pub open spec fn spec_escalated(millisats_per_vbyte: u64) -> int {
    (millisats_per_vbyte * ESCALATION_NUMERATOR) / (ESCALATION_DENOMINATOR as int)
}

/// Escalate a measured rate by the racing multiplier.  Fails only when the
/// result does not fit in 64 bits.
pub fn escalate_millisats(millisats_per_vbyte: u64) -> (r: Result<u64, FeeError>)
    ensures
        spec_escalated(millisats_per_vbyte) <= u64::MAX ==> r == Ok::<u64, FeeError>(
            spec_escalated(millisats_per_vbyte) as u64,
        ),
        spec_escalated(millisats_per_vbyte) > u64::MAX ==> r == Err::<u64, FeeError>(
            FeeError::Overflow,
        ),
{
    let scaled: u128 = (millisats_per_vbyte as u128) * (ESCALATION_NUMERATOR as u128) / (
    ESCALATION_DENOMINATOR as u128);
    if scaled > u64::MAX as u128 {
        Err(FeeError::Overflow)
    } else {
        Ok(scaled as u64)
    }
}

/// The fee implied by resolved input amounts and declared output amounts:
/// the inputs' total minus the outputs' total.
///
/// Returns the exact difference.  Fails with [`FeeError::NegativeFee`] when
/// the outputs exceed the inputs (never silently clamps), and with
/// [`FeeError::Overflow`] when the difference does not fit in 64 bits.
pub fn compute_fee(input_amounts: &Vec<u64>, output_amounts: &Vec<u64>) -> (r: Result<
    u64,
    FeeError,
>)
    ensures
        sum(input_amounts@) - sum(output_amounts@) < 0 ==> r == Err::<u64, FeeError>(
            FeeError::NegativeFee,
        ),
        sum(input_amounts@) - sum(output_amounts@) > u64::MAX ==> r == Err::<u64, FeeError>(
            FeeError::Overflow,
        ),
        0 <= sum(input_amounts@) - sum(output_amounts@) <= u64::MAX ==> r == Ok::<u64, FeeError>(
            (sum(input_amounts@) - sum(output_amounts@)) as u64,
        ),
{
    let inputs_total = total_amount(input_amounts);
    let outputs_total = total_amount(output_amounts);
    proof {
        lemma_sum_bound(input_amounts@);
        lemma_sum_bound(output_amounts@);
    }
    if inputs_total < outputs_total {
        Err(FeeError::NegativeFee)
    } else {
        let fee = inputs_total - outputs_total;
        if fee > u64::MAX as u128 {
            Err(FeeError::Overflow)
        } else {
            Ok(fee as u64)
        }
    }
}

/// The rate implied by a fee over a virtual size: `fee / vsize`, carried at
/// millisatoshi precision (so `fee * 1000 / vsize`, truncated).
pub open spec fn spec_rate_millisats(fee: u64, vsize: u64) -> int {
    fee * 1000 / (vsize as int)
}

/// The fee rate of a fully materialized transaction, in millisatoshis per
/// virtual byte.
///
/// The fee is the resolved inputs' total minus the declared outputs' total;
/// the rate is that fee divided by the virtual size, the division being the
/// only rounding step.  Succeeds exactly when the fee is non-negative, the
/// virtual size is positive, and both the fee and the rate fit in 64 bits;
/// each failure names its cause.
pub fn compute_fee_rate(input_amounts: &Vec<u64>, output_amounts: &Vec<u64>, vsize: u64) -> (r:
    Result<u64, FeeError>)
    ensures
        vsize == 0 ==> r == Err::<u64, FeeError>(FeeError::ZeroVirtualSize),
        vsize > 0 && sum(input_amounts@) - sum(output_amounts@) < 0 ==> r == Err::<u64, FeeError>(
            FeeError::NegativeFee,
        ),
        vsize > 0 && sum(input_amounts@) - sum(output_amounts@) > u64::MAX ==> r == Err::<
            u64,
            FeeError,
        >(FeeError::Overflow),
        vsize > 0 && 0 <= sum(input_amounts@) - sum(output_amounts@) <= u64::MAX ==> {
            let fee = (sum(input_amounts@) - sum(output_amounts@)) as u64;
            if spec_rate_millisats(fee, vsize) <= u64::MAX {
                r == Ok::<u64, FeeError>(spec_rate_millisats(fee, vsize) as u64)
            } else {
                r == Err::<u64, FeeError>(FeeError::Overflow)
            }
        },
{
    if vsize == 0 {
        return Err(FeeError::ZeroVirtualSize);
    }
    let fee = match compute_fee(input_amounts, output_amounts) {
        Ok(fee) => fee,
        Err(e) => { return Err(e) },
    };
    let millisats: u128 = (fee as u128) * 1000 / (vsize as u128);
    if millisats > u64::MAX as u128 {
        Err(FeeError::Overflow)
    } else {
        Ok(millisats as u64)
    }
}

} // verus!
