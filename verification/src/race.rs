//! Planning the racing broadcast for a corrected record.
//!
//! A detected record is re-broadcast as a new inscription at the original
//! transaction's fee rate escalated by the fixed 3/2 multiplier.  The plan
//! fixes the payload (the corrected record's serialized text), the name of
//! the side file that persists it (`<ticker>.txt`), and the target fee
//! rate; the caller funds, signs and broadcasts it.  Planning fails, and
//! the transaction is only logged, when the escalated rate is not a usable
//! (positive, 64-bit) figure.

use vstd::prelude::*;

use crate::fee::FeeError;
use crate::fee::FeeRate;
use crate::fee::escalate_millisats;
use crate::fee::spec_escalated;
use crate::protocol::Brc20;
use crate::protocol::serialize_record;
use crate::protocol::spec_serialized;

verus! {

/// The bytes of the side file's suffix: `.txt`.
pub open spec fn lit_txt_suffix() -> Seq<u8> {
    seq![0x2Eu8, 0x74, 0x78, 0x74]
}

/// Everything the caller needs to persist and broadcast one correction.
pub struct RaceRequest {
    /// The corrected record, serialized: both the side file's content and
    /// the new inscription's payload.
    pub content: Vec<u8>,
    /// The side file's name: the record's ticker followed by `.txt`.
    pub filename: Vec<u8>,
    /// The escalated fee rate for the new inscription.
    pub fee_rate: FeeRate,
}

/// Plan the racing broadcast of a corrected record, given the original
/// transaction's measured fee rate in millisatoshis per virtual byte.
///
/// The target rate is the original escalated by 3/2.  Planning succeeds
/// exactly when the target is positive and fits in 64 bits; then the
/// request carries the serialized record, the `<ticker>.txt` file name and
/// the target rate.
pub fn plan_race(record: &Brc20, original_rate_millisats: u64) -> (r: Result<RaceRequest, FeeError>)
    ensures
        spec_escalated(original_rate_millisats) > u64::MAX ==> (r matches Err(e) && e
            == FeeError::Overflow),
        spec_escalated(original_rate_millisats) == 0 ==> (r matches Err(e) && e
            == FeeError::ZeroRate),
        0 < spec_escalated(original_rate_millisats) <= u64::MAX ==> (r matches Ok(q) && {
            &&& q.fee_rate.millisats_per_vbyte == spec_escalated(original_rate_millisats)
            &&& q.fee_rate.wf()
            &&& q.content@ == spec_serialized(record@)
            &&& q.filename@ == record@.tick + lit_txt_suffix()
        }),
{
    let target = match escalate_millisats(original_rate_millisats) {
        Ok(t) => t,
        Err(e) => {
            return Err(e);
        },
    };
    let fee_rate = match FeeRate::try_from_millisats(target) {
        Ok(f) => f,
        Err(e) => {
            return Err(e);
        },
    };
    let content = serialize_record(record);
    let mut filename: Vec<u8> = Vec::new();
    let mut i: usize = 0;
    while i < record.tick.len()
        invariant
            0 <= i <= record.tick@.len(),
            filename@ == record.tick@.take(i as int),
        decreases record.tick@.len() - i,
    {
        filename.push(record.tick[i]);
        i = i + 1;
    }
    proof {
        assert(record.tick@.take(record.tick@.len() as int) =~= record.tick@);
    }
    filename.push(0x2E);
    filename.push(0x74);
    filename.push(0x78);
    filename.push(0x74);
    proof {
        assert(filename@ =~= record.tick@ + lit_txt_suffix());
    }
    Ok(RaceRequest { content, filename, fee_rate })
}

} // verus!
