//! The payload protocol filter.
//!
//! A transaction's extracted payload records are inspected in order.  A
//! record qualifies when it declares the content type
//! `text/plain;charset=utf-8` (the one comparison made
//! case-insensitively), carries a body that parses as a protocol record
//! bearing the `brc-20` marker, and that record triggers the correction
//! policy (a deployment whose maximum supply is not `1`).  The body is
//! parsed as it stands: the marker, operation, ticker and figures are
//! matched and preserved byte-for-byte.  The first qualifying record wins
//! and is returned corrected; later records are not inspected.  A record
//! that fails any step is skipped without failing the transaction.

use vstd::prelude::*;

use crate::protocol::Brc20;
use crate::protocol::SpecRecord;
use crate::protocol::corrected;
use crate::protocol::has_marker;
use crate::protocol::lit_marker;
use crate::protocol::needs_correction;
use crate::protocol::parse_record;
use crate::protocol::spec_corrected;
use crate::protocol::spec_needs_correction;
use crate::protocol::spec_parse_record;
use crate::text::bytes_eq;
use crate::text::lower_bytes;
use crate::text::to_ascii_lowercase;

verus! {

/// One payload record extracted from a transaction: an optional declared
/// content type and an optional body, both raw bytes.
pub struct PayloadRecord {
    /// The declared content type, if any.
    pub content_type: Option<Vec<u8>>,
    /// The payload body, if any.
    pub body: Option<Vec<u8>>,
}

/// The bytes of the one content type the filter accepts:
/// `text/plain;charset=utf-8`.
pub open spec fn lit_text_plain() -> Seq<u8> {
    seq![
        0x74u8,
        0x65,
        0x78,
        0x74,
        0x2F,
        0x70,
        0x6C,
        0x61,
        0x69,
        0x6E,
        0x3B,
        0x63,
        0x68,
        0x61,
        0x72,
        0x73,
        0x65,
        0x74,
        0x3D,
        0x75,
        0x74,
        0x66,
        0x2D,
        0x38,
    ]
}

/// The accepted content type as a byte string.
pub fn text_plain_bytes() -> (v: Vec<u8>)
    ensures
        v@ == lit_text_plain(),
{
    let mut v: Vec<u8> = Vec::new();
    v.push(0x74);
    v.push(0x65);
    v.push(0x78);
    v.push(0x74);
    v.push(0x2F);
    v.push(0x70);
    v.push(0x6C);
    v.push(0x61);
    v.push(0x69);
    v.push(0x6E);
    v.push(0x3B);
    v.push(0x63);
    v.push(0x68);
    v.push(0x61);
    v.push(0x72);
    v.push(0x73);
    v.push(0x65);
    v.push(0x74);
    v.push(0x3D);
    v.push(0x75);
    v.push(0x74);
    v.push(0x66);
    v.push(0x2D);
    v.push(0x38);
    proof {
        assert(v@ =~= lit_text_plain());
    }
    v
}

/// What one payload record yields: the corrected record, when the record
/// declares the accepted content type, its body parses as a
/// marker-bearing protocol record, and that record triggers the correction
/// policy; nothing otherwise.
pub open spec fn spec_record_match(r: PayloadRecord) -> Option<SpecRecord> {
    if r.content_type is Some && lower_bytes((r.content_type->Some_0)@) == lit_text_plain()
        && r.body is Some {
        match spec_parse_record((r.body->Some_0)@) {
            Some(rec) => if rec.p == lit_marker() && spec_needs_correction(rec) {
                Some(spec_corrected(rec))
            } else {
                None
            },
            None => None,
        }
    } else {
        None
    }
}

/// What the records from position `i` on yield: the first match wins.
pub open spec fn spec_inspect_from(rs: Seq<PayloadRecord>, i: int) -> Option<SpecRecord>
    decreases rs.len() - i,
{
    if i < 0 || i >= rs.len() {
        None
    } else {
        match spec_record_match(rs[i]) {
            Some(c) => Some(c),
            None => spec_inspect_from(rs, i + 1),
        }
    }
}

/// What a transaction's payload records yield.
pub open spec fn spec_inspect(rs: Seq<PayloadRecord>) -> Option<SpecRecord> {
    spec_inspect_from(rs, 0)
}

/// Inspect a transaction's payload records and return the corrected
/// record of the first one that qualifies, or nothing when none does
/// ([`spec_inspect`]).
pub fn inspect(records: &Vec<PayloadRecord>) -> (r: Option<Brc20>)
    ensures
        match r {
            Some(rec) => spec_inspect(records@) == Some(rec@),
            None => spec_inspect(records@) is None,
        },
{
    let mut i: usize = 0;
    while i < records.len()
        invariant
            0 <= i <= records@.len(),
            spec_inspect_from(records@, 0) == spec_inspect_from(records@, i as int),
        decreases records@.len() - i,
    {
        let rec = &records[i];
        let mut matched: Option<Brc20> = None;
        if let Some(ct) = &rec.content_type {
            let lct = to_ascii_lowercase(ct);
            let tp = text_plain_bytes();
            if bytes_eq(&lct, &tp) {
                if let Some(body) = &rec.body {
                    if let Some(parsed) = parse_record(body) {
                        if has_marker(&parsed) && needs_correction(&parsed) {
                            matched = Some(corrected(parsed));
                        }
                    }
                }
            }
        }
        match matched {
            Some(c) => {
                proof {
                    assert(spec_record_match(records@[i as int]) == Some(c@));
                }
                return Some(c);
            },
            None => {
                proof {
                    assert(spec_record_match(records@[i as int]) is None);
                }
            },
        }
        i = i + 1;
    }
    None
}

/// The filter is a pure function of the payload records: inspecting the
/// same records a second time yields the same outcome as the first
/// inspection.
pub proof fn lemma_inspect_idempotent(first: Seq<PayloadRecord>, second: Seq<PayloadRecord>)
    requires
        first == second,
    ensures
        spec_inspect(first) == spec_inspect(second),
{
}

} // verus!
