//! The race-and-correct engine's defaults and its report.
//!
//! The engine cycles forever: one splitting pass over the wallet
//! ([`crate::splitter`]), then one scan pass over the pending list
//! ([`crate::scanner`], [`crate::filter`], [`crate::fee`],
//! [`crate::race`]), then a fixed pause.  The driver performing the node
//! calls sits outside this crate; these are the defaults it starts from.

use vstd::prelude::*;

verus! {

/// The default size threshold above which a wallet output is split, in
/// satoshis.
pub const DEFAULT_SPLIT_THRESHOLD: u64 = 50000;

/// The default fee rate for splitting transactions, in millisatoshis per
/// virtual byte (100 satoshis per virtual byte).
pub const DEFAULT_SPLIT_RATE_MILLISATS: u64 = 100000;

/// The pause between scan cycles, in seconds.
pub const POLL_INTERVAL_SECS: u64 = 10;

/// The engine's report: it runs until externally stopped and reports
/// nothing.
#[derive(Clone, Copy, Debug, PartialEq, Eq, Structural)]
pub struct Output {}

} // verus!
