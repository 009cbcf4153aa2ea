//! A mempool race-and-correct engine for a token-deployment protocol.
//!
//! The library watches an unconfirmed-transaction pool, detects token
//! deployment records embedded in transaction payloads, rewrites them to a
//! single-unit issuance policy, and plans a competing broadcast at an
//! escalated fee rate.  It also plans the splitting of oversized wallet
//! outputs so future broadcasts stay fundable without waiting for
//! confirmations.  All node communication is performed by a thin driver
//! outside this crate; every decision and every piece of arithmetic lives
//! here, with a verified contract.
//!
//! - [`fee`]: fees and fee rates from resolved amounts, in integer
//!   millisatoshi precision.
//! - [`protocol`]: the record schema, its grammar, its serialization and
//!   the correction policy.
//! - [`filter`]: which payload record of a transaction, if any, triggers a
//!   correction.
//! - [`race`]: the payload, side file and escalated rate of a racing
//!   broadcast.
//! - [`splitter`]: the destination set and fee of one oversized-output
//!   split.
//! - [`scanner`]: the de-duplication state of the scan loop.
//! - [`sophon`]: the engine's defaults; [`mempool`] and [`teleburn`]: the
//!   two one-shot reports; [`types`] and [`text`]: shared plain values and
//!   byte-string utilities.

pub mod fee;
pub mod filter;
pub mod mempool;
pub mod protocol;
pub mod race;
pub mod scanner;
pub mod sophon;
pub mod splitter;
pub mod teleburn;
pub mod text;
pub mod types;
