//! Plain-value identifiers shared across the engine.
//!
//! The node's own identifier types never cross into this crate: a
//! transaction id is carried as its 256 bits, an output reference as an id
//! and an index, so that every decision over them is verified.

use vstd::prelude::*;

verus! {

/// A transaction identifier: 256 bits, as four 64-bit words.
#[derive(Clone, Copy, Debug, PartialEq, Eq, Structural, Hash)]
pub struct Txid {
    /// Words of the identifier, lowest first.
    pub w0: u64,
    /// Second word.
    pub w1: u64,
    /// Third word.
    pub w2: u64,
    /// Highest word.
    pub w3: u64,
}

/// A reference to one output of a prior transaction.
#[derive(Clone, Copy, Debug, PartialEq, Eq, Structural, Hash)]
pub struct OutPoint {
    /// The transaction holding the output.
    pub txid: Txid,
    /// The output's index in that transaction.
    pub vout: u32,
}

/// The identifier of an inscription: the transaction that revealed it and
/// the inscription's index within it.
#[derive(Clone, Copy, Debug, PartialEq, Eq, Structural, Hash)]
pub struct InscriptionId {
    /// The revealing transaction.
    pub txid: Txid,
    /// The index within that transaction.
    pub index: u32,
}

/// A position on a satoshi: an output and an offset into it.
#[derive(Clone, Copy, Debug, PartialEq, Eq, Structural, Hash)]
pub struct SatPoint {
    /// The output holding the satoshi.
    pub outpoint: OutPoint,
    /// The offset within the output.
    pub offset: u64,
}

/// One spendable output of the wallet, read fresh from the node each
/// cycle.
#[derive(Clone, Copy, Debug, PartialEq, Eq, Structural, Hash)]
pub struct SpendableOutput {
    /// The transaction holding the output.
    pub txid: Txid,
    /// The output's index in that transaction.
    pub vout: u32,
    /// The output's amount in satoshis.
    pub amount: u64,
}

} // verus!
