//! Plain data types of the proof core: hashes, addresses, logs, proofs
//! and the error taxonomy. Numeric identifiers are distinct strong types
//! so a block number cannot be passed where a batch number is expected.

use vstd::prelude::*;

verus! {

/// A 256-bit hash value, held as four 64-bit limbs, most significant first.
#[derive(Clone, Copy, PartialEq, Eq, Structural, Debug)]
pub struct Hash256 {
    pub w0: u64,
    pub w1: u64,
    pub w2: u64,
    pub w3: u64,
}

/// An account address, held as 64-bit limbs, most significant first.
#[derive(Clone, Copy, PartialEq, Eq, Structural, Debug)]
pub struct Address {
    pub w0: u64,
    pub w1: u64,
    pub w2: u64,
}

/// Number of a base-layer-settled batch.
#[derive(Clone, Copy, PartialEq, Eq, Structural, Debug)]
pub struct L1BatchNumber {
    pub value: u32,
}

/// Number of a miniblock inside a batch.
#[derive(Clone, Copy, PartialEq, Eq, Structural, Debug)]
pub struct MiniblockNumber {
    pub value: u32,
}

/// One cross-layer log record, immutable once emitted; a batch orders its
/// logs by emission order across all of its miniblocks.
#[derive(Clone, Copy, PartialEq, Eq, Structural, Debug)]
pub struct L2ToL1Log {
    pub shard_id: u8,
    pub is_service: bool,
    pub tx_number_in_block: u16,
    pub sender: Address,
    pub key: Hash256,
    pub value: Hash256,
}

/// A Merkle inclusion proof for one log of a batch: the sibling hash at
/// each level in leaf-to-root order, the committed root, and the leaf index.
#[derive(Clone, PartialEq, Eq, Debug)]
pub struct LogProof {
    pub root: Hash256,
    pub path: Vec<Hash256>,
    pub index: u32,
}

/// Errors of proof construction. Absence of the requested data is not an
/// error: resolution returns `None` for it, since the caller may be polling
/// for not-yet-settled batches.
#[derive(Clone, Copy, PartialEq, Eq, Structural, Debug)]
pub enum ProofError {
    /// A proof was requested for an empty log sequence.
    BatchEmpty,
    /// The requested leaf index is outside the log sequence.
    IndexOutOfRange,
    /// Several logs match and no disambiguating position was given.
    AmbiguousLog,
}

/// Errors of fee estimation.
#[derive(Clone, PartialEq, Eq, Debug)]
pub enum FeeError {
    /// The transaction fails even at the maximum gas bound; carries the
    /// revert reason of the maximum-gas probe verbatim.
    ExecutionReverted(String),
    /// Applying the safety margin or the pubdata overhead overflowed.
    GasOverflow,
}

/// Full fee parameters derived for a transaction request.
#[derive(Clone, Copy, PartialEq, Eq, Structural, Debug)]
pub struct FeeEstimate {
    pub gas_limit: u64,
    pub max_fee_per_gas: u128,
    pub max_priority_fee_per_gas: u128,
    pub gas_per_pubdata: u64,
}

} // verus!
