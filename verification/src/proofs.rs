//! Log proof service: turns a proof request into a leaf index inside a
//! batch's ordered log sequence, then packages the Merkle inclusion proof.
//!
//! Two resolution modes exist: by sender and message hash inside a batch,
//! with an optional position to pick among several matches, and by the
//! positions of one transaction's logs with an optional index among them.
//! Absence of the requested data is never an error: resolution returns
//! `None`, since the caller may be polling for not-yet-settled batches.
//! Several matches without a disambiguating position fail with
//! `AmbiguousLog`.

use vstd::prelude::*;

use vstd::arithmetic::power2::pow2;

use crate::merkle::batch_root;
use crate::merkle::climb;
use crate::merkle::leaf_hashes;
use crate::merkle::proof_path;
use crate::merkle::prove_at;
use crate::merkle::MAX_TREE_DEPTH;
use crate::types::Address;
use crate::types::Hash256;
use crate::types::L2ToL1Log;
use crate::types::LogProof;
use crate::types::ProofError;

verus! {

/// Whether a log answers a message-proof request: its sender is the
/// requested sender and its value is the hash of the requested message.
pub open spec fn log_matches(log: L2ToL1Log, sender: Address, msg_hash: Hash256) -> bool {
    log.sender == sender && log.value == msg_hash
}

/// Number of matching logs among the first `upto` entries of the batch's
/// log sequence.
pub open spec fn match_count(
    logs: Seq<L2ToL1Log>,
    sender: Address,
    msg_hash: Hash256,
    upto: int,
) -> nat
    decreases upto,
{
    if upto <= 0 {
        0
    } else {
        match_count(logs, sender, msg_hash, upto - 1) + (if log_matches(
            logs[upto - 1],
            sender,
            msg_hash,
        ) {
            1nat
        } else {
            0nat
        })
    }
}

/// Number of matching logs in the whole batch.
pub open spec fn total_matches(logs: Seq<L2ToL1Log>, sender: Address, msg_hash: Hash256) -> nat {
    match_count(logs, sender, msg_hash, logs.len() as int)
}

/// The match count never exceeds the number of entries counted.
proof fn lemma_match_count_le(logs: Seq<L2ToL1Log>, sender: Address, msg_hash: Hash256, upto: int)
    ensures
        match_count(logs, sender, msg_hash, upto) <= (if upto <= 0 {
            0int
        } else {
            upto
        }),
    decreases (if upto <= 0 { 0int } else { upto }),
{
    if upto > 0 {
        lemma_match_count_le(logs, sender, msg_hash, upto - 1);
    }
}

/// Counting further never loses matches.
proof fn lemma_match_count_mono(
    logs: Seq<L2ToL1Log>,
    sender: Address,
    msg_hash: Hash256,
    a: int,
    b: int,
)
    requires
        a <= b,
    ensures
        match_count(logs, sender, msg_hash, a) <= match_count(logs, sender, msg_hash, b),
    decreases (if b <= 0 { 0int } else { b }),
{
    if b > 0 && a < b {
        lemma_match_count_mono(logs, sender, msg_hash, a, b - 1);
    }
}

/// Resolve a message-proof request inside one batch's ordered log
/// sequence. With a position, the position-th match (0-indexed) is
/// selected, and a position at or beyond the number of matches is
/// absence, not an error. Without a position, exactly one match is
/// required: none is absence, several are ambiguous.
pub fn resolve_log_index(
    logs: &Vec<L2ToL1Log>,
    sender: Address,
    msg_hash: Hash256,
    position: Option<usize>,
) -> (r: Result<Option<usize>, ProofError>)
    ensures
        r matches Ok(o) ==> (o matches Some(i) ==> (i < logs@.len() && log_matches(
            logs@[i as int],
            sender,
            msg_hash,
        ))),
        position matches Some(p) ==> {
            &&& (p as nat) < total_matches(logs@, sender, msg_hash) ==> (r matches Ok(o) && o
                matches Some(i) && match_count(logs@, sender, msg_hash, i as int) == p as nat)
            &&& (p as nat) >= total_matches(logs@, sender, msg_hash) ==> (r matches Ok(o) && o
                is None)
        },
        position is None ==> {
            &&& total_matches(logs@, sender, msg_hash) == 0 ==> (r matches Ok(o) && o is None)
            &&& total_matches(logs@, sender, msg_hash) == 1 ==> (r matches Ok(o) && o matches Some(
                i,
            ) && match_count(logs@, sender, msg_hash, i as int) == 0)
            &&& total_matches(logs@, sender, msg_hash) > 1 ==> (r matches Err(e) && e
                == ProofError::AmbiguousLog)
        },
{
    match position {
        Some(p) => {
            let mut i: usize = 0;
            let mut seen: usize = 0;
            while i < logs.len()
                invariant
                    position == Some(p),
                    i <= logs@.len(),
                    seen == match_count(logs@, sender, msg_hash, i as int),
                    seen <= p,
                decreases logs@.len() - i,
            {
                if logs[i].sender == sender && logs[i].value == msg_hash {
                    if seen == p {
                        proof {
                            lemma_match_count_mono(
                                logs@,
                                sender,
                                msg_hash,
                                i + 1,
                                logs@.len() as int,
                            );
                        }
                        return Ok(Some(i));
                    }
                    seen = seen + 1;
                }
                i = i + 1;
            }
            Ok(None)
        },
        None => {
            let mut i: usize = 0;
            let mut seen: usize = 0;
            let mut first: usize = 0;
            while i < logs.len()
                invariant
                    position is None,
                    i <= logs@.len(),
                    seen == match_count(logs@, sender, msg_hash, i as int),
                    seen > 0 ==> (first < i && log_matches(logs@[first as int], sender, msg_hash)
                        && match_count(logs@, sender, msg_hash, first as int) == 0),
                decreases logs@.len() - i,
            {
                proof {
                    lemma_match_count_le(logs@, sender, msg_hash, i as int);
                }
                if logs[i].sender == sender && logs[i].value == msg_hash {
                    if seen == 0 {
                        first = i;
                    }
                    seen = seen + 1;
                }
                i = i + 1;
            }
            if seen == 0 {
                Ok(None)
            } else if seen == 1 {
                Ok(Some(first))
            } else {
                Err(ProofError::AmbiguousLog)
            }
        },
    }
}

/// What a returned inclusion proof says about the batch: its root is the
/// batch's commitment, its index is the resolved leaf, its path is the
/// sibling path for that leaf, and climbing the path from the leaf's hash
/// recomputes the root.
pub open spec fn is_proof_for(pf: LogProof, logs: Seq<L2ToL1Log>, depth: nat, i: int) -> bool {
    &&& pf.root == batch_root(logs, depth)
    &&& pf.index == i
    &&& pf.path@ == proof_path(leaf_hashes(logs), depth, i as nat)
    &&& pf.path@.len() == depth
    &&& climb(leaf_hashes(logs)[i], i as nat, pf.path@) == pf.root
}

/// Serve a message-proof request against one settled batch: resolve the
/// matching log, then package its inclusion proof. `None` is absence; the
/// error taxonomy is that of `resolve_log_index`.
#[verifier::rlimit(60)]
#[verifier::spinoff_prover]
pub fn msg_log_proof(
    logs: &Vec<L2ToL1Log>,
    depth: u64,
    sender: Address,
    msg_hash: Hash256,
    position: Option<usize>,
) -> (r: Result<Option<LogProof>, ProofError>)
    requires
        depth <= MAX_TREE_DEPTH,
        logs@.len() <= pow2(depth as nat),
    ensures
        r matches Ok(o) ==> (o matches Some(pf) ==> (pf.index < logs@.len() && log_matches(
            logs@[pf.index as int],
            sender,
            msg_hash,
        ) && is_proof_for(pf, logs@, depth as nat, pf.index as int))),
        position matches Some(p) ==> {
            &&& (p as nat) < total_matches(logs@, sender, msg_hash) ==> (r matches Ok(o) && o
                matches Some(pf) && match_count(logs@, sender, msg_hash, pf.index as int)
                == p as nat)
            &&& (p as nat) >= total_matches(logs@, sender, msg_hash) ==> (r matches Ok(o) && o
                is None)
        },
        position is None ==> {
            &&& total_matches(logs@, sender, msg_hash) == 0 ==> (r matches Ok(o) && o is None)
            &&& total_matches(logs@, sender, msg_hash) == 1 ==> (r matches Ok(o) && o matches Some(
                pf,
            ) && match_count(logs@, sender, msg_hash, pf.index as int) == 0)
            &&& total_matches(logs@, sender, msg_hash) > 1 ==> (r matches Err(e) && e
                == ProofError::AmbiguousLog)
        },
{
    let resolved = resolve_log_index(logs, sender, msg_hash, position);
    match resolved {
        Ok(Some(i)) => {
            match prove_at(logs, depth, i) {
                Ok(pf) => {
                    proof {
                        assert(i < logs@.len());
                        assert(pf.index == i);
                        assert(is_proof_for(pf, logs@, depth as nat, i as int));
                    }
                    Ok(Some(pf))
                },
                Err(_) => Err(ProofError::IndexOutOfRange),
            }
        },
        Ok(None) => Ok(None),
        Err(e) => Err(e),
    }
}

/// Select among the logs of one transaction: `positions` holds the global
/// indices, in emission order, of the logs that transaction emitted inside
/// its batch. An explicit index picks the corresponding entry; without
/// one, a single entry selects itself, none is absence, and several are
/// ambiguous.
pub fn select_tx_log(positions: &Vec<usize>, index: Option<usize>) -> (r: Result<
    Option<usize>,
    ProofError,
>)
    ensures
        index matches Some(k) ==> {
            &&& (k as nat) < positions@.len() ==> (r matches Ok(o) && o matches Some(g) && g
                == positions@[k as int])
            &&& (k as nat) >= positions@.len() ==> (r matches Ok(o) && o is None)
        },
        index is None ==> {
            &&& positions@.len() == 0 ==> (r matches Ok(o) && o is None)
            &&& positions@.len() == 1 ==> (r matches Ok(o) && o matches Some(g) && g
                == positions@[0])
            &&& positions@.len() > 1 ==> (r matches Err(e) && e == ProofError::AmbiguousLog)
        },
{
    match index {
        Some(k) => {
            if k < positions.len() {
                Ok(Some(positions[k]))
            } else {
                Ok(None)
            }
        },
        None => {
            if positions.len() == 0 {
                Ok(None)
            } else if positions.len() == 1 {
                Ok(Some(positions[0]))
            } else {
                Err(ProofError::AmbiguousLog)
            }
        },
    }
}

/// Serve a transaction-log proof request: select among the transaction's
/// logs, then package the inclusion proof for the selected global index.
/// A selected index outside the batch's log sequence is a malformed
/// request and fails with `IndexOutOfRange`.
#[verifier::rlimit(60)]
#[verifier::spinoff_prover]
pub fn tx_log_proof(
    logs: &Vec<L2ToL1Log>,
    depth: u64,
    positions: &Vec<usize>,
    index: Option<usize>,
) -> (r: Result<Option<LogProof>, ProofError>)
    requires
        depth <= MAX_TREE_DEPTH,
        logs@.len() <= pow2(depth as nat),
    ensures
        r matches Ok(o) ==> (o matches Some(pf) ==> (pf.index < logs@.len() && is_proof_for(
            pf,
            logs@,
            depth as nat,
            pf.index as int,
        ))),
        index matches Some(k) ==> ((k as nat) < positions@.len() && (positions@[k as int] as nat)
            < logs@.len() ==> (r matches Ok(o) && o matches Some(pf) && is_proof_for(
            pf,
            logs@,
            depth as nat,
            positions@[k as int] as int,
        ))),
        index matches Some(k) ==> ((k as nat) >= positions@.len() ==> (r matches Ok(o) && o
            is None)),
        index is None && positions@.len() == 0 ==> (r matches Ok(o) && o is None),
        index is None && positions@.len() == 1 && (positions@[0] as nat) < logs@.len() ==> (
        r matches Ok(o) && o matches Some(pf) && is_proof_for(
            pf,
            logs@,
            depth as nat,
            positions@[0] as int,
        )),
        index is None && positions@.len() > 1 ==> (r matches Err(e) && e
            == ProofError::AmbiguousLog),
{
    let selected = select_tx_log(positions, index);
    match selected {
        Ok(Some(g)) => {
            match prove_at(logs, depth, g) {
                Ok(pf) => {
                    proof {
                        assert(g < logs@.len());
                        assert(pf.index == g);
                        assert(is_proof_for(pf, logs@, depth as nat, g as int));
                    }
                    Ok(Some(pf))
                },
                Err(e) => Err(e),
            }
        },
        Ok(None) => Ok(None),
        Err(e) => Err(e),
    }
}

} // verus!
