//! Fee and gas estimation.
//!
//! The estimator drives an injected execution simulator: it probes the
//! protocol maximum first (failing the whole request with the probe's
//! revert reason when even that fails), binary-searches the minimal
//! viable gas limit down to a convergence tolerance, applies a
//! deterministic safety margin, adds the layer-1 pubdata publishing
//! overhead, and derives the fee caps from the gas-price oracle's
//! signals. All quantities are unsigned integers; overflow fails closed
//! with `GasOverflow` instead of wrapping. Every step is a pure function
//! of the simulator's behaviour and the inputs, so estimating twice over
//! the same state gives the same answer.

use vstd::prelude::*;

use vstd::arithmetic::div_mod::lemma_div_is_ordered;
use vstd::arithmetic::div_mod::lemma_div_multiples_vanish;
use vstd::arithmetic::mul::lemma_mul_inequality;
use vstd::arithmetic::mul::lemma_mul_is_commutative;

use crate::types::FeeError;
use crate::types::FeeEstimate;

verus! {

/// Outcome of one simulation probe against a fixed state snapshot.
#[derive(Clone, Debug)]
pub struct SimulationOutcome {
    pub success: bool,
    pub gas_used: u64,
    pub revert_reason: Option<String>,
}

/// Execution simulator adapter: the external collaborator that executes a
/// transaction request against a fixed state snapshot under a gas limit.
/// An implementor describes its behaviour with the three spec functions
/// and promises that `simulate` reports exactly that behaviour; the
/// estimator is verified against any such implementation. The adapter
/// must be deterministic for a fixed state snapshot and input.
pub trait Simulator {
    /// Whether execution succeeds under `gas_limit`. The default calls
    /// every probe successful; a verified implementor overrides it with
    /// its real behaviour.
    open spec fn succeeds(&self, gas_limit: u64) -> bool {
        true
    }

    /// Gas consumed by the probe under `gas_limit`.
    open spec fn spec_gas_used(&self, gas_limit: u64) -> u64 {
        gas_limit
    }

    /// Revert reason reported when the probe fails under `gas_limit`.
    open spec fn spec_revert_reason(&self, gas_limit: u64) -> Seq<char> {
        Seq::<char>::empty()
    }

    /// Execute the transaction against the snapshot with `gas_limit`.
    fn simulate(&self, gas_limit: u64) -> (r: SimulationOutcome)
        ensures
            r.success == self.succeeds(gas_limit),
            r.gas_used == self.spec_gas_used(gas_limit),
            !r.success ==> (r.revert_reason matches Some(s) && s@ == self.spec_revert_reason(
                gas_limit,
            )),
    ;
}

/// Static parameters of the estimation policy.
#[derive(Clone, Copy, PartialEq, Eq, Structural, Debug)]
pub struct EstimationConfig {
    /// Intrinsic cost floor: the gas any transaction consumes regardless
    /// of its logic.
    pub intrinsic_gas: u64,
    /// Protocol-configured maximum gas for one transaction.
    pub max_gas_per_tx: u64,
    /// Absolute interval width at which the binary search stops; keeping
    /// it above zero bounds the number of probes.
    pub tolerance: u64,
    /// Safety margin applied to the found minimal gas, as the ratio
    /// numerator / denominator, at least one.
    pub margin_numerator: u64,
    /// Denominator of the safety margin.
    pub margin_denominator: u64,
}

impl EstimationConfig {
    /// A sound configuration: the floor below the ceiling, a positive
    /// convergence tolerance, and a margin of at least one.
    pub open spec fn wf(self) -> bool {
        &&& self.intrinsic_gas <= self.max_gas_per_tx
        &&& self.tolerance >= 1
        &&& self.margin_denominator >= 1
        &&& self.margin_numerator >= self.margin_denominator
    }

    /// Runtime check of `wf`, for callers outside verified code.
    pub fn is_well_formed(&self) -> (b: bool)
        ensures
            b == self.wf(),
    {
        self.intrinsic_gas <= self.max_gas_per_tx && self.tolerance >= 1
            && self.margin_denominator >= 1 && self.margin_numerator >= self.margin_denominator
    }
}

/// The gas limit the bounded binary search settles on between the bounds
/// `lo` and `hi`: the interval is halved on the simulator's verdict until
/// it is no wider than `tol`, and the upper end is returned.
pub open spec fn spec_search<S: Simulator>(sim: &S, lo: u64, hi: u64, tol: u64) -> u64
    decreases hi as int - lo as int,
{
    if tol == 0 || hi as int - lo as int <= tol as int {
        hi
    } else {
        let mid = (lo as int + ((hi as int - lo as int) / 2)) as u64;
        if sim.succeeds(mid) {
            spec_search(sim, lo, mid, tol)
        } else {
            spec_search(sim, mid, hi, tol)
        }
    }
}

/// Minimal viable gas limit the estimator settles on: the intrinsic floor
/// itself when it already succeeds, else the result of the search between
/// the floor and the maximum.
pub open spec fn spec_min_gas<S: Simulator>(sim: &S, cfg: EstimationConfig) -> u64 {
    if sim.succeeds(cfg.intrinsic_gas) {
        cfg.intrinsic_gas
    } else {
        spec_search(sim, cfg.intrinsic_gas, cfg.max_gas_per_tx, cfg.tolerance)
    }
}

/// Gas after the safety margin, as an unbounded integer.
pub open spec fn spec_scaled_gas(gas: u64, cfg: EstimationConfig) -> int {
    (gas as int) * (cfg.margin_numerator as int) / (cfg.margin_denominator as int)
}

/// Final gas limit of a fee estimate: minimal viable gas scaled by the
/// margin, plus the layer-1 pubdata publishing overhead.
pub open spec fn spec_total_gas<S: Simulator>(
    sim: &S,
    cfg: EstimationConfig,
    pubdata_bytes: u64,
    gas_per_pubdata: u64,
) -> int {
    spec_scaled_gas(spec_min_gas(sim, cfg), cfg) + pubdata_bytes * gas_per_pubdata
}

/// A simulator is monotone on a range when more gas never turns success
/// into failure.
pub open spec fn monotone_on<S: Simulator>(sim: &S, lo: u64, hi: u64) -> bool {
    forall|a: u64, b: u64|
        #![trigger sim.succeeds(a), sim.succeeds(b)]
        lo <= a && a <= b && b <= hi && sim.succeeds(a) ==> sim.succeeds(b)
}

/// The search stays within its bounds, and settles on a succeeding limit
/// whenever the upper bound succeeds.
proof fn lemma_search_bounds<S: Simulator>(sim: &S, lo: u64, hi: u64, tol: u64)
    requires
        lo <= hi,
        tol >= 1,
        sim.succeeds(hi),
    ensures
        lo <= spec_search(sim, lo, hi, tol),
        spec_search(sim, lo, hi, tol) <= hi,
        sim.succeeds(spec_search(sim, lo, hi, tol)),
    decreases hi as int - lo as int,
{
    if hi as int - lo as int <= tol as int {
    } else {
        let mid = (lo as int + ((hi as int - lo as int) / 2)) as u64;
        if sim.succeeds(mid) {
            lemma_search_bounds(sim, lo, mid, tol);
        } else {
            lemma_search_bounds(sim, mid, hi, tol);
        }
    }
}

/// Search convergence: with a monotone simulator, a failing lower bound
/// and a succeeding upper bound, the search lands at most the tolerance
/// above every viable gas limit in the range.
proof fn lemma_search_minimal<S: Simulator>(sim: &S, lo: u64, hi: u64, tol: u64)
    requires
        lo <= hi,
        tol >= 1,
        !sim.succeeds(lo),
        sim.succeeds(hi),
        monotone_on(sim, lo, hi),
    ensures
        forall|k: u64|
            lo <= k <= hi && #[trigger] sim.succeeds(k) ==> spec_search(sim, lo, hi, tol) as int
                <= k as int + tol as int,
    decreases hi as int - lo as int,
{
    let res = spec_search(sim, lo, hi, tol);
    if hi as int - lo as int <= tol as int {
        assert forall|k: u64| lo <= k <= hi && #[trigger] sim.succeeds(k) implies res as int
            <= k as int + tol as int by {
            assert(k != lo);
        }
    } else {
        let mid = (lo as int + ((hi as int - lo as int) / 2)) as u64;
        if sim.succeeds(mid) {
            lemma_search_minimal(sim, lo, mid, tol);
            lemma_search_bounds(sim, lo, mid, tol);
            assert forall|k: u64| lo <= k <= hi && #[trigger] sim.succeeds(k) implies res as int
                <= k as int + tol as int by {
                if k > mid {
                    assert(res <= mid);
                }
            }
        } else {
            lemma_search_minimal(sim, mid, hi, tol);
            assert forall|k: u64| lo <= k <= hi && #[trigger] sim.succeeds(k) implies res as int
                <= k as int + tol as int by {
                if k < mid {
                    assert(sim.succeeds(mid));
                }
            }
        }
    }
}

/// Convergence law of the estimator's minimal gas: whenever the maximum
/// succeeds and the simulator is monotone on the search range, the
/// settled minimal gas itself succeeds and lies at most the tolerance
/// above every viable gas limit in the range.
pub proof fn lemma_min_gas_converges<S: Simulator>(sim: &S, cfg: EstimationConfig)
    requires
        cfg.wf(),
        sim.succeeds(cfg.max_gas_per_tx),
        monotone_on(sim, cfg.intrinsic_gas, cfg.max_gas_per_tx),
    ensures
        sim.succeeds(spec_min_gas(sim, cfg)),
        cfg.intrinsic_gas <= spec_min_gas(sim, cfg) <= cfg.max_gas_per_tx,
        forall|k: u64|
            cfg.intrinsic_gas <= k <= cfg.max_gas_per_tx && #[trigger] sim.succeeds(k)
                ==> spec_min_gas(sim, cfg) as int <= k as int + cfg.tolerance as int,
{
    if sim.succeeds(cfg.intrinsic_gas) {
    } else {
        lemma_search_bounds(sim, cfg.intrinsic_gas, cfg.max_gas_per_tx, cfg.tolerance);
        lemma_search_minimal(sim, cfg.intrinsic_gas, cfg.max_gas_per_tx, cfg.tolerance);
    }
}

/// The safety margin never shrinks the gas it scales.
proof fn lemma_margin_at_least(gas: u64, cfg: EstimationConfig)
    requires
        cfg.margin_denominator >= 1,
        cfg.margin_numerator >= cfg.margin_denominator,
    ensures
        spec_scaled_gas(gas, cfg) >= gas,
{
    lemma_mul_inequality(
        cfg.margin_denominator as int,
        cfg.margin_numerator as int,
        gas as int,
    );
    lemma_mul_is_commutative(cfg.margin_denominator as int, gas as int);
    lemma_mul_is_commutative(cfg.margin_numerator as int, gas as int);
    lemma_div_is_ordered(
        gas as int * cfg.margin_denominator as int,
        gas as int * cfg.margin_numerator as int,
        cfg.margin_denominator as int,
    );
    lemma_div_multiples_vanish(gas as int, cfg.margin_denominator as int);
}

/// Bounded binary search for the minimal viable gas limit. Each step
/// halves the interval, so the number of probes is bounded by the bit
/// width of the gas type, independent of wall-clock time.
fn search_gas<S: Simulator>(sim: &S, lo: u64, hi: u64, tol: u64) -> (g: u64)
    requires
        lo <= hi,
        tol >= 1,
    ensures
        g == spec_search(sim, lo, hi, tol),
    decreases hi - lo,
{
    if hi - lo <= tol {
        hi
    } else {
        let mid = lo + (hi - lo) / 2;
        let probe = sim.simulate(mid);
        if probe.success {
            search_gas(sim, lo, mid, tol)
        } else {
            search_gas(sim, mid, hi, tol)
        }
    }
}

/// Apply the deterministic safety margin; a result past the gas type
/// fails closed instead of wrapping.
pub fn apply_margin(gas: u64, cfg: EstimationConfig) -> (r: Result<u64, FeeError>)
    requires
        cfg.margin_denominator >= 1,
    ensures
        spec_scaled_gas(gas, cfg) <= u64::MAX ==> (r matches Ok(g) && g == spec_scaled_gas(
            gas,
            cfg,
        )),
        spec_scaled_gas(gas, cfg) > u64::MAX ==> (r matches Err(e) && e == FeeError::GasOverflow),
{
    proof {
        assert((gas as u128) * (cfg.margin_numerator as u128) <= (u64::MAX as u128) * (
        u64::MAX as u128)) by (nonlinear_arith)
            requires
                gas as u128 <= u64::MAX as u128,
                cfg.margin_numerator as u128 <= u64::MAX as u128,
        ;
    }
    let wide: u128 = (gas as u128) * (cfg.margin_numerator as u128);
    let scaled: u128 = wide / (cfg.margin_denominator as u128);
    if scaled > (u64::MAX as u128) {
        Err(FeeError::GasOverflow)
    } else {
        Ok(scaled as u64)
    }
}

/// Estimate full fee parameters for a transaction request. The probe at
/// the maximum decides success: a transaction that fails even there is
/// terminal, with its revert reason passed through verbatim. On success
/// the returned gas limit is the minimal viable gas, scaled by the safety
/// margin and increased by the pubdata overhead, and the fee caps come
/// from the oracle's price signals, not from simulation.
pub fn estimate_fee<S: Simulator>(
    sim: &S,
    cfg: EstimationConfig,
    base_fee_per_gas: u128,
    priority_fee_per_gas: u128,
    pubdata_bytes: u64,
    gas_per_pubdata: u64,
) -> (r: Result<FeeEstimate, FeeError>)
    requires
        cfg.wf(),
    ensures
        !sim.succeeds(cfg.max_gas_per_tx) ==> (r matches Err(e) && e matches
            FeeError::ExecutionReverted(s) && s@ == sim.spec_revert_reason(cfg.max_gas_per_tx)),
        sim.succeeds(cfg.max_gas_per_tx) && spec_total_gas(sim, cfg, pubdata_bytes, gas_per_pubdata)
            <= u64::MAX && base_fee_per_gas as int + priority_fee_per_gas as int <= u128::MAX ==> (
        r matches Ok(f) && f.gas_limit == spec_total_gas(sim, cfg, pubdata_bytes, gas_per_pubdata)
            && f.max_fee_per_gas == base_fee_per_gas as int + priority_fee_per_gas as int
            && f.max_priority_fee_per_gas == priority_fee_per_gas && f.gas_per_pubdata
            == gas_per_pubdata),
        sim.succeeds(cfg.max_gas_per_tx) && (spec_total_gas(sim, cfg, pubdata_bytes, gas_per_pubdata)
            > u64::MAX || base_fee_per_gas as int + priority_fee_per_gas as int > u128::MAX) ==> (
        r matches Err(e) && e == FeeError::GasOverflow),
        r matches Ok(f) ==> f.gas_limit >= cfg.intrinsic_gas,
        sim.succeeds(cfg.max_gas_per_tx) ==> sim.succeeds(spec_min_gas(sim, cfg)),
{
    let top = sim.simulate(cfg.max_gas_per_tx);
    if !top.success {
        let reason = match top.revert_reason {
            Some(s) => s,
            None => String::new(),
        };
        return Err(FeeError::ExecutionReverted(reason));
    }
    let floor_probe = sim.simulate(cfg.intrinsic_gas);
    let base_gas = if floor_probe.success {
        cfg.intrinsic_gas
    } else {
        search_gas(sim, cfg.intrinsic_gas, cfg.max_gas_per_tx, cfg.tolerance)
    };
    proof {
        if !sim.succeeds(cfg.intrinsic_gas) {
            lemma_search_bounds(sim, cfg.intrinsic_gas, cfg.max_gas_per_tx, cfg.tolerance);
        }
        lemma_margin_at_least(base_gas, cfg);
    }
    let scaled = match apply_margin(base_gas, cfg) {
        Ok(g) => g,
        Err(e) => {
            return Err(e);
        },
    };
    proof {
        assert((pubdata_bytes as u128) * (gas_per_pubdata as u128) <= (u64::MAX as u128) * (
        u64::MAX as u128)) by (nonlinear_arith)
            requires
                pubdata_bytes as u128 <= u64::MAX as u128,
                gas_per_pubdata as u128 <= u64::MAX as u128,
        ;
    }
    let pub_cost: u128 = (pubdata_bytes as u128) * (gas_per_pubdata as u128);
    let total: u128 = (scaled as u128) + pub_cost;
    if total > (u64::MAX as u128) {
        return Err(FeeError::GasOverflow);
    }
    let gas_limit: u64 = total as u64;
    if base_fee_per_gas > u128::MAX - priority_fee_per_gas {
        return Err(FeeError::GasOverflow);
    }
    let max_fee = base_fee_per_gas + priority_fee_per_gas;
    Ok(
        FeeEstimate {
            gas_limit,
            max_fee_per_gas: max_fee,
            max_priority_fee_per_gas: priority_fee_per_gas,
            gas_per_pubdata,
        },
    )
}

/// Estimate the gas limit for a transaction originated on the base
/// layer: the same bounded search against the layer-1 simulation mode,
/// with its own intrinsic floor and no pubdata overhead, since such
/// transactions pay for their data on the base layer already.
pub fn estimate_gas_l1_to_l2<S: Simulator>(sim: &S, cfg: EstimationConfig) -> (r: Result<
    u64,
    FeeError,
>)
    requires
        cfg.wf(),
    ensures
        !sim.succeeds(cfg.max_gas_per_tx) ==> (r matches Err(e) && e matches
            FeeError::ExecutionReverted(s) && s@ == sim.spec_revert_reason(cfg.max_gas_per_tx)),
        sim.succeeds(cfg.max_gas_per_tx) && spec_scaled_gas(spec_min_gas(sim, cfg), cfg)
            <= u64::MAX ==> (r matches Ok(g) && g == spec_scaled_gas(spec_min_gas(sim, cfg), cfg)),
        sim.succeeds(cfg.max_gas_per_tx) && spec_scaled_gas(spec_min_gas(sim, cfg), cfg)
            > u64::MAX ==> (r matches Err(e) && e == FeeError::GasOverflow),
        r matches Ok(g) ==> g >= cfg.intrinsic_gas,
        sim.succeeds(cfg.max_gas_per_tx) ==> sim.succeeds(spec_min_gas(sim, cfg)),
{
    let top = sim.simulate(cfg.max_gas_per_tx);
    if !top.success {
        let reason = match top.revert_reason {
            Some(s) => s,
            None => String::new(),
        };
        return Err(FeeError::ExecutionReverted(reason));
    }
    let floor_probe = sim.simulate(cfg.intrinsic_gas);
    let base_gas = if floor_probe.success {
        cfg.intrinsic_gas
    } else {
        search_gas(sim, cfg.intrinsic_gas, cfg.max_gas_per_tx, cfg.tolerance)
    };
    proof {
        if !sim.succeeds(cfg.intrinsic_gas) {
            lemma_search_bounds(sim, cfg.intrinsic_gas, cfg.max_gas_per_tx, cfg.tolerance);
        }
        lemma_margin_at_least(base_gas, cfg);
    }
    apply_margin(base_gas, cfg)
}

/// A simulator modelled directly by a success threshold: execution
/// succeeds exactly when the gas limit reaches the threshold, consumes
/// the threshold, and reports the held reason on failure. It makes the
/// estimator's behaviour reproducible against a known minimal gas.
pub struct ThresholdSimulator {
    pub threshold: u64,
    pub reason: String,
}

impl Simulator for ThresholdSimulator {
    open spec fn succeeds(&self, gas_limit: u64) -> bool {
        gas_limit >= self.threshold
    }

    open spec fn spec_gas_used(&self, gas_limit: u64) -> u64 {
        if gas_limit >= self.threshold {
            self.threshold
        } else {
            gas_limit
        }
    }

    open spec fn spec_revert_reason(&self, gas_limit: u64) -> Seq<char> {
        self.reason@
    }

    fn simulate(&self, gas_limit: u64) -> (r: SimulationOutcome)
        ensures
            r.success == self.succeeds(gas_limit),
            r.gas_used == self.spec_gas_used(gas_limit),
            !r.success ==> (r.revert_reason matches Some(s) && s@ == self.spec_revert_reason(
                gas_limit,
            )),
    {
        if gas_limit >= self.threshold {
            SimulationOutcome { success: true, gas_used: self.threshold, revert_reason: None }
        } else {
            SimulationOutcome {
                success: false,
                gas_used: gas_limit,
                revert_reason: Some(self.reason.clone()),
            }
        }
    }
}

} // verus!
