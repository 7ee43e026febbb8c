use zks_core::fee::estimate_fee;
use zks_core::fee::estimate_gas_l1_to_l2;
use zks_core::fee::EstimationConfig;
use zks_core::fee::ThresholdSimulator;
use zks_core::types::FeeError;

fn config() -> EstimationConfig {
    EstimationConfig {
        intrinsic_gas: 21000,
        max_gas_per_tx: 1_000_000,
        tolerance: 1,
        margin_numerator: 6,
        margin_denominator: 5,
    }
}

fn sim(threshold: u64) -> ThresholdSimulator {
    ThresholdSimulator { threshold, reason: String::from("out of gas") }
}

#[test]
fn search_converges_to_exact_threshold() {
    // success iff gas_limit >= 50000; with tolerance 1 the search finds
    // exactly 50000, and the margin scales it by 6/5
    let estimate = estimate_fee(&sim(50_000), config(), 10, 2, 0, 0).unwrap();
    assert_eq!(estimate.gas_limit, 60_000);
    assert_eq!(estimate.max_fee_per_gas, 12);
    assert_eq!(estimate.max_priority_fee_per_gas, 2);
    assert_eq!(estimate.gas_per_pubdata, 0);
}

#[test]
fn estimation_is_idempotent() {
    let first = estimate_fee(&sim(123_456), config(), 7, 3, 10, 4).unwrap();
    let second = estimate_fee(&sim(123_456), config(), 7, 3, 10, 4).unwrap();
    assert_eq!(first, second);
}

#[test]
fn floor_holds_for_trivial_transactions() {
    // a no-op transaction succeeds at any gas limit, yet the estimate
    // never drops below the intrinsic floor
    let estimate = estimate_fee(&sim(0), config(), 1, 1, 0, 0).unwrap();
    assert!(estimate.gas_limit >= 21000);
    assert_eq!(estimate.gas_limit, 21000 * 6 / 5);
}

#[test]
fn reverting_transaction_reports_reason() {
    // failure at every gas level up to the maximum is terminal
    let result = estimate_fee(&sim(2_000_000), config(), 10, 2, 0, 0);
    assert_eq!(result, Err(FeeError::ExecutionReverted(String::from("out of gas"))));
}

#[test]
fn pubdata_overhead_is_added() {
    let estimate = estimate_fee(&sim(50_000), config(), 10, 2, 100, 17).unwrap();
    assert_eq!(estimate.gas_limit, 60_000 + 100 * 17);
    assert_eq!(estimate.gas_per_pubdata, 17);
}

#[test]
fn margin_overflow_fails_closed() {
    let cfg = EstimationConfig {
        intrinsic_gas: u64::MAX,
        max_gas_per_tx: u64::MAX,
        tolerance: 1,
        margin_numerator: 2,
        margin_denominator: 1,
    };
    let result = estimate_fee(&sim(0), cfg, 10, 2, 0, 0);
    assert_eq!(result, Err(FeeError::GasOverflow));
}

#[test]
fn pubdata_overflow_fails_closed() {
    let result = estimate_fee(&sim(0), config(), 10, 2, u64::MAX, u64::MAX);
    assert_eq!(result, Err(FeeError::GasOverflow));
}

#[test]
fn fee_cap_overflow_fails_closed() {
    let result = estimate_fee(&sim(0), config(), u128::MAX, 1, 0, 0);
    assert_eq!(result, Err(FeeError::GasOverflow));
}

#[test]
fn l1_to_l2_uses_its_own_floor_and_no_pubdata() {
    let cfg = EstimationConfig {
        intrinsic_gas: 40_000,
        max_gas_per_tx: 1_000_000,
        tolerance: 1,
        margin_numerator: 6,
        margin_denominator: 5,
    };
    // threshold below the floor: the floor itself is the minimal gas
    assert_eq!(estimate_gas_l1_to_l2(&sim(0), cfg).unwrap(), 48_000);
    // threshold above the floor: the search finds it exactly
    assert_eq!(estimate_gas_l1_to_l2(&sim(100_000), cfg).unwrap(), 120_000);
    // a reverting call is terminal with the probe's reason
    assert_eq!(
        estimate_gas_l1_to_l2(&sim(2_000_000), cfg),
        Err(FeeError::ExecutionReverted(String::from("out of gas")))
    );
}

#[test]
fn wellformedness_check_matches_fields() {
    assert!(config().is_well_formed());
    let bad = EstimationConfig { tolerance: 0, ..config() };
    assert!(!bad.is_well_formed());
    let shrinking = EstimationConfig { margin_numerator: 4, ..config() };
    assert!(!shrinking.is_well_formed());
}
