use dvc_zktls::error::{ZkErrorCode, ZktlsError};
use dvc_zktls::predicate::{evaluate, value_amount, Predicate};

const WHOLE: u128 = 1_000_000_000_000_000_000;

fn strings(v: &[&str]) -> Vec<String> {
    v.iter().map(|s| s.to_string()).collect()
}

fn eth_check() -> Predicate {
    Predicate::ThresholdSum { symbol: "ETH".to_string(), threshold: WHOLE / 10 }
}

fn btc_check() -> Predicate {
    Predicate::MatchThreshold { code: "BTC".to_string(), threshold: WHOLE / 100_000 }
}

#[test]
fn threshold_sum_exceeds_threshold() {
    let vals = strings(&["\"ETH\"", "\"BTC\"", "\"0.05\"", "\"1\"", "\"0.06\"", "\"2\""]);
    assert_eq!(evaluate(&vals, &eth_check()), Ok(()));
}

#[test]
fn threshold_sum_below_threshold() {
    let vals = strings(&["\"ETH\"", "\"0.01\"", "\"0.02\""]);
    assert_eq!(evaluate(&vals, &eth_check()), Err(ZkErrorCode::Unsatisfied));
}

#[test]
fn threshold_sum_symbol_ignores_case() {
    let vals = strings(&["\"btc\"", "\"eth\"", "\"0\"", "\"0.2\"", "\"0\"", "\"0\""]);
    assert_eq!(evaluate(&vals, &eth_check()), Ok(()));
}

#[test]
fn threshold_sum_without_matching_row() {
    let vals = strings(&["\"BTC\"", "\"5\"", "\"5\""]);
    assert_eq!(evaluate(&vals, &eth_check()), Err(ZkErrorCode::Unsatisfied));
}

#[test]
fn threshold_sum_equal_to_threshold_fails() {
    let vals = strings(&["\"ETH\"", "\"0.04\"", "\"0.06\""]);
    assert_eq!(evaluate(&vals, &eth_check()), Err(ZkErrorCode::Unsatisfied));
}

#[test]
fn threshold_sum_unparsable_amount_counts_as_zero() {
    let vals = strings(&["\"ETH\"", "\"abc\"", "\"0.2\""]);
    assert_eq!(evaluate(&vals, &eth_check()), Ok(()));
    let vals = strings(&["\"ETH\"", "\"abc\"", "\"0.05\""]);
    assert_eq!(evaluate(&vals, &eth_check()), Err(ZkErrorCode::Unsatisfied));
}

#[test]
fn match_threshold_matches_ignoring_case() {
    let vals = strings(&["\"btc\"", "\"0.00002\""]);
    assert_eq!(evaluate(&vals, &btc_check()), Ok(()));
}

#[test]
fn match_threshold_wrong_code() {
    let vals = strings(&["\"eth\"", "\"0.00002\""]);
    assert_eq!(evaluate(&vals, &btc_check()), Err(ZkErrorCode::NotMatch));
    let vals = strings(&["\"eth\"", "\"0\""]);
    assert_eq!(evaluate(&vals, &btc_check()), Err(ZkErrorCode::NotMatch));
}

#[test]
fn match_threshold_too_small() {
    let vals = strings(&["\"BTC\"", "\"0.00001\""]);
    assert_eq!(evaluate(&vals, &btc_check()), Err(ZkErrorCode::Unsatisfied));
}

#[test]
fn match_threshold_without_values() {
    let vals = strings(&["\"BTC\""]);
    assert_eq!(evaluate(&vals, &btc_check()), Err(ZkErrorCode::InvalidJsonValueSize));
}

const WHOLE_I: i128 = 1_000_000_000_000_000_000;
const BOUND: i128 = 10_000_000_000_000_000_000 * WHOLE_I;

fn amount(t: &str) -> Option<i128> {
    value_amount(&t.to_string())
}

#[test]
fn amounts_are_exact_decimals() {
    assert_eq!(amount("\"0.05\""), Some(WHOLE_I / 20));
    assert_eq!(amount("1"), Some(WHOLE_I));
    assert_eq!(amount("12.5"), Some(12 * WHOLE_I + WHOLE_I / 2));
    assert_eq!(amount(".5"), Some(WHOLE_I / 2));
    assert_eq!(amount("3."), Some(3 * WHOLE_I));
    assert_eq!(amount("0.0000000000000000019"), Some(1));
}

#[test]
fn amounts_carry_sign_and_exponent() {
    assert_eq!(amount("-1"), Some(-WHOLE_I));
    assert_eq!(amount("+2"), Some(2 * WHOLE_I));
    assert_eq!(amount("1e-1"), Some(WHOLE_I / 10));
    assert_eq!(amount("-2.5E+2"), Some(-250 * WHOLE_I));
    assert_eq!(amount("5e-30"), Some(0));
    assert_eq!(amount("1e300"), Some(BOUND));
    assert_eq!(amount("1e99999999999999999999999999999999999999999"), Some(BOUND));
    assert_eq!(amount("0e99999"), Some(0));
}

#[test]
fn infinities_and_nan() {
    assert_eq!(amount("inf"), Some(BOUND));
    assert_eq!(amount("-Infinity"), Some(-BOUND));
    assert_eq!(amount("NaN"), None);
    assert_eq!(amount("-nan"), None);
}

#[test]
fn amounts_that_are_no_number_are_zero() {
    assert_eq!(amount(""), Some(0));
    assert_eq!(amount("."), Some(0));
    assert_eq!(amount("1.2.3"), Some(0));
    assert_eq!(amount("1e"), Some(0));
    assert_eq!(amount("e5"), Some(0));
    assert_eq!(amount("--1"), Some(0));
    assert_eq!(amount("abc"), Some(0));
}

#[test]
fn threshold_sum_adds_signed_amounts() {
    let vals = strings(&["\"ETH\"", "\"-1\"", "\"1.05\""]);
    assert_eq!(evaluate(&vals, &eth_check()), Err(ZkErrorCode::Unsatisfied));
    let vals = strings(&["\"ETH\"", "\"-1\"", "\"1.2\""]);
    assert_eq!(evaluate(&vals, &eth_check()), Ok(()));
    let vals = strings(&["\"ETH\"", "\"5e-2\"", "\"0.06\""]);
    assert_eq!(evaluate(&vals, &eth_check()), Ok(()));
}

#[test]
fn nan_never_exceeds_threshold() {
    let vals = strings(&["\"ETH\"", "\"nan\"", "\"5\""]);
    assert_eq!(evaluate(&vals, &eth_check()), Err(ZkErrorCode::Unsatisfied));
    let vals = strings(&["\"BTC\"", "\"NaN\""]);
    assert_eq!(evaluate(&vals, &btc_check()), Err(ZkErrorCode::Unsatisfied));
    let vals = strings(&["\"ETH\"", "\"inf\"", "\"-inf\""]);
    assert_eq!(evaluate(&vals, &eth_check()), Err(ZkErrorCode::Unsatisfied));
}

#[test]
fn error_messages() {
    assert_eq!(ZkErrorCode::Unsatisfied.message(), "threshold not met");
    let e = ZktlsError::of(ZkErrorCode::GetJsonValueFail);
    assert_eq!(e.icode(), 5);
    assert_eq!(e.msg, "a path query does not fit the document");
}

#[test]
fn error_codes_are_stable() {
    assert_eq!(ZkErrorCode::ParseAttestationData.icode(), 1);
    assert_eq!(ZkErrorCode::GetAttestorAddressFail.icode(), 2);
    assert_eq!(ZkErrorCode::VerifyAttestation.icode(), 3);
    assert_eq!(ZkErrorCode::InvalidMessagesLength.icode(), 4);
    assert_eq!(ZkErrorCode::GetJsonValueFail.icode(), 5);
    assert_eq!(ZkErrorCode::InvalidJsonValueSize.icode(), 6);
    assert_eq!(ZkErrorCode::NotMatch.icode(), 7);
    assert_eq!(ZkErrorCode::Unsatisfied.icode(), 8);
}
