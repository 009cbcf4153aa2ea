use sophon::fee::FeeError;
use sophon::fee::FeeRate;
use sophon::fee::compute_fee;
use sophon::fee::compute_fee_rate;
use sophon::fee::escalate_millisats;

#[test]
fn fee_is_inputs_minus_outputs() {
    let inputs = vec![600u64, 500];
    let outputs = vec![1000u64];
    assert_eq!(compute_fee(&inputs, &outputs), Ok(100));
}

#[test]
fn fee_of_empty_transaction_is_zero() {
    let inputs: Vec<u64> = vec![];
    let outputs: Vec<u64> = vec![];
    assert_eq!(compute_fee(&inputs, &outputs), Ok(0));
}

#[test]
fn negative_fee_is_refused() {
    let inputs = vec![900u64];
    let outputs = vec![1000u64];
    assert_eq!(compute_fee(&inputs, &outputs), Err(FeeError::NegativeFee));
}

#[test]
fn fee_difference_over_sixty_four_bits_is_refused() {
    let inputs = vec![u64::MAX, u64::MAX];
    let outputs = vec![0u64];
    assert_eq!(compute_fee(&inputs, &outputs), Err(FeeError::Overflow));
}

#[test]
fn fee_rate_is_fee_over_vsize_in_millisats() {
    // fee 1000 sats over 250 vbytes: 4 sat/vB, 4000 millisats/vB.
    let inputs = vec![2000u64];
    let outputs = vec![1000u64];
    assert_eq!(compute_fee_rate(&inputs, &outputs, 250), Ok(4000));
}

#[test]
fn fee_rate_truncates_at_millisat_precision() {
    // fee 1 sat over 3 vbytes: 333.33... millisats/vB, truncated.
    let inputs = vec![1u64];
    let outputs: Vec<u64> = vec![];
    assert_eq!(compute_fee_rate(&inputs, &outputs, 3), Ok(333));
}

#[test]
fn zero_virtual_size_is_refused() {
    let inputs = vec![1000u64];
    let outputs = vec![500u64];
    assert_eq!(
        compute_fee_rate(&inputs, &outputs, 0),
        Err(FeeError::ZeroVirtualSize)
    );
}

#[test]
fn fee_rate_of_inconsistent_resolution_is_refused() {
    let inputs = vec![100u64];
    let outputs = vec![200u64];
    assert_eq!(
        compute_fee_rate(&inputs, &outputs, 100),
        Err(FeeError::NegativeFee)
    );
}

#[test]
fn escalation_multiplies_by_three_halves() {
    assert_eq!(escalate_millisats(10_000), Ok(15_000));
    assert_eq!(escalate_millisats(3), Ok(4));
    assert_eq!(escalate_millisats(0), Ok(0));
}

#[test]
fn escalation_over_sixty_four_bits_is_refused() {
    assert_eq!(escalate_millisats(u64::MAX), Err(FeeError::Overflow));
}

#[test]
fn zero_rate_cannot_be_constructed() {
    assert_eq!(FeeRate::try_from_millisats(0), Err(FeeError::ZeroRate));
}

#[test]
fn positive_rate_is_constructed() {
    let r = FeeRate::try_from_millisats(100_000).unwrap();
    assert_eq!(r.millisats_per_vbyte, 100_000);
}

#[test]
fn fee_rounds_to_nearest_satoshi_halves_up() {
    let just_under = FeeRate::try_from_millisats(499).unwrap();
    assert_eq!(just_under.fee(1), Ok(0));
    let half = FeeRate::try_from_millisats(500).unwrap();
    assert_eq!(half.fee(1), Ok(1));
    let ten_sat_per_vb = FeeRate::try_from_millisats(10_000).unwrap();
    assert_eq!(ten_sat_per_vb.fee(800), Ok(8_000));
}
