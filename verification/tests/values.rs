use garbled_twopc::aggregate::aggregate_sum;
use garbled_twopc::aggregate::select_values;
use garbled_twopc::aggregate::sum_values;
use garbled_twopc::aggregate::AttrValue;
use garbled_twopc::bits::bits_to_u128;
use garbled_twopc::bits::u128_to_bits;
use garbled_twopc::errors::TwopcError;

#[test]
fn bits_round_trip() {
    for &x in &[0u128, 1, 2, 15, 200, 255, 256, u128::MAX] {
        let bits = u128_to_bits(x, 128);
        assert_eq!(bits.len(), 128);
        assert_eq!(bits_to_u128(&bits), x);
    }
}

#[test]
fn bits_narrow_width_truncates() {
    let bits = u128_to_bits(256 + 5, 8);
    assert_eq!(bits.len(), 8);
    assert_eq!(bits_to_u128(&bits), 5);
}

#[test]
fn bits_are_least_significant_first() {
    let bits = u128_to_bits(6, 4);
    assert_eq!(bits, vec![false, true, true, false]);
}

#[test]
fn selection_keeps_numeric_in_range() {
    let entries = vec![
        AttrValue::Num(16),
        AttrValue::Missing,
        AttrValue::Num(70000),
        AttrValue::NonNumeric,
        AttrValue::Num(65535),
    ];
    let selected = select_values(&entries);
    assert_eq!(selected, vec![16u16, 65535u16]);
}

#[test]
fn sum_of_selected_values() {
    assert_eq!(sum_values(&vec![1u16, 2, 3]), 6);
    assert_eq!(sum_values(&vec![]), 0);
    assert_eq!(sum_values(&vec![65535u16, 65535]), 131070);
}

#[test]
fn empty_selection_is_an_input_error() {
    let entries = vec![AttrValue::Missing, AttrValue::NonNumeric, AttrValue::Num(70000)];
    assert_eq!(aggregate_sum(&entries), Err(TwopcError::EmptySelection));
    assert_eq!(aggregate_sum(&vec![]), Err(TwopcError::EmptySelection));
}

#[test]
fn aggregate_sums_the_kept_values() {
    let entries = vec![
        AttrValue::Num(16),
        AttrValue::Missing,
        AttrValue::Num(20),
        AttrValue::NonNumeric,
        AttrValue::Num(15),
    ];
    assert_eq!(aggregate_sum(&entries), Ok(51));
}
