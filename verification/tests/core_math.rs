//! Tests of the fixed-point core, valuation conversions, byte accessors,
//! batching and the notification slot.

use eva_liquidator::fixed_point::Fixed;
use eva_liquidator::fixed_point::SCALE;
use eva_liquidator::valuation;
use eva_liquidator::accessor;
use eva_liquidator::batch;
use eva_liquidator::channel::UpdateSignal;
use eva_liquidator::accounts::Address;

const S: i128 = 281474976710656;

#[test]
fn from_ratio_matches_hand_computation() {
    // 98/100 in binary fixed point, rounded down.
    assert_eq!(Fixed::from_ratio(98, 100).bits, 275845477176442);
    assert_eq!(Fixed::from_ratio(1, 100).bits, 2814749767106);
    assert_eq!(Fixed::from_ratio(9, 10).bits, 253327479039590);
    assert_eq!(Fixed::from_u64(7).bits, 7 * S);
}

#[test]
fn mul_floor_exact_and_rounded() {
    let three = Fixed::from_u64(3);
    let four = Fixed::from_u64(4);
    assert_eq!(three.mul_floor(four).unwrap().bits, 12 * S);
    // floor(-0.5) == -1: one negative bit times one half.
    let tiny = Fixed::from_bits(-1);
    let half = Fixed::from_ratio(1, 2);
    assert_eq!(tiny.mul_floor(half).unwrap().bits, -1);
    // the same magnitude on the positive side floors to zero.
    assert_eq!(Fixed::from_bits(1).mul_floor(half).unwrap().bits, 0);
}

#[test]
fn div_floor_exact_and_large() {
    let ten = Fixed::from_u64(10);
    let four = Fixed::from_u64(4);
    assert_eq!(ten.div_floor(four).unwrap().bits, 2 * S + S / 2);
    // a division whose intermediate needs more than 128 bits
    let big = Fixed::from_u64(u64::MAX);
    let out = big.div_floor(Fixed::from_ratio(1, 2)).unwrap();
    assert_eq!(out.bits, (u64::MAX as i128) * 2 * S);
}

#[test]
fn checked_add_and_sub_report_overflow() {
    let max = Fixed::from_bits(i128::MAX);
    assert!(max.checked_add(Fixed::from_u64(1)).is_none());
    let min = Fixed::from_bits(i128::MIN);
    assert!(min.checked_sub(Fixed::from_u64(1)).is_none());
    assert_eq!(
        Fixed::from_u64(5).checked_sub(Fixed::from_u64(2)).unwrap().bits,
        3 * S
    );
}

#[test]
fn calc_value_and_amount_are_exact_on_round_numbers() {
    // ten SOL (1e10 native units at nine decimals) at a hundred dollars
    let amount = Fixed::from_u64(10_000_000_000);
    let price = Fixed::from_u64(100);
    let value = valuation::calc_value(amount, price, 9, None).unwrap();
    assert_eq!(value.bits, 1000 * S);
    let back = valuation::calc_amount(value, price, 9).unwrap();
    assert_eq!(back.bits, amount.bits);
}

#[test]
fn value_amount_round_trip_loses_at_most_one_bit() {
    let a = Fixed::from_bits(12345678901234567);
    let p = Fixed::from_u64(3);
    let v = valuation::calc_value(a, p, 0, None).unwrap();
    let r = valuation::calc_amount(v, p, 0).unwrap();
    assert!((a.bits - r.bits).abs() <= 1);
}

#[test]
fn weight_of_one_is_identity() {
    let amount = Fixed::from_u64(12345);
    let price = Fixed::from_u64(7);
    let unweighted = valuation::calc_value(amount, price, 0, None).unwrap();
    let weighted = valuation::calc_value(amount, price, 0, Some(Fixed::from_u64(1))).unwrap();
    assert_eq!(unweighted.bits, weighted.bits);
}

#[test]
fn accessor_reads_fixed_offsets() {
    let mut data = [0u8; 72];
    // mint at 0..32: low half 9, high half 3
    data[0] = 9;
    data[16] = 3;
    // authority at 32..64: low half 5
    data[32] = 5;
    // amount at 64..72, little endian
    let amt: u64 = 123456789;
    data[64..72].copy_from_slice(&amt.to_le_bytes());
    assert_eq!(accessor::amount(&data), amt);
    let mint = accessor::mint(&data);
    assert_eq!(mint, Address { lo: 9, hi: 3 });
    let auth = accessor::authority(&data);
    assert_eq!(auth, Address { lo: 5, hi: 0 });
    assert_eq!(accessor::discriminator(&data[..4]), None);
    let mut head = [0u8; 8];
    head[0] = 0xEE;
    assert_eq!(accessor::discriminator(&head), Some(0xEE));
}

#[test]
fn chunk_bounds_cover_input_in_order() {
    let r = batch::chunk_bounds(250, 100);
    assert_eq!(r, vec![(0, 100), (100, 200), (200, 250)]);
    assert!(batch::chunk_bounds(0, 100).is_empty());
    let exact = batch::chunk_bounds(200, 100);
    assert_eq!(exact, vec![(0, 100), (100, 200)]);
}

#[test]
fn flatten_results_preserves_order() {
    let chunks: Vec<Vec<u32>> = vec![vec![1, 2], vec![], vec![3], vec![4, 5, 6]];
    assert_eq!(batch::flatten_results(chunks), vec![1, 2, 3, 4, 5, 6]);
}

#[test]
fn batch_loading_config_defaults() {
    let c = batch::BatchLoadingConfig::default_config();
    assert_eq!(c.max_batch_size, 100);
    assert_eq!(c.max_concurrent_calls, 64);
}

#[test]
fn update_signal_coalesces_a_burst() {
    let mut s = UpdateSignal::new();
    for _ in 0..1000 {
        s.send();
    }
    assert!(s.drain());
    assert!(!s.drain());
}
