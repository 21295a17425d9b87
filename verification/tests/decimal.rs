use std::str::FromStr;

use orderbook_aggregator::decimal::{Decimal, MAX_MANTISSA, MAX_SCALE};
use orderbook_aggregator::rank::{goes_before, Direction, Ranked};

fn dec(mantissa: i128, scale: u32) -> Decimal {
    Decimal::new(mantissa, scale).unwrap()
}

#[test]
fn decimal_keeps_mantissa_and_scale() {
    let d = dec(1005, 1);
    assert_eq!(d.mantissa(), 1005);
    assert_eq!(d.scale(), 1);
    let d = dec(-42, 28);
    assert_eq!(d.mantissa(), -42);
    assert_eq!(d.scale(), 28);
}

#[test]
fn decimal_bounds_are_those_of_ninety_six_bits_and_scale_twenty_eight() {
    assert_eq!(MAX_SCALE, 28);
    assert_eq!(MAX_MANTISSA, 79_228_162_514_264_337_593_543_950_335);
    assert!(Decimal::new(MAX_MANTISSA, 28).is_some());
    assert!(Decimal::new(-MAX_MANTISSA, 0).is_some());
    assert!(Decimal::new(MAX_MANTISSA + 1, 0).is_none());
    assert!(Decimal::new(-MAX_MANTISSA - 1, 0).is_none());
    assert!(Decimal::new(0, 29).is_none());
    assert!(Decimal::new(i128::MAX, u32::MAX).is_none());
}

#[test]
fn decimal_bounds_agree_with_rust_decimal() {
    for (mantissa, scale) in [
        (MAX_MANTISSA, 28u32),
        (MAX_MANTISSA + 1, 0),
        (-MAX_MANTISSA, 3),
        (-MAX_MANTISSA - 1, 3),
        (1, 28),
        (1, 29),
    ] {
        assert_eq!(
            Decimal::new(mantissa, scale).is_some(),
            rust_decimal::Decimal::try_from_i128_with_scale(mantissa, scale).is_ok()
        );
    }
}

#[test]
fn decimals_compare_by_value_across_scales() {
    // 100.5 against 100.50001
    assert!(dec(1005, 1).ranks_below(&dec(10050001, 5)));
    assert!(!dec(10050001, 5).ranks_below(&dec(1005, 1)));
    // 1.0 and 1.00 are one number
    assert!(!dec(10, 1).ranks_below(&dec(100, 2)));
    assert!(!dec(100, 2).ranks_below(&dec(10, 1)));
    // 2 against 10: the larger mantissa is the smaller number here
    assert!(dec(20, 1).ranks_below(&dec(10, 0)));
    // negative numbers
    assert!(dec(-5, 1).ranks_below(&dec(-1, 2)));
    assert!(dec(-1, 0).ranks_below(&dec(0, 5)));
    assert!(!dec(0, 0).ranks_below(&dec(0, 28)));
    // the extremes
    assert!(dec(-MAX_MANTISSA, 0).ranks_below(&dec(MAX_MANTISSA, 28)));
    assert!(dec(MAX_MANTISSA, 28).ranks_below(&dec(MAX_MANTISSA, 0)));
    assert!(dec(1, 28).ranks_below(&dec(MAX_MANTISSA, 0)));
}

#[test]
fn decimals_compare_as_rust_decimal_does() {
    let samples = ["0", "0.000", "1", "1.0", "-1", "100.5", "100.50", "100.49", "0.0000001", "-0.5"];
    for x in samples {
        for y in samples {
            let rx = rust_decimal::Decimal::from_str(x).unwrap();
            let ry = rust_decimal::Decimal::from_str(y).unwrap();
            let lx = dec(rx.mantissa(), rx.scale());
            let ly = dec(ry.mantissa(), ry.scale());
            assert_eq!(lx.ranks_below(&ly), rx < ry, "{x} < {y}");
        }
    }
}

#[test]
fn goes_before_follows_the_direction() {
    assert!(goes_before(&1, &2, Direction::Ascending));
    assert!(!goes_before(&2, &1, Direction::Ascending));
    assert!(!goes_before(&2, &2, Direction::Ascending));
    assert!(goes_before(&2, &1, Direction::Descending));
    assert!(!goes_before(&1, &2, Direction::Descending));
    assert!(!goes_before(&2, &2, Direction::Descending));
    assert!(goes_before(&dec(1, 1), &dec(1, 0), Direction::Ascending));
    assert!(goes_before(&dec(1, 0), &dec(1, 1), Direction::Descending));
}

#[test]
fn integers_rank_by_their_value() {
    assert!((-3i32).ranks_below(&2));
    assert!(!2i32.ranks_below(&2));
    assert!(i64::MIN.ranks_below(&i64::MAX));
    assert!(0u32.ranks_below(&u32::MAX));
    assert!(!u64::MAX.ranks_below(&0));
    assert!((&1i32).ranks_below(&&2i32));
}
