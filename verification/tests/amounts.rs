use drg::amount::{div_toward_zero, narrow_raw, wide_product, Amount, SCALE};

#[test]
fn scale_is_eight_decimal_places() {
    assert_eq!(SCALE, 100_000_000);
    assert_eq!(Amount::from_units(3), Some(Amount { raw: 300_000_000 }));
    assert_eq!(Amount::from_units(-1), Some(Amount { raw: -100_000_000 }));
    assert_eq!(Amount::from_units(i64::MAX), None);
    assert_eq!(Amount::from_raw(17).raw, 17);
    assert_eq!(Amount::zero().raw, 0);
}

#[test]
fn division_rounds_toward_zero() {
    assert_eq!(div_toward_zero(7, 2), 3);
    assert_eq!(div_toward_zero(-7, 2), -3);
    assert_eq!(div_toward_zero(7, -2), -3);
    assert_eq!(div_toward_zero(-7, -2), 3);
    assert_eq!(div_toward_zero(0, -2), 0);
}

#[test]
fn sums_and_differences_are_checked() {
    let a = Amount { raw: i64::MAX };
    let one = Amount { raw: 1 };
    assert_eq!(a.checked_add(one), None);
    assert_eq!(a.checked_sub(one), Some(Amount { raw: i64::MAX - 1 }));
    assert_eq!(Amount { raw: i64::MIN }.checked_sub(one), None);
    assert_eq!(Amount { raw: i64::MIN }.checked_neg(), None);
    assert_eq!(Amount { raw: 5 }.checked_neg(), Some(Amount { raw: -5 }));
    assert_eq!(Amount { raw: 2 }.checked_add(Amount { raw: 3 }), Some(Amount { raw: 5 }));
}

#[test]
fn products_are_scaled_and_rounded_toward_zero() {
    let half = Amount { raw: 50_000_000 };
    let three = Amount { raw: 3 };
    // 3 raw * 0.5 = 1.5 raw
    assert_eq!(three.checked_mul(half), Some(Amount { raw: 1 }));
    assert_eq!(Amount { raw: -3 }.checked_mul(half), Some(Amount { raw: -1 }));
    assert_eq!(Amount::from_units(4000).unwrap().checked_mul(Amount { raw: 2_500_000 }), Amount::from_units(100));
    assert_eq!(Amount { raw: i64::MAX }.checked_mul(Amount { raw: i64::MAX }), None);
    assert_eq!(wide_product(Amount { raw: i64::MIN }, Amount { raw: i64::MIN }), (1i128 << 126) / 100_000_000);
}

#[test]
fn quotients_are_scaled_and_rounded_toward_zero() {
    let one = Amount::from_units(1).unwrap();
    let three = Amount::from_units(3).unwrap();
    assert_eq!(one.checked_div(three), Some(Amount { raw: 33_333_333 }));
    assert_eq!(Amount::from_units(-1).unwrap().checked_div(three), Some(Amount { raw: -33_333_333 }));
    assert_eq!(one.checked_div(Amount::zero()), None);
    assert_eq!(Amount { raw: i64::MAX }.checked_div(Amount { raw: 1 }), None);
    assert_eq!(Amount::from_units(100).unwrap().checked_div(Amount::from_units(100).unwrap()), Some(one));
}

#[test]
fn same_sign_is_strict() {
    let p = Amount { raw: 1 };
    let n = Amount { raw: -1 };
    let z = Amount::zero();
    assert!(p.same_sign(p));
    assert!(n.same_sign(n));
    assert!(!p.same_sign(n));
    assert!(!n.same_sign(p));
    assert!(!z.same_sign(p));
    assert!(!p.same_sign(z));
    assert!(!z.same_sign(z));
}

#[test]
fn weighted_mean_of_prices() {
    let u = |x: i64| Amount::from_units(x).unwrap();
    assert_eq!(Amount::weighted_mean(u(1), u(100), u(3), u(200)), Some(u(175)));
    assert_eq!(Amount::weighted_mean(u(-1), u(100), u(-3), u(200)), Some(u(175)));
    assert_eq!(Amount::weighted_mean(u(1), u(100), u(2), u(50)), Some(Amount { raw: 6_666_666_666 }));
    assert_eq!(Amount::weighted_mean(u(1), u(100), u(-1), u(50)), None);
    let least = Amount { raw: i64::MIN };
    assert_eq!(Amount::weighted_mean(least, least, least, least), Some(least));
    let most = Amount { raw: i64::MAX };
    assert_eq!(Amount::weighted_mean(most, most, most, least), Some(Amount { raw: 0 }));
}

#[test]
fn narrowing_keeps_the_64_bit_range() {
    assert_eq!(narrow_raw(i64::MAX as i128), Some(Amount { raw: i64::MAX }));
    assert_eq!(narrow_raw(i64::MIN as i128), Some(Amount { raw: i64::MIN }));
    assert_eq!(narrow_raw(i64::MAX as i128 + 1), None);
    assert_eq!(narrow_raw(i64::MIN as i128 - 1), None);
}
