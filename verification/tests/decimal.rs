use rust_decimal::Decimal as Reference;
use simulated_exchange::decimal::{Decimal, MAGNITUDE_LIMIT, MAX_SCALE};

type Parts = (bool, u128, u32);

fn dec(mantissa: i128, scale: u32) -> Decimal {
    Decimal::from_parts(mantissa < 0, mantissa.unsigned_abs(), scale).unwrap()
}

fn made(parts: Parts) -> Decimal {
    Decimal::from_parts(parts.0, parts.1, parts.2).unwrap()
}

fn reference(parts: Parts) -> Reference {
    let mut decimal = Reference::from_i128_with_scale(parts.1 as i128, parts.2);
    decimal.set_sign_negative(parts.0);
    decimal
}

/// Numbers of all sizes, most of them near a limit of some kind.
fn samples() -> Vec<Parts> {
    let mut state: u64 = 0x2545_f491_4f6c_dd1d;
    let mut next = move || {
        state ^= state << 13;
        state ^= state >> 7;
        state ^= state << 17;
        state
    };
    let mut magnitudes: Vec<u128> = vec![0, 1, 5, 10, 1_000_000_007];
    for bits in [31u32, 32, 33, 48, 63, 64, 65, 80, 95, 96] {
        magnitudes.push((1u128 << bits) - 1);
        if bits < 96 {
            magnitudes.push(1u128 << bits);
        }
        let random = ((next() as u128) << 64) | next() as u128;
        magnitudes.push(random % (1u128 << bits));
    }
    let mut samples: Vec<Parts> = Vec::new();
    for magnitude in magnitudes {
        for scale in [0u32, 1, 9, 14, 19, 27, 28] {
            samples.push((next() % 2 == 0, magnitude, scale));
        }
    }
    samples
}

fn signed(parts: Parts, scale: u32) -> Option<i128> {
    let power = 10u128.checked_pow(scale - parts.2)?;
    let aligned = parts.1.checked_mul(power)?;
    if aligned >= 1u128 << 126 {
        return None;
    }
    Some(if parts.0 { -(aligned as i128) } else { aligned as i128 })
}

/// The sum at the larger scale, where it fits.
fn exact_sum(left: Parts, right: Parts) -> Option<Parts> {
    if left.1 == 0 {
        return Some(right);
    }
    if right.1 == 0 {
        return Some(left);
    }
    let scale = left.2.max(right.2);
    let sum = signed(left, scale)? + signed(right, scale)?;
    if sum.unsigned_abs() < MAGNITUDE_LIMIT {
        Some((sum < 0, sum.unsigned_abs(), scale))
    } else {
        None
    }
}

fn negated(parts: Parts) -> Parts {
    if parts.1 == 0 {
        parts
    } else {
        (!parts.0, parts.1, parts.2)
    }
}

/// The product with all of its digits, where it fits.
fn exact_product(left: Parts, right: Parts) -> Option<Parts> {
    if left.1 == 0 || right.1 == 0 {
        return Some((false, 0, 0));
    }
    let product = left.1.checked_mul(right.1)?;
    if product < MAGNITUDE_LIMIT && left.2 + right.2 <= MAX_SCALE {
        Some((left.0 != right.0, product, left.2 + right.2))
    } else {
        None
    }
}

fn parts_of(result: Option<Decimal>) -> Option<Parts> {
    result.map(|decimal| decimal.parts())
}

fn reference_parts(result: Option<Reference>) -> Option<Parts> {
    result.map(|d| (d.is_sign_negative(), d.mantissa().unsigned_abs(), d.scale()))
}

#[test]
fn parts_are_given_back() {
    assert_eq!(dec(-3141, 3).parts(), (true, 3141, 3));
    assert_eq!(Decimal::zero().parts(), (false, 0, 0));
}

#[test]
fn parts_out_of_range_are_refused() {
    assert!(Decimal::from_parts(false, MAGNITUDE_LIMIT - 1, MAX_SCALE).is_some());
    assert!(Decimal::from_parts(false, MAGNITUDE_LIMIT, 0).is_none());
    assert!(Decimal::from_parts(false, 0, MAX_SCALE + 1).is_none());
}

#[test]
fn limits_are_those_of_the_decimal_crate() {
    assert_eq!(Reference::MAX.mantissa().unsigned_abs(), MAGNITUDE_LIMIT - 1);
    assert_eq!(Reference::MAX_SCALE, MAX_SCALE);
}

#[test]
fn text_shows_every_decimal_place() {
    assert_eq!(dec(3141, 3).text(), "3.141");
    assert_eq!(dec(-3141, 3).text(), "-3.141");
    assert_eq!(dec(7, 3).text(), "0.007");
    assert_eq!(dec(100, 2).text(), "1.00");
    assert_eq!(dec(12, 0).text(), "12");
}

#[test]
fn text_of_zero_shows_its_scale_and_sign() {
    assert_eq!(dec(0, 0).text(), "0");
    assert_eq!(dec(0, 2).text(), "0.00");
    assert_eq!(made((true, 0, 2)).text(), "-0.00");
}

#[test]
fn text_of_large_numbers() {
    assert_eq!(made((false, MAGNITUDE_LIMIT - 1, 0)).text(), "79228162514264337593543950335");
    assert_eq!(made((true, MAGNITUDE_LIMIT - 1, 28)).text(), "-7.9228162514264337593543950335");
}

#[test]
fn product_keeps_all_decimal_places() {
    assert_eq!(parts_of(dec(150, 2).checked_mul(dec(-25, 1))), Some((true, 3750, 3)));
}

#[test]
fn product_with_zero_has_no_sign_and_no_places() {
    assert_eq!(parts_of(dec(-150, 2).checked_mul(dec(0, 9))), Some((false, 0, 0)));
}

#[test]
fn product_that_is_too_long_is_rounded() {
    assert_eq!(parts_of(dec(15, 28).checked_mul(dec(1, 1))), Some((false, 2, 28)));
    assert_eq!(parts_of(dec(25, 28).checked_mul(dec(1, 1))), Some((false, 2, 28)));
}

#[test]
fn product_that_is_too_large_overflows() {
    let large = made((false, MAGNITUDE_LIMIT - 1, 0));
    assert!(large.checked_mul(dec(2, 0)).is_none());
}

#[test]
fn sum_is_at_the_larger_scale() {
    assert_eq!(parts_of(dec(15, 1).checked_add(dec(25, 2))), Some((false, 175, 2)));
    assert_eq!(parts_of(dec(15, 1).checked_add(dec(-150, 2))), Some((false, 0, 2)));
}

#[test]
fn sum_with_zero_gives_the_other_operand() {
    assert_eq!(parts_of(dec(0, 5).checked_add(dec(15, 1))), Some((false, 15, 1)));
    assert_eq!(parts_of(dec(15, 1).checked_add(dec(0, 5))), Some((false, 15, 1)));
}

#[test]
fn sum_that_is_too_large_overflows() {
    let large = made((false, MAGNITUDE_LIMIT - 1, 0));
    assert!(large.checked_add(dec(1, 0)).is_none());
}

#[test]
fn difference_is_at_the_larger_scale() {
    assert_eq!(parts_of(dec(1, 0).checked_sub(dec(25, 2))), Some((false, 75, 2)));
    assert_eq!(parts_of(dec(1, 0).checked_sub(dec(250, 2))), Some((true, 150, 2)));
}

#[test]
fn difference_with_zero() {
    assert_eq!(parts_of(dec(0, 5).checked_sub(dec(15, 1))), Some((true, 15, 1)));
    assert_eq!(parts_of(dec(15, 1).checked_sub(dec(0, 5))), Some((false, 15, 1)));
}

#[test]
fn difference_that_is_too_large_overflows() {
    let large = made((true, MAGNITUDE_LIMIT - 1, 0));
    assert!(large.checked_sub(dec(1, 0)).is_none());
}

#[test]
fn numbers_compare_whatever_their_scales() {
    assert!(dec(10, 1) == dec(1, 0));
    assert!(dec(0, 3) == made((true, 0, 0)));
    assert!(dec(11, 1) > dec(1, 0));
    assert!(dec(-11, 1) < dec(-1, 0));
    assert!(dec(-1, 0).at_most(dec(0, 28)));
    assert!(!dec(1, 28).at_most(dec(0, 0)));
}

#[test]
fn abs_takes_the_sign_away() {
    assert_eq!(dec(-15, 1).abs().parts(), (false, 15, 1));
    assert_eq!(dec(15, 1).abs().parts(), (false, 15, 1));
}

#[test]
fn only_zero_is_zero() {
    assert!(dec(0, 4).is_zero());
    assert!(made((true, 0, 0)).is_zero());
    assert!(!dec(1, 28).is_zero());
}

#[test]
fn products_of_samples_are_those_of_the_decimal_crate() {
    for left in samples() {
        for right in samples() {
            let result = parts_of(made(left).checked_mul(made(right)));
            assert_eq!(result, reference_parts(reference(left).checked_mul(reference(right))));
            if let Some(exact) = exact_product(left, right) {
                assert_eq!(result, Some(exact));
            }
            if left.1.checked_mul(right.1).map_or(false, |product| product < MAGNITUDE_LIMIT) {
                assert!(result.is_some());
            }
        }
    }
}

#[test]
fn sums_of_samples_are_those_of_the_decimal_crate() {
    for left in samples() {
        for right in samples() {
            let result = parts_of(made(left).checked_add(made(right)));
            assert_eq!(result, reference_parts(reference(left).checked_add(reference(right))));
            if let Some(exact) = exact_sum(left, right) {
                assert_eq!(result, Some(exact), "{left:?} {right:?}");
            }
        }
    }
}

#[test]
fn differences_of_samples_are_those_of_the_decimal_crate() {
    for left in samples() {
        for right in samples() {
            let result = parts_of(made(left).checked_sub(made(right)));
            assert_eq!(result, reference_parts(reference(left).checked_sub(reference(right))));
            let exact = if right.1 == 0 && left.1 != 0 {
                Some(left)
            } else {
                exact_sum(left, negated(right))
            };
            if let Some(exact) = exact {
                assert_eq!(result, Some(exact), "{left:?} {right:?}");
            }
        }
    }
}

#[test]
fn rounding_keeps_the_sign_of_a_difference() {
    let mut rounded = 0;
    for left in samples() {
        for right in samples() {
            if let Some(result) = made(left).checked_sub(made(right)) {
                if left.1 != 0 && right.1 != 0 && exact_sum(left, negated(right)).is_none() {
                    let less = reference(left) < reference(right);
                    assert_eq!(result.parts().0, less, "{left:?} {right:?}");
                    assert!(!result.is_zero());
                    rounded += 1;
                }
                assert_eq!(result < Decimal::zero(), made(left) < made(right));
                assert_eq!(result == Decimal::zero(), made(left) == made(right));
            }
        }
    }
    assert!(rounded > 1_000);
    let large = made((false, MAGNITUDE_LIMIT - 1, 0));
    assert_eq!(parts_of(large.checked_sub(dec(3, 1))), Some((false, MAGNITUDE_LIMIT - 1, 0)));
    assert_eq!(parts_of(dec(3, 1).checked_sub(large)), Some((true, MAGNITUDE_LIMIT - 1, 0)));
    assert_eq!(parts_of(dec(1, 28).checked_sub(dec(8, 0))), Some((true, 8 * 10u128.pow(27), 27)));
}

#[test]
fn a_difference_that_just_fits_is_exact() {
    let left = (false, 792_281_625_142_643_375_935_439_503u128, 1);
    let right = (false, MAGNITUDE_LIMIT - 1, 28);
    assert_eq!(
        parts_of(made(left).checked_sub(made(right))),
        reference_parts(reference(left).checked_sub(reference(right))),
    );
    let wide = (false, 7_922_816_251_426_433_759_354_395_034u128, 0);
    let narrow = (false, MAGNITUDE_LIMIT - 1, 1);
    assert_eq!(parts_of(made(wide).checked_sub(made(narrow))), Some((false, 5, 1)));
}

#[test]
fn samples_compare_as_in_the_decimal_crate() {
    for left in samples() {
        for right in samples() {
            let result = made(left).at_most(made(right));
            assert_eq!(result, reference(left) <= reference(right));
            if let (Some(a), Some(b)) = (signed(left, MAX_SCALE), signed(right, MAX_SCALE)) {
                assert_eq!(result, a <= b);
            }
        }
    }
}

#[test]
fn samples_are_written_as_in_the_decimal_crate() {
    for parts in samples() {
        assert_eq!(made(parts).text(), reference(parts).to_string());
    }
}
