use crabmath::types::{Fraction, FractionError};

const HALF_RANGE: usize = (isize::MAX as usize) + 1;

fn frac(numerator: isize, denominator: usize) -> Fraction {
    Fraction::new(numerator, denominator).unwrap()
}

fn parts(f: &Fraction) -> (isize, usize) {
    (f.numerator, f.denominator)
}

#[test]
fn error_keeps_its_message() {
    let e = FractionError::new("some message");
    assert_eq!(e.description(), "some message");
    assert_eq!(e.to_string(), "some message");
    let empty = FractionError::new("");
    assert_eq!(empty.to_string(), "");
}

#[test]
fn equality_is_structural() {
    assert_ne!(frac(2, 4), frac(1, 2));
    assert_eq!(frac(2, 4), frac(2, 4));
    assert_eq!(frac(-3, 5).clone(), frac(-3, 5));
}

#[test]
fn gcd_exact_values() {
    assert_eq!(Fraction::gcd(12, 18), 6);
    assert_eq!(Fraction::gcd(17, 5), 1);
    assert_eq!(Fraction::gcd(0, 0), 0);
    assert_eq!(Fraction::gcd(48, 180), 12);
    assert_eq!(Fraction::gcd(usize::MAX, usize::MAX), usize::MAX);
}

#[test]
fn lcm_exact_values() {
    assert_eq!(Fraction::lcm(4, 6), 12);
    assert_eq!(Fraction::lcm(6, 4), 12);
    assert_eq!(Fraction::lcm(7, 13), 91);
    assert_eq!(Fraction::lcm(1, 9), 9);
}

#[test]
fn lcm_with_zero_is_zero() {
    assert_eq!(Fraction::lcm(0, 5), 0);
    assert_eq!(Fraction::lcm(5, 0), 0);
    assert_eq!(Fraction::lcm(0, 0), 0);
    assert_eq!(Fraction::checked_lcm(0, 0), Some(0));
}

#[test]
fn checked_lcm_reports_what_does_not_fit() {
    assert_eq!(Fraction::checked_lcm(4, 6), Some(12));
    assert_eq!(Fraction::checked_lcm(usize::MAX, usize::MAX), Some(usize::MAX));
    assert_eq!(Fraction::checked_lcm(usize::MAX, 2), None);
    assert_eq!(Fraction::checked_lcm(usize::MAX, usize::MAX - 1), None);
}

#[test]
fn simplify_zero_gives_zero_over_one() {
    let mut f = frac(0, 5);
    f.simplify();
    assert_eq!(parts(&f), (0, 1));
}

#[test]
fn simplify_keeps_the_sign_on_the_numerator() {
    let mut f = frac(-6, 9);
    f.simplify();
    assert_eq!(parts(&f), (-2, 3));
    let mut g = frac(-4, 2);
    g.simplify();
    assert_eq!(parts(&g), (-2, 1));
}

#[test]
fn simplify_leaves_lowest_terms_alone() {
    let mut f = frac(3, 7);
    f.simplify();
    assert_eq!(parts(&f), (3, 7));
}

#[test]
fn simplify_at_the_limits() {
    let mut f = frac(isize::MIN, 2);
    f.simplify();
    assert_eq!(parts(&f), (isize::MIN / 2, 1));
    let mut g = frac(isize::MIN, HALF_RANGE);
    g.simplify();
    assert_eq!(parts(&g), (-1, 1));
    let mut h = frac(isize::MIN, 1);
    h.simplify();
    assert_eq!(parts(&h), (isize::MIN, 1));
    let mut k = frac(isize::MAX, usize::MAX);
    k.simplify();
    assert_eq!(parts(&k), (isize::MAX, usize::MAX));
}

#[test]
fn reciprocal_moves_the_sign() {
    assert_eq!(parts(&frac(-2, 3).reciprocal().unwrap()), (-3, 2));
    assert_eq!(parts(&frac(5, 1).reciprocal().unwrap()), (1, 5));
    assert_eq!(parts(&frac(isize::MIN, 3).reciprocal().unwrap()), (-3, HALF_RANGE));
    assert_eq!(parts(&frac(-1, HALF_RANGE).reciprocal().unwrap()), (isize::MIN, 1));
}

#[test]
fn reciprocal_of_zero_is_refused() {
    let e = frac(0, 3).reciprocal().unwrap_err();
    assert_eq!(e.to_string(), "Denominator cannot be 0");
}

#[test]
fn reciprocal_reports_overflow() {
    let e = frac(1, HALF_RANGE).reciprocal().unwrap_err();
    assert_eq!(e.to_string(), "Arithmetic overflow");
    let e = frac(-1, HALF_RANGE + 1).reciprocal().unwrap_err();
    assert_eq!(e.to_string(), "Arithmetic overflow");
    let e = frac(7, usize::MAX).reciprocal().unwrap_err();
    assert_eq!(e.to_string(), "Arithmetic overflow");
}

#[test]
fn to_string_writes_both_parts_as_they_are() {
    assert_eq!(frac(2, 4).to_string(), "2/4");
    assert_eq!(frac(0, 1).to_string(), "0/1");
    assert_eq!(frac(-12, 345).to_string(), "-12/345");
    assert_eq!(frac(1000, 10).to_string(), "1000/10");
    assert_eq!(frac(9, 9).to_string(), "9/9");
    assert_eq!(
        frac(isize::MIN, usize::MAX).to_string(),
        format!("{}/{}", isize::MIN, usize::MAX)
    );
    assert_eq!(
        frac(isize::MAX, 1234567890).to_string(),
        format!("{}/{}", isize::MAX, 1234567890usize)
    );
}

#[test]
fn add_brings_to_the_least_common_denominator() {
    assert_eq!(parts(&(frac(1, 2) + frac(1, 3)).unwrap()), (5, 6));
    assert_eq!(parts(&(frac(1, 4) + frac(1, 6)).unwrap()), (5, 12));
    assert_eq!(parts(&(frac(-1, 2) + frac(1, 2)).unwrap()), (0, 2));
    assert_eq!(parts(&(frac(3, 10) + frac(-7, 15)).unwrap()), (-5, 30));
}

#[test]
fn sub_brings_to_the_least_common_denominator() {
    assert_eq!(parts(&(frac(1, 2) - frac(1, 3)).unwrap()), (1, 6));
    assert_eq!(parts(&(frac(1, 6) - frac(1, 4)).unwrap()), (-1, 12));
    assert_eq!(parts(&(frac(5, 8) - frac(5, 8)).unwrap()), (0, 8));
}

#[test]
fn mul_multiplies_part_by_part() {
    assert_eq!(parts(&(frac(2, 3) * frac(3, 4)).unwrap()), (6, 12));
    assert_eq!(parts(&(frac(-2, 3) * frac(3, 4)).unwrap()), (-6, 12));
    assert_eq!(parts(&(frac(-2, 3) * frac(-3, 4)).unwrap()), (6, 12));
    assert_eq!(parts(&(frac(0, 3) * frac(3, 4)).unwrap()), (0, 12));
}

#[test]
fn div_moves_the_sign_of_the_divisor() {
    assert_eq!(parts(&(frac(1, 2) / frac(-1, 3)).unwrap()), (-3, 2));
    assert_eq!(parts(&(frac(-1, 2) / frac(-1, 3)).unwrap()), (3, 2));
    assert_eq!(parts(&(frac(3, 4) / frac(5, 7)).unwrap()), (21, 20));
    assert_eq!(parts(&(frac(0, 4) / frac(5, 7)).unwrap()), (0, 20));
}

#[test]
fn div_by_zero_is_refused() {
    let e = (frac(1, 2) / frac(0, 5)).unwrap_err();
    assert_eq!(e.to_string(), "Denominator cannot be 0");
}

#[test]
fn operators_refuse_a_zero_denominator() {
    let broken = Fraction { numerator: 1, denominator: 0 };
    let e = (broken.clone() + frac(1, 2)).unwrap_err();
    assert_eq!(e.to_string(), "Denominator cannot be 0");
    let e = (frac(1, 2) - broken.clone()).unwrap_err();
    assert_eq!(e.to_string(), "Denominator cannot be 0");
    let e = (broken.clone() * frac(1, 2)).unwrap_err();
    assert_eq!(e.to_string(), "Denominator cannot be 0");
    let e = (broken / frac(1, 2)).unwrap_err();
    assert_eq!(e.to_string(), "Denominator cannot be 0");
}

#[test]
fn operators_report_overflow() {
    let e = (frac(isize::MAX, 1) + frac(1, 1)).unwrap_err();
    assert_eq!(e.to_string(), "Arithmetic overflow");
    let e = (frac(isize::MIN, 1) - frac(1, 1)).unwrap_err();
    assert_eq!(e.to_string(), "Arithmetic overflow");
    let e = (frac(1, usize::MAX) + frac(1, 2)).unwrap_err();
    assert_eq!(e.to_string(), "Arithmetic overflow");
    let e = (frac(isize::MAX, 1) * frac(2, 1)).unwrap_err();
    assert_eq!(e.to_string(), "Arithmetic overflow");
    let e = (frac(1, usize::MAX) * frac(1, 2)).unwrap_err();
    assert_eq!(e.to_string(), "Arithmetic overflow");
    let e = (frac(isize::MAX, 1) / frac(1, 2)).unwrap_err();
    assert_eq!(e.to_string(), "Arithmetic overflow");
    let e = (frac(1, usize::MAX) / frac(2, 1)).unwrap_err();
    assert_eq!(e.to_string(), "Arithmetic overflow");
    let e = (frac(isize::MIN, 1) / frac(-1, 1)).unwrap_err();
    assert_eq!(e.to_string(), "Arithmetic overflow");
}

#[test]
fn add_succeeds_where_only_a_step_overflows() {
    // 2^62 scaled to halves does not fit an isize, the sum does.
    let big: isize = 1 << 62;
    let sum = (frac(big, 1) + frac(-1, 2)).unwrap();
    assert_eq!(parts(&sum), (isize::MAX, 2));
    let diff = (frac(-big, 1) - frac(0, 2)).unwrap();
    assert_eq!(parts(&diff), (isize::MIN, 2));
}

#[test]
fn operators_at_the_limits() {
    assert_eq!(parts(&(frac(isize::MIN, 1) * frac(1, 1)).unwrap()), (isize::MIN, 1));
    assert_eq!(parts(&(frac(isize::MAX, 1) / frac(-1, 1)).unwrap()), (-isize::MAX, 1));
    assert_eq!(parts(&(frac(1, 1) / frac(isize::MIN, 1)).unwrap()), (-1, HALF_RANGE));
    assert_eq!(
        parts(&(frac(1, usize::MAX) + frac(1, usize::MAX)).unwrap()),
        (2, usize::MAX)
    );
}
