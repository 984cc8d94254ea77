use crabmath::types::Fraction;

fn simplified(numerator: isize, denominator: usize) -> Fraction {
    let mut f = Fraction::new(numerator, denominator).unwrap();
    f.simplify();
    f
}

#[test]
fn new_keeps_the_values_as_given() {
    let cases: Vec<(isize, usize)> = vec![
        (0, 1),
        (2, 4),
        (-2, 4),
        (7, 7),
        (isize::MAX, usize::MAX),
        (isize::MIN, 1),
        (-1, usize::MAX),
    ];
    for (n, d) in cases {
        let f = Fraction::new(n, d).unwrap();
        assert_eq!(f.numerator, n);
        assert_eq!(f.denominator, d);
    }
}

#[test]
fn new_refuses_a_zero_denominator() {
    let cases: Vec<isize> = vec![0, 1, -1, 42, isize::MAX, isize::MIN];
    for n in cases {
        let e = Fraction::new(n, 0).unwrap_err();
        assert_eq!(e.to_string(), "Denominator cannot be 0");
    }
}

#[test]
fn simplify_twice_is_simplify_once() {
    let cases: Vec<(isize, usize)> =
        vec![(2, 4), (-6, 9), (0, 5), (17, 5), (100, 10), (isize::MIN, 2), (-3, 3)];
    for (n, d) in cases {
        let once = simplified(n, d);
        let mut twice = once.clone();
        twice.simplify();
        assert_eq!(once, twice);
    }
}

#[test]
fn gcd_does_not_depend_on_the_order() {
    let cases: Vec<(usize, usize)> =
        vec![(12, 18), (18, 12), (7, 13), (0, 5), (5, 0), (0, 0), (1, usize::MAX), (48, 180)];
    for (a, b) in cases {
        assert_eq!(Fraction::gcd(a, b), Fraction::gcd(b, a));
    }
}

#[test]
fn gcd_with_zero_is_the_other_number() {
    let cases: Vec<usize> = vec![0, 1, 2, 17, 1000, usize::MAX];
    for a in cases {
        assert_eq!(Fraction::gcd(a, 0), a);
        assert_eq!(Fraction::gcd(0, a), a);
    }
}

#[test]
fn lcm_times_gcd_is_the_product() {
    let cases: Vec<(usize, usize)> =
        vec![(2, 4), (4, 6), (12, 18), (7, 13), (1, 1), (21, 6), (1000, 1000)];
    for (a, b) in cases {
        assert_eq!(Fraction::lcm(a, b) * Fraction::gcd(a, b), a * b);
    }
}

#[test]
fn reciprocal_of_reciprocal_is_the_fraction() {
    let cases: Vec<(isize, usize)> = vec![(1, 2), (-1, 2), (3, 7), (-9, 12), (isize::MAX, 5)];
    for (n, d) in cases {
        let f = Fraction::new(n, d).unwrap();
        let back = f.reciprocal().unwrap().reciprocal().unwrap();
        assert_eq!(back, f);
        let mut back = back;
        back.simplify();
        assert_eq!(back, simplified(n, d));
    }
}

#[test]
fn adding_and_taking_away_leaves_the_value() {
    let cases: Vec<((isize, usize), (isize, usize))> = vec![
        ((1, 2), (1, 3)),
        ((2, 4), (5, 6)),
        ((-3, 4), (7, 10)),
        ((0, 9), (4, 6)),
        ((5, 1), (-5, 1)),
        ((7, 12), (1, 18)),
    ];
    for ((n1, d1), (n2, d2)) in cases {
        let a = Fraction::new(n1, d1).unwrap();
        let b = Fraction::new(n2, d2).unwrap();
        let mut back = ((a + b.clone()).unwrap() - b).unwrap();
        back.simplify();
        assert_eq!(back, simplified(n1, d1));
    }
}
