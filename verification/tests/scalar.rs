use smith_chart::Scalar;

fn frac(n: i64, d: i64) -> Scalar {
    Scalar::new(n, d).expect("denominator is not zero")
}

#[test]
fn new_rejects_zero_denominator() {
    assert!(Scalar::new(1, 0).is_none());
    assert!(Scalar::new(0, 0).is_none());
    assert!(Scalar::new(0, 5).is_some());
}

#[test]
fn new_reduces_fractions() {
    assert_eq!(frac(2, 4), frac(1, 2));
    assert_eq!(frac(-3, -6), frac(1, 2));
    assert_eq!(frac(3, -6), frac(-1, 2));
    assert_ne!(frac(1, 2), frac(1, 3));
}

#[test]
fn ratio_and_from_int_agree() {
    assert_eq!(Scalar::ratio(6, 3), Scalar::from_int(2));
    assert_eq!(Scalar::ratio(-7, 1), Scalar::from_int(-7));
}

#[test]
fn plus_is_exact() {
    assert_eq!(frac(1, 2).plus(&frac(1, 3)), frac(5, 6));
    assert_eq!(frac(1, 10).plus(&frac(2, 10)), frac(3, 10));
}

#[test]
fn minus_is_exact() {
    assert_eq!(frac(1, 2).minus(&frac(1, 3)), frac(1, 6));
    assert_eq!(frac(1, 3).minus(&frac(1, 2)), frac(-1, 6));
}

#[test]
fn times_is_exact() {
    assert_eq!(frac(2, 3).times(&frac(3, 4)), frac(1, 2));
    assert_eq!(frac(-2, 3).times(&frac(3, 4)), frac(-1, 2));
}

#[test]
fn over_is_exact() {
    assert_eq!(frac(1, 2).over(&frac(3, 4)), frac(2, 3));
    assert_eq!(Scalar::from_int(1).over(&Scalar::from_int(3)), frac(1, 3));
}

#[test]
fn neg_changes_the_sign() {
    assert_eq!(frac(1, 2).neg(), frac(-1, 2));
    assert_eq!(Scalar::from_int(0).neg(), Scalar::from_int(0));
}

#[test]
fn lt_orders_the_numbers() {
    assert!(frac(1, 3).lt(&frac(1, 2)));
    assert!(!frac(1, 2).lt(&frac(1, 3)));
    assert!(!frac(1, 2).lt(&frac(2, 4)));
    assert!(frac(-1, 2).lt(&frac(-1, 3)));
}

#[test]
fn zero_and_sign_tests() {
    assert!(Scalar::from_int(0).is_zero());
    assert!(!frac(1, 1000).is_zero());
    assert!(frac(-1, 1000).is_negative());
    assert!(!Scalar::from_int(0).is_negative());
    assert!(!frac(1, 1000).is_negative());
}

#[test]
fn clone_keeps_the_number() {
    let a = frac(22, 7);
    assert_eq!(a.clone(), a);
}

#[test]
fn floor_rounds_down() {
    assert_eq!(frac(7, 2).floor(), Scalar::from_int(3));
    assert_eq!(frac(-7, 2).floor(), Scalar::from_int(-4));
    assert_eq!(Scalar::from_int(5).floor(), Scalar::from_int(5));
}

#[test]
fn scaled_floor_gives_fixed_point() {
    assert_eq!(frac(1, 3).scaled_floor(1000), Some(333));
    assert_eq!(frac(-1, 3).scaled_floor(1000), Some(-334));
    assert_eq!(frac(5, 2).scaled_floor(65536), Some(163840));
    assert_eq!(Scalar::from_int(7).scaled_floor(1), Some(7));
}

#[test]
fn scaled_floor_reports_overflow() {
    let big = Scalar::from_int(i64::MAX);
    assert_eq!(big.scaled_floor(1), Some(i64::MAX));
    assert_eq!(big.scaled_floor(2), None);
    assert_eq!(Scalar::from_int(i64::MIN).scaled_floor(1), Some(i64::MIN));
    assert_eq!(Scalar::from_int(i64::MIN).scaled_floor(2), None);
}

#[test]
fn root_floor_of_squares_is_exact() {
    assert_eq!(frac(1, 4).root_floor(), frac(1, 2));
    assert_eq!(Scalar::from_int(9).root_floor(), Scalar::from_int(3));
    assert_eq!(Scalar::from_int(0).root_floor(), Scalar::from_int(0));
    assert_eq!(Scalar::from_int(1).root_floor(), Scalar::from_int(1));
}

#[test]
fn root_floor_is_cut_off_on_the_grid() {
    assert_eq!(Scalar::from_int(2).root_floor(), frac(6074000999, 4294967296));
    assert_eq!(frac(3, 4).root_floor(), frac(1859775393, 2147483648));
}

#[test]
fn root_floor_brackets_the_root() {
    let v = Scalar::from_int(2);
    let s = v.root_floor();
    let next = s.plus(&frac(1, 4294967296));
    assert!(!v.lt(&s.times(&s)));
    assert!(v.lt(&next.times(&next)));
}

#[test]
fn root_floor_of_a_negative_number_is_zero() {
    assert_eq!(frac(-1, 1000000).root_floor(), Scalar::from_int(0));
    assert_eq!(Scalar::from_int(-4).root_floor(), Scalar::from_int(0));
}
