//! Exact rational numbers.
//!
//! Every coordinate, length and impedance of the chart is a [`Scalar`]: a
//! rational number of arbitrary size, so that sums, products and quotients are
//! exact and the only rounding in the crate is that of square roots, which
//! are cut off on a fixed grid.
//!
//! The arithmetic itself is that of `num`'s `Ratio<BigInt>` and `BigInt`. The
//! private functions named `ratio_*` and `integer_*` below are the only
//! places where it is called, each of them one call; their contracts are
//! taken on trust, and everything else in this file is proved from them.

use num::rational::Ratio;
use num::BigInt;
use num::ToPrimitive;
use vstd::prelude::*;
use vstd::std_specs::cmp::PartialEqSpecImpl;

verus! {

/// `num::BigInt`, an integer of arbitrary size. Nothing is known of a value
/// of it but what `integer_value` says.
#[verifier::external_type_specification]
#[verifier::external_body]
pub struct ExBigInt(BigInt);

/// `num::rational::Ratio`, a fraction in lowest terms. Nothing is known of
/// a value of it but what `ratio_value` says.
#[verifier::external_type_specification]
#[verifier::external_body]
#[verifier::reject_recursive_types(T)]
pub struct ExRatio<T>(Ratio<T>);

/// The rational number that a `Ratio<BigInt>` stands for: its numerator divided
/// by its denominator.
pub uninterp spec fn ratio_value(q: Ratio<BigInt>) -> real;

/// The integer that a `BigInt` stands for.
pub uninterp spec fn integer_value(n: BigInt) -> int;

/// `Ratio::new` on two machine integers widened by `BigInt::from`. The
/// contract claims that the result stands for `n / d`. `Ratio::new` panics on
/// a zero denominator, which `requires` leaves out.
#[verifier::external_body]
fn ratio_new(n: i64, d: i64) -> (q: Ratio<BigInt>)
    requires
        d != 0,
    ensures
        ratio_value(q) == n as real / d as real,
{
    Ratio::new(BigInt::from(n), BigInt::from(d))
}

/// `Clone::clone` of `Ratio<BigInt>`. The contract claims that the copy stands
/// for the same number.
#[verifier::external_body]
fn ratio_clone(a: &Ratio<BigInt>) -> (copy: Ratio<BigInt>)
    ensures
        ratio_value(copy) == ratio_value(*a),
{
    a.clone()
}

/// `&Ratio<BigInt> + &Ratio<BigInt>`. The contract claims that the sum is exact.
#[verifier::external_body]
fn ratio_add(a: &Ratio<BigInt>, b: &Ratio<BigInt>) -> (sum: Ratio<BigInt>)
    ensures
        ratio_value(sum) == ratio_value(*a) + ratio_value(*b),
{
    a + b
}

/// `&Ratio<BigInt> - &Ratio<BigInt>`. The contract claims that the difference
/// is exact.
#[verifier::external_body]
fn ratio_sub(a: &Ratio<BigInt>, b: &Ratio<BigInt>) -> (difference: Ratio<BigInt>)
    ensures
        ratio_value(difference) == ratio_value(*a) - ratio_value(*b),
{
    a - b
}

/// `&Ratio<BigInt> * &Ratio<BigInt>`. The contract claims that the product is
/// exact.
#[verifier::external_body]
fn ratio_mul(a: &Ratio<BigInt>, b: &Ratio<BigInt>) -> (product: Ratio<BigInt>)
    ensures
        ratio_value(product) == ratio_value(*a) * ratio_value(*b),
{
    a * b
}

/// `&Ratio<BigInt> / &Ratio<BigInt>`. The contract claims that the quotient is
/// exact. The division panics on a zero divisor, which `requires` leaves out.
#[verifier::external_body]
fn ratio_div(a: &Ratio<BigInt>, b: &Ratio<BigInt>) -> (quotient: Ratio<BigInt>)
    requires
        ratio_value(*b) != 0real,
    ensures
        ratio_value(quotient) == ratio_value(*a) / ratio_value(*b),
{
    a / b
}

/// `Ratio<BigInt>`'s `<`. The contract claims that it is the order of the
/// numbers that the two ratios stand for.
#[verifier::external_body]
fn ratio_lt(a: &Ratio<BigInt>, b: &Ratio<BigInt>) -> (less: bool)
    ensures
        less == (ratio_value(*a) < ratio_value(*b)),
{
    a < b
}

/// `Ratio<BigInt>`'s `==`. The contract claims that two ratios are equal
/// exactly when they stand for the same number.
#[verifier::external_body]
fn ratio_eq(a: &Ratio<BigInt>, b: &Ratio<BigInt>) -> (equal: bool)
    ensures
        equal == (ratio_value(*a) == ratio_value(*b)),
{
    a == b
}

/// `Ratio::floor`. The contract claims that the result stands for the largest
/// integer that is not above the argument.
#[verifier::external_body]
fn ratio_floor(a: &Ratio<BigInt>) -> (whole: Ratio<BigInt>)
    ensures
        ratio_value(whole) == ratio_value(*a).floor() as real,
{
    a.floor()
}

/// `Ratio::to_integer`. The contract claims that the result is the argument
/// with its fraction cut off, towards zero.
#[verifier::external_body]
fn ratio_to_integer(a: &Ratio<BigInt>) -> (n: BigInt)
    ensures
        integer_value(n) == truncate(ratio_value(*a)),
{
    a.to_integer()
}

/// `Ratio::from_integer`. The contract claims that the ratio stands for the
/// integer.
#[verifier::external_body]
fn ratio_from_integer(n: BigInt) -> (q: Ratio<BigInt>)
    ensures
        ratio_value(q) == integer_value(n) as real,
{
    Ratio::from_integer(n)
}

/// `BigInt::sqrt`, the truncated square root. The contract claims that the
/// result is the integer `m >= 0` with `m * m <= n < (m + 1) * (m + 1)`.
/// `BigInt::sqrt` panics on a negative number, which `requires` leaves out.
#[verifier::external_body]
fn integer_sqrt(n: &BigInt) -> (root: BigInt)
    requires
        integer_value(*n) >= 0,
    ensures
        is_isqrt(integer_value(*n), integer_value(root)),
{
    n.sqrt()
}

/// `ToPrimitive::to_i64` of `BigInt`. The contract claims that the result is
/// the integer where it lies in the range of `i64`, and `None` where it does
/// not.
#[verifier::external_body]
fn integer_to_i64(n: &BigInt) -> (small: Option<i64>)
    ensures
        small is Some <==> i64::MIN <= integer_value(*n) <= i64::MAX,
        small is Some ==> small->Some_0 == integer_value(*n),
{
    n.to_i64()
}

/// A real number with its fraction cut off, towards zero.
pub open spec fn truncate(r: real) -> int {
    if r >= 0real {
        r.floor()
    } else {
        -((-r).floor())
    }
}

/// The number of grid steps in one unit: square roots are cut off to a
/// multiple of `1 / ROOT_GRID`.
pub const ROOT_GRID: i64 = 4294967296;

/// The width of one grid step, `2^-32`.
pub open spec fn root_step() -> real {
    1real / 4294967296real
}

/// Whether `r` is a whole number.
pub open spec fn is_whole(r: real) -> bool {
    r == r.floor() as real
}

/// Whether `m` is the integer square root of `n`, rounded down.
pub open spec fn is_isqrt(n: int, m: int) -> bool {
    m >= 0 && m * m <= n && n < (m + 1) * (m + 1)
}

/// The integer square root, rounded down.
pub open spec fn isqrt(n: int) -> int {
    choose|m: int| is_isqrt(n, m)
}

/// Whether `s` is the square root of `v` cut off on the grid: the largest
/// multiple of `root_step()` whose square is not above `v`.
pub open spec fn is_root_floor(v: real, s: real) -> bool {
    &&& s >= 0real
    &&& is_whole(s * 4294967296real)
    &&& s * s <= v
    &&& v < (s + root_step()) * (s + root_step())
}

/// The square root of `v` cut off on the grid; of a negative `v`, zero.
pub open spec fn root_floor(v: real) -> real {
    if v < 0real {
        0real
    } else {
        isqrt((v * 4294967296real * 4294967296real).floor()) as real / 4294967296real
    }
}

/// Nothing is cut off a whole number.
pub proof fn lemma_truncate_of_whole(n: int)
    ensures
        (n as real).floor() == n,
        truncate(n as real) == n,
{
}

/// Every natural number has an integer square root.
pub proof fn lemma_isqrt_exists(n: int)
    requires
        n >= 0,
    ensures
        is_isqrt(n, isqrt(n)),
    decreases n,
{
    if n == 0 {
        assert(is_isqrt(n, 0));
    } else {
        lemma_isqrt_exists(n - 1);
        let p = isqrt(n - 1);
        if n < (p + 1) * (p + 1) {
            assert(is_isqrt(n, p));
        } else {
            let m = p + 1;
            assert(m * m <= n && n < (m + 1) * (m + 1)) by (nonlinear_arith)
                requires
                    m == p + 1,
                    p >= 0,
                    n - 1 < (p + 1) * (p + 1),
                    n >= (p + 1) * (p + 1),
            ;
            assert(is_isqrt(n, m));
        }
    }
}

/// The integer square root is the only `m` between whose square and whose
/// successor's square `n` lies.
pub proof fn lemma_isqrt_unique(n: int, m: int)
    requires
        m >= 0,
        m * m <= n,
        n < (m + 1) * (m + 1),
    ensures
        isqrt(n) == m,
{
    assert(m * m >= 0) by (nonlinear_arith);
    lemma_isqrt_exists(n);
    let k = isqrt(n);
    assert(k == m) by (nonlinear_arith)
        requires
            m >= 0,
            k >= 0,
            m * m <= n,
            n < (m + 1) * (m + 1),
            k * k <= n,
            n < (k + 1) * (k + 1),
    ;
}

/// `root_floor` of a number that is not negative is its square root cut off
/// on the grid.
pub proof fn lemma_root_floor(v: real)
    requires
        v >= 0real,
    ensures
        is_root_floor(v, root_floor(v)),
{
    let scaled = v * 4294967296real * 4294967296real;
    let n = scaled.floor();
    assert(n >= 0);
    lemma_isqrt_exists(n);
    let m = isqrt(n);
    let s = root_floor(v);
    assert(s == m as real / 4294967296real);
    assert(s * 4294967296real == m as real);
    assert((m as real).floor() == m);
    lemma_grid_root(v, n, m, s);
}

/// From the integer square root of the scaled number to the root on the grid.
proof fn lemma_grid_root(v: real, n: int, m: int, s: real)
    requires
        v >= 0real,
        n == (v * 4294967296real * 4294967296real).floor(),
        m >= 0,
        m * m <= n,
        n < (m + 1) * (m + 1),
        s * 4294967296real == m as real,
    ensures
        is_root_floor(v, s),
{
    let scaled = v * 4294967296real * 4294967296real;
    let mr = m as real;
    assert(n as real <= scaled < n as real + 1real);
    assert(mr * mr == (m * m) as real) by (nonlinear_arith)
        requires
            mr == m as real,
    ;
    assert((mr + 1real) * (mr + 1real) == ((m + 1) * (m + 1)) as real) by (nonlinear_arith)
        requires
            mr == m as real,
    ;
    assert(n + 1 <= (m + 1) * (m + 1));
    assert(mr * mr <= scaled);
    assert(scaled < (mr + 1real) * (mr + 1real));
    assert(s * s <= v) by (nonlinear_arith)
        requires
            s * 4294967296real == mr,
            mr * mr <= v * 4294967296real * 4294967296real,
    ;
    assert(v < (s + root_step()) * (s + root_step())) by (nonlinear_arith)
        requires
            s * 4294967296real == mr,
            root_step() == 1real / 4294967296real,
            v * 4294967296real * 4294967296real < (mr + 1real) * (mr + 1real),
    ;
    assert((s * 4294967296real).floor() == m);
}

/// The square root cut off on the grid is unique.
pub proof fn lemma_root_floor_unique(v: real, s: real)
    requires
        is_root_floor(v, s),
    ensures
        s == root_floor(v),
{
    let scaled = v * 4294967296real * 4294967296real;
    let n = scaled.floor();
    let m = (s * 4294967296real).floor();
    let mr = m as real;
    assert(s * 4294967296real == mr);
    assert(s * s >= 0real) by (nonlinear_arith);
    assert(mr * mr <= scaled) by (nonlinear_arith)
        requires
            s * 4294967296real == mr,
            s * s <= v,
            scaled == v * 4294967296real * 4294967296real,
    ;
    assert(scaled < (mr + 1real) * (mr + 1real)) by (nonlinear_arith)
        requires
            s * 4294967296real == mr,
            root_step() == 1real / 4294967296real,
            v < (s + root_step()) * (s + root_step()),
            scaled == v * 4294967296real * 4294967296real,
    ;
    assert(mr * mr == (m * m) as real) by (nonlinear_arith)
        requires
            mr == m as real,
    ;
    assert((mr + 1real) * (mr + 1real) == ((m + 1) * (m + 1)) as real) by (nonlinear_arith)
        requires
            mr == m as real,
    ;
    assert(n as real <= scaled < n as real + 1real);
    assert(m * m <= n);
    assert(n < (m + 1) * (m + 1));
    lemma_isqrt_unique(n, m);
}

/// An exact rational number. Its view is the number itself.
#[derive(Debug)]
pub struct Scalar {
    pub(crate) q: Ratio<BigInt>,
}

impl View for Scalar {
    type V = real;

    closed spec fn view(&self) -> real {
        ratio_value(self.q)
    }
}

impl Clone for Scalar {
    fn clone(&self) -> (copy: Self)
        ensures
            copy@ == self@,
    {
        Scalar { q: ratio_clone(&self.q) }
    }
}

impl PartialEq for Scalar {
    fn eq(&self, other: &Self) -> (equal: bool) {
        ratio_eq(&self.q, &other.q)
    }
}

impl PartialEqSpecImpl for Scalar {
    open spec fn obeys_eq_spec() -> bool {
        true
    }

    open spec fn eq_spec(&self, other: &Self) -> bool {
        self@ == other@
    }
}

impl Scalar {
    /// The fraction `numer / denom`, or `None` where `denom` is zero.
    pub fn new(numer: i64, denom: i64) -> (r: Option<Scalar>)
        ensures
            r is Some <==> denom != 0,
            r is Some ==> r->Some_0@ == numer as real / denom as real,
    {
        if denom == 0 {
            None
        } else {
            Some(Scalar::ratio(numer, denom))
        }
    }

    /// The fraction `numer / denom`, for a denominator that is not zero.
    pub fn ratio(numer: i64, denom: i64) -> (r: Scalar)
        requires
            denom != 0,
        ensures
            r@ == numer as real / denom as real,
    {
        Scalar { q: ratio_new(numer, denom) }
    }

    /// The whole number `n`.
    pub fn from_int(n: i64) -> (r: Scalar)
        ensures
            r@ == n as real,
    {
        Scalar { q: ratio_new(n, 1) }
    }

    /// `self + other`.
    pub fn plus(&self, other: &Scalar) -> (sum: Scalar)
        ensures
            sum@ == self@ + other@,
    {
        Scalar { q: ratio_add(&self.q, &other.q) }
    }

    /// `self - other`.
    pub fn minus(&self, other: &Scalar) -> (difference: Scalar)
        ensures
            difference@ == self@ - other@,
    {
        Scalar { q: ratio_sub(&self.q, &other.q) }
    }

    /// `self * other`.
    pub fn times(&self, other: &Scalar) -> (product: Scalar)
        ensures
            product@ == self@ * other@,
    {
        Scalar { q: ratio_mul(&self.q, &other.q) }
    }

    /// `self / other`, for a divisor that is not zero.
    pub fn over(&self, other: &Scalar) -> (quotient: Scalar)
        requires
            other@ != 0real,
        ensures
            quotient@ == self@ / other@,
    {
        Scalar { q: ratio_div(&self.q, &other.q) }
    }

    /// `-self`.
    pub fn neg(&self) -> (negated: Scalar)
        ensures
            negated@ == -self@,
    {
        let zero = Scalar::from_int(0);
        zero.minus(self)
    }

    /// Whether `self < other`.
    pub fn lt(&self, other: &Scalar) -> (less: bool)
        ensures
            less == (self@ < other@),
    {
        ratio_lt(&self.q, &other.q)
    }

    /// Whether `self` is zero.
    pub fn is_zero(&self) -> (zero: bool)
        ensures
            zero == (self@ == 0real),
    {
        let nought = Scalar::from_int(0);
        ratio_eq(&self.q, &nought.q)
    }

    /// Whether `self` is below zero.
    pub fn is_negative(&self) -> (negative: bool)
        ensures
            negative == (self@ < 0real),
    {
        let nought = Scalar::from_int(0);
        ratio_lt(&self.q, &nought.q)
    }

    /// The largest whole number that is not above `self`.
    pub fn floor(&self) -> (whole: Scalar)
        ensures
            whole@ == self@.floor() as real,
    {
        Scalar { q: ratio_floor(&self.q) }
    }

    /// `floor(self * scale)` as a machine integer, or `None` where it does not
    /// fit: the way out of exact arithmetic, to a fixed-point number with
    /// `scale` steps in a unit.
    pub fn scaled_floor(&self, scale: i64) -> (n: Option<i64>)
        ensures
            n is Some <==> i64::MIN <= (self@ * scale as real).floor() <= i64::MAX,
            n is Some ==> n->Some_0 == (self@ * scale as real).floor(),
    {
        let factor = Scalar::from_int(scale);
        let scaled = self.times(&factor);
        let whole = scaled.floor();
        proof {
            lemma_truncate_of_whole(scaled@.floor());
        }
        integer_to_i64(&ratio_to_integer(&whole.q))
    }

    /// The square root of `self` cut off on the grid of `root_step()`; zero
    /// where `self` is negative.
    pub fn root_floor(&self) -> (root: Scalar)
        ensures
            root@ == root_floor(self@),
            self@ >= 0real ==> is_root_floor(self@, root@),
    {
        if self.is_negative() {
            return Scalar::from_int(0);
        }
        let grid = Scalar::from_int(ROOT_GRID);
        let scaled = self.times(&grid).times(&grid);
        let whole = ratio_to_integer(&scaled.q);
        let steps = integer_sqrt(&whole);
        let ghost m = integer_value(steps);
        let root = Scalar { q: ratio_from_integer(steps) }.over(&grid);
        proof {
            assert(root@ * 4294967296real == m as real);
            lemma_grid_root(self@, scaled@.floor(), m, root@);
            lemma_root_floor_unique(self@, root@);
        }
        root
    }
}

} // verus!
