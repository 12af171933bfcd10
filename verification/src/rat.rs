//! Exact fractions over `i128`, always held in lowest terms with a positive
//! denominator.

use vstd::arithmetic::div_mod::{
    lemma_fundamental_div_mod, lemma_mod_multiples_basic, lemma_truncate_middle,
};
use crate::wide::{compare_products, sign};
use std::cmp::Ordering;
use std::ops::{Add, AddAssign, Div, DivAssign, Mul, MulAssign, Neg, Sub, SubAssign};
use vstd::arithmetic::mul::lemma_mul_strictly_positive;
use vstd::prelude::*;
use vstd::std_specs::cmp::PartialOrdSpecImpl;
use vstd::std_specs::convert::FromSpecImpl;
use vstd::std_specs::ops::{AddSpecImpl, DivSpecImpl, MulSpecImpl, NegSpecImpl, SubSpecImpl};

verus! {

/// The absolute value of an integer.
pub open spec fn magnitude(x: int) -> nat {
    if x < 0 {
        (-x) as nat
    } else {
        x as nat
    }
}

/// The greatest common divisor of two naturals, by Euclid's recurrence.
/// `spec_gcd(0, 0)` is `0`.
pub open spec fn spec_gcd(a: nat, b: nat) -> nat
    decreases b,
{
    if b == 0 {
        a
    } else {
        spec_gcd(b, a % b)
    }
}

/// The mathematical value of a fraction: a numerator over a denominator.
pub struct Ratio {
    pub num: int,
    pub den: int,
}

impl Ratio {
    /// Lowest terms with a positive denominator.
    pub open spec fn is_reduced(self) -> bool {
        self.den > 0 && spec_gcd(magnitude(self.num), self.den as nat) == 1
    }

    /// Both parts can be held in an `i128`.
    pub open spec fn fits(self) -> bool {
        i128::MIN <= self.num <= i128::MAX && i128::MIN <= self.den <= i128::MAX
    }

    /// Two fractions denote the same number (for nonzero denominators).
    pub open spec fn same_value(self, other: Ratio) -> bool {
        self.num * other.den == other.num * self.den
    }

    /// The same number in lowest terms.
    pub open spec fn lowest(self) -> Ratio {
        reduced(self.num, self.den)
    }

    /// A fraction that is of machine size, and so is its lowest terms.
    pub open spec fn representable(self) -> bool {
        self.fits() && self.den != 0 && self.lowest().fits()
    }

    /// The sum by cross-multiplication, before reduction.
    pub open spec fn raw_sum(self, other: Ratio) -> Ratio {
        Ratio { num: self.num * other.den + other.num * self.den, den: self.den * other.den }
    }

    /// The difference by cross-multiplication, before reduction.
    pub open spec fn raw_difference(self, other: Ratio) -> Ratio {
        Ratio { num: self.num * other.den - other.num * self.den, den: self.den * other.den }
    }

    /// The product, before reduction.
    pub open spec fn raw_product(self, other: Ratio) -> Ratio {
        Ratio { num: self.num * other.num, den: self.den * other.den }
    }

    /// The quotient, before reduction.
    pub open spec fn raw_quotient(self, other: Ratio) -> Ratio {
        Ratio { num: self.num * other.den, den: self.den * other.num }
    }

    /// The sum, in lowest terms.
    pub open spec fn plus(self, other: Ratio) -> Ratio {
        self.raw_sum(other).lowest()
    }

    /// The difference, in lowest terms.
    pub open spec fn minus(self, other: Ratio) -> Ratio {
        self.raw_difference(other).lowest()
    }

    /// The product, in lowest terms.
    pub open spec fn times(self, other: Ratio) -> Ratio {
        self.raw_product(other).lowest()
    }

    /// The quotient, in lowest terms (for a divisor that is not zero).
    pub open spec fn over(self, other: Ratio) -> Ratio {
        self.raw_quotient(other).lowest()
    }

    /// The fraction of opposite sign.
    pub open spec fn negated(self) -> Ratio {
        Ratio { num: -self.num, den: self.den }
    }

    /// The sum can be computed by cross-multiplication: every product, the
    /// sum of the two and the result are of machine size.
    pub open spec fn sum_fits(self, other: Ratio) -> bool {
        &&& int_fits(self.num * other.den)
        &&& int_fits(other.num * self.den)
        &&& self.raw_sum(other).representable()
    }

    /// The difference can be computed by cross-multiplication.
    pub open spec fn difference_fits(self, other: Ratio) -> bool {
        &&& int_fits(self.num * other.den)
        &&& int_fits(other.num * self.den)
        &&& self.raw_difference(other).representable()
    }

    /// The product can be computed part by part.
    pub open spec fn product_fits(self, other: Ratio) -> bool {
        self.raw_product(other).representable()
    }

    /// The quotient exists and can be computed by cross-multiplication.
    pub open spec fn quotient_fits(self, other: Ratio) -> bool {
        self.raw_quotient(other).representable()
    }

    /// How the two numbers stand to each other, for positive denominators:
    /// by cross-multiplication.
    pub open spec fn order(self, other: Ratio) -> Ordering {
        if self.num * other.den < other.num * self.den {
            Ordering::Less
        } else if self.num * other.den == other.num * self.den {
            Ordering::Equal
        } else {
            Ordering::Greater
        }
    }
}

/// An integer of machine size.
pub open spec fn int_fits(x: int) -> bool {
    i128::MIN <= x <= i128::MAX
}

/// The fraction `num / den` in lowest terms with a positive denominator
/// (meaningful for `den != 0`).
pub open spec fn reduced(num: int, den: int) -> Ratio {
    let g = spec_gcd(magnitude(num), magnitude(den)) as int;
    if (num < 0) != (den < 0) {
        Ratio { num: -(magnitude(num) as int / g), den: magnitude(den) as int / g }
    } else {
        Ratio { num: magnitude(num) as int / g, den: magnitude(den) as int / g }
    }
}

/// `spec_gcd(a, b)` divides both `a` and `b`, and is positive unless both are zero.
pub proof fn lemma_gcd_divides(a: nat, b: nat)
    ensures
        a > 0 || b > 0 ==> spec_gcd(a, b) > 0,
        spec_gcd(a, b) > 0 ==> a % spec_gcd(a, b) == 0 && b % spec_gcd(a, b) == 0,
        spec_gcd(a, b) <= a || a == 0,
        spec_gcd(a, b) <= b || b == 0,
    decreases b,
{
    if b != 0 {
        let r = a % b;
        let g = spec_gcd(b, r);
        lemma_gcd_divides(b, r);
        assert(g > 0);
        // a == b * (a / b) + r, and g divides b and r
        lemma_fundamental_div_mod(a as int, b as int);
        let q = a as int / b as int;
        lemma_fundamental_div_mod(b as int, g as int);
        lemma_fundamental_div_mod(r as int, g as int);
        let bq = b as int / g as int;
        let rq = r as int / g as int;
        assert(b as int == g * bq);
        assert(r as int == g * rq);
        assert(a as int == g * (bq * q + rq)) by (nonlinear_arith)
            requires
                a as int == (b as int) * q + r as int,
                b as int == g * bq,
                r as int == g * rq,
        ;
        lemma_mod_multiples_basic(bq * q + rq, g as int);
        assert((bq * q + rq) * g == g * (bq * q + rq)) by (nonlinear_arith);
        if a > 0 {
            assert(bq * q + rq >= 1) by (nonlinear_arith)
                requires
                    a as int == g * (bq * q + rq),
                    a > 0,
                    g > 0,
            ;
            assert(g <= a) by (nonlinear_arith)
                requires
                    a as int == g * (bq * q + rq),
                    bq * q + rq >= 1,
                    g > 0,
            ;
        }
    }
}

/// Scaling both arguments scales the greatest common divisor.
pub proof fn lemma_gcd_scales(k: nat, a: nat, b: nat)
    requires
        k > 0,
    ensures
        spec_gcd(k * a, k * b) == k * spec_gcd(a, b),
    decreases b,
{
    if b == 0 {
        assert(k * b == 0) by (nonlinear_arith)
            requires
                b == 0,
        ;
    } else {
        lemma_mul_strictly_positive(k as int, b as int);
        lemma_truncate_middle(a as int, k as int, b as int);
        assert((k * a) % (k * b) == k * (a % b));
        lemma_gcd_scales(k, b, a % b);
    }
}

/// Dividing two numbers by their greatest common divisor leaves coprime numbers.
pub proof fn lemma_gcd_quotients_coprime(a: nat, b: nat)
    requires
        a > 0 || b > 0,
    ensures
        spec_gcd(a / spec_gcd(a, b), b / spec_gcd(a, b)) == 1,
{
    let g = spec_gcd(a, b);
    lemma_gcd_divides(a, b);
    lemma_fundamental_div_mod(a as int, g as int);
    lemma_fundamental_div_mod(b as int, g as int);
    let x = a / g;
    let y = b / g;
    assert(g * x == a);
    assert(g * y == b);
    lemma_gcd_scales(g, x, y);
    let h = spec_gcd(x, y);
    assert(g * h == g);
    assert(h == 1) by (nonlinear_arith)
        requires
            g * h == g,
            g > 0,
    ;
}

/// Reduction yields lowest terms, a positive denominator and the same value.
pub proof fn lemma_reduced(num: int, den: int)
    requires
        den != 0,
    ensures
        reduced(num, den).is_reduced(),
        reduced(num, den).same_value(Ratio { num, den }),
        magnitude(reduced(num, den).num) <= magnitude(num),
        reduced(num, den).den <= magnitude(den),
{
    let a = magnitude(num);
    let b = magnitude(den);
    let g = spec_gcd(a, b);
    lemma_gcd_divides(a, b);
    lemma_gcd_quotients_coprime(a, b);
    lemma_fundamental_div_mod(a as int, g as int);
    lemma_fundamental_div_mod(b as int, g as int);
    let x = a as int / g as int;
    let y = b as int / g as int;
    assert(a as int == g * x);
    assert(b as int == g * y);
    assert(y > 0 && x >= 0 && x <= a && y <= b) by (nonlinear_arith)
        requires
            a as int == g * x,
            b as int == g * y,
            g > 0,
            b > 0,
            a >= 0,
    ;
    assert(magnitude(-x) == x as nat);
    // x * b == a * y, since both are g * x * y
    assert(x * (b as int) == (a as int) * y) by (nonlinear_arith)
        requires
            a as int == g * x,
            b as int == g * y,
    ;
    let r = reduced(num, den);
    assert(r.num * den == num * r.den) by (nonlinear_arith)
        requires
            x * (b as int) == (a as int) * y,
            r.den == y,
            (r.num == x && ((num == a && den == b) || (num == -a && den == -b)))
                || (r.num == -x && ((num == -a && den == b) || (num == a && den == -b))),
    ;
}

/// Every common divisor of two numbers divides their greatest common divisor.
pub proof fn lemma_common_divisor_divides_gcd(d: nat, a: nat, b: nat)
    requires
        d > 0,
        a % d == 0,
        b % d == 0,
    ensures
        spec_gcd(a, b) % d == 0,
    decreases b,
{
    if b != 0 {
        let r = a % b;
        let q = a as int / b as int;
        lemma_fundamental_div_mod(a as int, b as int);
        lemma_fundamental_div_mod(a as int, d as int);
        lemma_fundamental_div_mod(b as int, d as int);
        let x = a as int / d as int;
        let y = b as int / d as int;
        assert(r as int == (x - y * q) * d) by (nonlinear_arith)
            requires
                a as int == (b as int) * q + r as int,
                a as int == d * x,
                b as int == d * y,
        ;
        lemma_mod_multiples_basic(x - y * q, d as int);
        lemma_common_divisor_divides_gcd(d, b, r);
    }
}

/// The greatest common divisor does not depend on the order of its arguments.
pub proof fn lemma_gcd_symmetric(a: nat, b: nat)
    ensures
        spec_gcd(a, b) == spec_gcd(b, a),
{
    let g = spec_gcd(a, b);
    let h = spec_gcd(b, a);
    lemma_gcd_divides(a, b);
    lemma_gcd_divides(b, a);
    if a == 0 && b == 0 {
    } else {
        lemma_common_divisor_divides_gcd(g, b, a);
        lemma_common_divisor_divides_gcd(h, a, b);
        lemma_divides_each_other(g, h);
    }
}

/// Two positive numbers that divide each other are equal.
pub proof fn lemma_divides_each_other(a: nat, b: nat)
    requires
        a > 0,
        b > 0,
        a % b == 0,
        b % a == 0,
    ensures
        a == b,
{
    lemma_fundamental_div_mod(a as int, b as int);
    lemma_fundamental_div_mod(b as int, a as int);
    let k = a as int / b as int;
    let m = b as int / a as int;
    assert(a == b) by (nonlinear_arith)
        requires
            a as int == b * k,
            b as int == a * m,
            a > 0,
            b > 0,
    ;
}

/// Euclid's lemma: a number coprime to `b` that divides `b * c` divides `c`.
pub proof fn lemma_coprime_divides(a: nat, b: nat, c: nat)
    requires
        a > 0,
        spec_gcd(a, b) == 1,
        (b * c) % a == 0,
    ensures
        c % a == 0,
{
    if c > 0 {
        lemma_gcd_scales(c, a, b);
        assert(c * spec_gcd(a, b) == c) by (nonlinear_arith)
            requires
                spec_gcd(a, b) == 1,
        ;
        assert(c * b == b * c) by (nonlinear_arith);
        lemma_mod_multiples_basic(c as int, a as int);
        assert(c * a == (c as int) * (a as int));
        lemma_common_divisor_divides_gcd(a, c * a, c * b);
    }
}

/// Two fractions in lowest terms that denote the same number are the same.
pub proof fn lemma_lowest_terms_unique(p: Ratio, q: Ratio)
    requires
        p.is_reduced(),
        q.is_reduced(),
        p.same_value(q),
    ensures
        p == q,
{
    let x1 = magnitude(p.num);
    let x2 = magnitude(q.num);
    let y1 = p.den as nat;
    let y2 = q.den as nat;
    // the magnitudes satisfy the same equation
    assert(x1 * y2 == x2 * y1) by (nonlinear_arith)
        requires
            p.num * q.den == q.num * p.den,
            p.den > 0,
            q.den > 0,
            x1 == if p.num < 0 {
                -p.num
            } else {
                p.num
            },
            x2 == if q.num < 0 {
                -q.num
            } else {
                q.num
            },
            y1 == p.den,
            y2 == q.den,
    ;
    lemma_gcd_symmetric(x1, y1);
    lemma_gcd_symmetric(x2, y2);
    lemma_mod_multiples_basic(x2 as int, y1 as int);
    assert((x1 * y2) % y1 == 0);
    lemma_coprime_divides(y1, x1, y2);
    lemma_mod_multiples_basic(x1 as int, y2 as int);
    assert((x2 * y1) % y2 == 0);
    lemma_coprime_divides(y2, x2, y1);
    lemma_divides_each_other(y1, y2);
    assert(p.num == q.num) by (nonlinear_arith)
        requires
            p.num * q.den == q.num * p.den,
            p.den == q.den,
            p.den > 0,
    ;
}

/// The lowest terms of `num / den` are the one fraction `n / d` in lowest
/// terms that denotes the same number.
pub proof fn lemma_reduced_is(num: int, den: int, n: int, d: int)
    requires
        den != 0,
        d > 0,
        spec_gcd(magnitude(n), d as nat) == 1,
        n * den == num * d,
    ensures
        reduced(num, den) == (Ratio { num: n, den: d }),
{
    let l = reduced(num, den);
    lemma_reduced(num, den);
    assert(l.num * d == n * l.den) by (nonlinear_arith)
        requires
            l.num * den == num * l.den,
            n * den == num * d,
            den != 0,
    ;
    lemma_lowest_terms_unique(l, Ratio { num: n, den: d });
}

/// Fractions that denote the same number have the same lowest terms.
pub proof fn lemma_reduced_canonical(n1: int, d1: int, n2: int, d2: int)
    requires
        d1 != 0,
        d2 != 0,
        n1 * d2 == n2 * d1,
    ensures
        reduced(n1, d1) == reduced(n2, d2),
{
    let r = reduced(n2, d2);
    lemma_reduced(n2, d2);
    assert(r.num * d1 == n1 * r.den) by (nonlinear_arith)
        requires
            r.num * d2 == n2 * r.den,
            n1 * d2 == n2 * d1,
            d2 != 0,
    ;
    lemma_reduced_is(n1, d1, r.num, r.den);
}

/// Fractions in lowest terms are equal as numbers if and only if they are
/// the same fraction: the order by cross-multiplication agrees with `==`.
pub proof fn lemma_order_equal(p: Ratio, q: Ratio)
    requires
        p.is_reduced(),
        q.is_reduced(),
    ensures
        p.order(q) == Ordering::Equal <==> p == q,
{
    if p.order(q) == Ordering::Equal {
        lemma_lowest_terms_unique(p, q);
    }
}

/// The order by cross-multiplication turns around with its arguments.
pub proof fn lemma_order_antisymmetric(p: Ratio, q: Ratio)
    ensures
        p.order(q) == Ordering::Less <==> q.order(p) == Ordering::Greater,
        p.order(q) == Ordering::Equal <==> q.order(p) == Ordering::Equal,
        p.order(q) == Ordering::Greater <==> q.order(p) == Ordering::Less,
{
}

/// The order by cross-multiplication is transitive, for positive
/// denominators.
pub proof fn lemma_order_transitive(p: Ratio, q: Ratio, r: Ratio)
    requires
        p.den > 0,
        q.den > 0,
        r.den > 0,
        p.order(q) != Ordering::Greater,
        q.order(r) != Ordering::Greater,
    ensures
        p.order(r) != Ordering::Greater,
        p.order(q) == Ordering::Less || q.order(r) == Ordering::Less ==> p.order(r)
            == Ordering::Less,
{
    let a = p.num;
    let b = p.den;
    let c = q.num;
    let d = q.den;
    let e = r.num;
    let f = r.den;
    // a*d <= c*b and c*f <= e*d give a*f*d <= e*b*d, and d is positive
    assert(a * d * f <= c * b * f) by (nonlinear_arith)
        requires
            a * d <= c * b,
            f > 0,
    ;
    assert(c * f * b <= e * d * b) by (nonlinear_arith)
        requires
            c * f <= e * d,
            b > 0,
    ;
    assert(c * b * f == c * f * b) by (nonlinear_arith);
    assert(a * d * f == (a * f) * d) by (nonlinear_arith);
    assert(e * d * b == (e * b) * d) by (nonlinear_arith);
    assert(a * f <= e * b) by (nonlinear_arith)
        requires
            (a * f) * d <= (e * b) * d,
            d > 0,
    ;
    if p.order(q) == Ordering::Less {
        assert(a * d * f < c * b * f) by (nonlinear_arith)
            requires
                a * d < c * b,
                f > 0,
        ;
        assert(a * f < e * b) by (nonlinear_arith)
            requires
                (a * f) * d < (e * b) * d,
                d > 0,
        ;
    }
    if q.order(r) == Ordering::Less {
        assert(c * f * b < e * d * b) by (nonlinear_arith)
            requires
                c * f < e * d,
                b > 0,
        ;
        assert(a * f < e * b) by (nonlinear_arith)
            requires
                (a * f) * d < (e * b) * d,
                d > 0,
        ;
    }
}

/// Euclid's algorithm.
pub fn gcd(lhs: u128, rhs: u128) -> (g: u128)
    ensures
        g == spec_gcd(lhs as nat, rhs as nat),
{
    let mut a = lhs;
    let mut b = rhs;
    while b != 0
        invariant
            spec_gcd(a as nat, b as nat) == spec_gcd(lhs as nat, rhs as nat),
        decreases b,
    {
        let r = a % b;
        a = b;
        b = r;
    }
    a
}

/// The magnitude of a signed integer; `i128::MIN` has one too.
fn unsigned_magnitude(x: i128) -> (m: u128)
    ensures
        m == magnitude(x as int),
{
    if x >= 0 {
        x as u128
    } else {
        (-(x + 1)) as u128 + 1
    }
}

/// The parts of `num / den` in lowest terms: whether it is negative, and
/// the magnitudes of its numerator and its denominator.
fn lowest_terms(num: i128, den: i128) -> (r: (bool, u128, u128))
    requires
        den != 0,
    ensures
        r.0 == ((num < 0) != (den < 0)),
        r.2 == reduced(num as int, den as int).den,
        r.1 == magnitude(reduced(num as int, den as int).num),
        r.1 == 0 || r.0 == (reduced(num as int, den as int).num < 0),
{
    let a = unsigned_magnitude(num);
    let b = unsigned_magnitude(den);
    let g = gcd(a, b);
    proof {
        lemma_gcd_divides(a as nat, b as nat);
        lemma_reduced(num as int, den as int);
    }
    ((num < 0) != (den < 0), a / g, b / g)
}

/// Reduces a fraction to lowest terms with a positive denominator.
pub fn simplify(frac: (i128, i128)) -> (r: (i128, i128))
    requires
        frac.1 != 0,
        reduced(frac.0 as int, frac.1 as int).fits(),
    ensures
        r.0 == reduced(frac.0 as int, frac.1 as int).num,
        r.1 == reduced(frac.0 as int, frac.1 as int).den,
{
    let (negative, n, d) = lowest_terms(frac.0, frac.1);
    (signed(negative, n), d as i128)
}

/// The integer of magnitude `n` that is negative if `negative` says so.
fn signed(negative: bool, n: u128) -> (x: i128)
    requires
        n <= i128::MAX || (negative && n == i128::MAX + 1),
    ensures
        x == if negative {
            -(n as int)
        } else {
            n as int
        },
{
    if n == 0 {
        0
    } else if negative {
        -((n - 1) as i128) - 1
    } else {
        n as i128
    }
}

/// An exact fraction in lowest terms.
#[derive(PartialEq, Eq, Structural, Clone, Copy, Debug)]
pub struct Rat {
    num: i128,
    den: i128,
}

impl View for Rat {
    type V = Ratio;

    closed spec fn view(&self) -> Ratio {
        Ratio { num: self.num as int, den: self.den as int }
    }
}

impl Rat {
    /// Lowest terms with a positive denominator: holds of every value that
    /// executable code can get hold of.
    #[verifier::type_invariant]
    pub open spec fn wf(self) -> bool {
        self@.is_reduced()
    }

    /// The fraction whose value is `v`, for a `v` of machine size.
    pub closed spec fn of(v: Ratio) -> Rat {
        Rat { num: v.num as i128, den: v.den as i128 }
    }

    /// `of` and the view are inverse to each other.
    pub proof fn lemma_of_view(v: Ratio)
        requires
            v.fits(),
        ensures
            Rat::of(v)@ == v,
    {
    }

    /// Both parts of any fraction are of machine size.
    pub proof fn lemma_view_fits(self)
        ensures
            self@.fits(),
            Rat::of(self@) == self,
    {
    }

    /// A fraction is determined by its value.
    pub proof fn lemma_view_injective(self, other: Rat)
        requires
            self@ == other@,
        ensures
            self == other,
    {
    }

    /// `num / den` in lowest terms: the one fraction with a positive
    /// denominator and coprime parts that denotes the same number.
    pub fn new(num: i128, den: i128) -> (r: Rat)
        requires
            den != 0,
            reduced(num as int, den as int).fits(),
        ensures
            r@ == reduced(num as int, den as int),
            r@.den > 0,
            spec_gcd(magnitude(r@.num), r@.den as nat) == 1,
            r@.num * den == num * r@.den,
    {
        proof {
            lemma_reduced(num as int, den as int);
        }
        let lowest = simplify((num, den));
        Rat { num: lowest.0, den: lowest.1 }
    }

    /// `num / den` in lowest terms, where that exists and is of machine size.
    pub fn checked_new(num: i128, den: i128) -> (r: Option<Rat>)
        ensures
            r is Some <==> den != 0 && reduced(num as int, den as int).fits(),
            r matches Some(x) ==> x@ == reduced(num as int, den as int),
    {
        if den == 0 {
            return None;
        }
        proof {
            lemma_reduced(num as int, den as int);
        }
        let (negative, n, d) = lowest_terms(num, den);
        if d > i128::MAX as u128 {
            None
        } else if n > i128::MAX as u128 && !negative {
            None
        } else {
            Some(Rat { num: signed(negative, n), den: d as i128 })
        }
    }

    /// The integer `x` as a fraction.
    pub fn from_int(x: i128) -> (r: Rat)
        ensures
            r@ == (Ratio { num: x as int, den: 1 }),
    {
        proof {
            reveal_with_fuel(spec_gcd, 3);
        }
        Rat { num: x, den: 1 }
    }

    pub fn num(self) -> (n: i128)
        ensures
            n == self@.num,
    {
        self.num
    }

    pub fn den(self) -> (d: i128)
        ensures
            d == self@.den,
            d > 0,
    {
        proof {
            use_type_invariant(self);
        }
        self.den
    }
}

impl Rat {
    /// The sum, where it can be computed.
    pub fn checked_add(self, other: Rat) -> (r: Option<Rat>)
        ensures
            r is Some <==> self@.sum_fits(other@),
            r matches Some(x) ==> x@ == self@.plus(other@),
    {
        let left = match self.num.checked_mul(other.den) {
            Some(v) => v,
            None => {
                return None;
            },
        };
        let right = match other.num.checked_mul(self.den) {
            Some(v) => v,
            None => {
                return None;
            },
        };
        let num = match left.checked_add(right) {
            Some(v) => v,
            None => {
                return None;
            },
        };
        let den = match self.den.checked_mul(other.den) {
            Some(v) => v,
            None => {
                return None;
            },
        };
        Rat::checked_new(num, den)
    }

    /// The difference, where it can be computed.
    pub fn checked_sub(self, other: Rat) -> (r: Option<Rat>)
        ensures
            r is Some <==> self@.difference_fits(other@),
            r matches Some(x) ==> x@ == self@.minus(other@),
    {
        let left = match self.num.checked_mul(other.den) {
            Some(v) => v,
            None => {
                return None;
            },
        };
        let right = match other.num.checked_mul(self.den) {
            Some(v) => v,
            None => {
                return None;
            },
        };
        let num = match left.checked_sub(right) {
            Some(v) => v,
            None => {
                return None;
            },
        };
        let den = match self.den.checked_mul(other.den) {
            Some(v) => v,
            None => {
                return None;
            },
        };
        Rat::checked_new(num, den)
    }

    /// The product, where it can be computed.
    pub fn checked_mul(self, other: Rat) -> (r: Option<Rat>)
        ensures
            r is Some <==> self@.product_fits(other@),
            r matches Some(x) ==> x@ == self@.times(other@),
    {
        let num = match self.num.checked_mul(other.num) {
            Some(v) => v,
            None => {
                return None;
            },
        };
        let den = match self.den.checked_mul(other.den) {
            Some(v) => v,
            None => {
                return None;
            },
        };
        Rat::checked_new(num, den)
    }

    /// The quotient, where it exists and can be computed.
    pub fn checked_div(self, other: Rat) -> (r: Option<Rat>)
        ensures
            r is Some <==> self@.quotient_fits(other@),
            r matches Some(x) ==> x@ == self@.over(other@),
    {
        let num = match self.num.checked_mul(other.den) {
            Some(v) => v,
            None => {
                return None;
            },
        };
        let den = match self.den.checked_mul(other.num) {
            Some(v) => v,
            None => {
                return None;
            },
        };
        Rat::checked_new(num, den)
    }

    /// The fraction of opposite sign, where its numerator is of machine size.
    pub fn checked_neg(self) -> (r: Option<Rat>)
        ensures
            r is Some <==> self@.negated().fits(),
            r matches Some(x) ==> x@ == self@.negated(),
    {
        proof {
            use_type_invariant(self);
        }
        if self.num == i128::MIN {
            None
        } else {
            Some(Rat { num: -self.num, den: self.den })
        }
    }

    /// Minus one, zero or one, as `self` is below, equal to or above `other`.
    pub fn signum_of_difference(self, other: Rat) -> (s: i8)
        ensures
            s == sign(self@.num * other@.den - other@.num * self@.den),
    {
        proof {
            use_type_invariant(self);
            use_type_invariant(other);
        }
        let ghost a = self.num as int;
        let ghost b = self.den as int;
        let ghost c = other.num as int;
        let ghost d = other.den as int;
        if self.num < 0 && other.num >= 0 {
            assert(a * d < 0 && c * b >= 0) by (nonlinear_arith)
                requires
                    a < 0,
                    d > 0,
                    c >= 0,
                    b > 0,
            ;
            -1
        } else if self.num >= 0 && other.num < 0 {
            assert(a * d >= 0 && c * b < 0) by (nonlinear_arith)
                requires
                    a >= 0,
                    d > 0,
                    c < 0,
                    b > 0,
            ;
            1
        } else if self.num >= 0 {
            compare_products(
                unsigned_magnitude(self.num),
                unsigned_magnitude(other.den),
                unsigned_magnitude(other.num),
                unsigned_magnitude(self.den),
            )
        } else {
            assert(c * b - a * d == (-a) * d - (-c) * b) by (nonlinear_arith);
            compare_products(
                unsigned_magnitude(other.num),
                unsigned_magnitude(self.den),
                unsigned_magnitude(self.num),
                unsigned_magnitude(other.den),
            )
        }
    }
}

impl From<i128> for Rat {
    fn from(x: i128) -> (r: Rat) {
        Rat::from_int(x)
    }
}

impl FromSpecImpl<i128> for Rat {
    open spec fn obeys_from_spec() -> bool {
        true
    }

    open spec fn from_spec(x: i128) -> Rat {
        Rat::of(Ratio { num: x as int, den: 1 })
    }
}

impl Rat {
    /// How `self` stands to `other`, by cross-multiplication. No product
    /// is too large for it.
    pub fn cmp(&self, other: &Rat) -> (o: Ordering)
        ensures
            o == self@.order(other@),
    {
        let s = self.signum_of_difference(*other);
        if s < 0 {
            Ordering::Less
        } else if s == 0 {
            Ordering::Equal
        } else {
            Ordering::Greater
        }
    }
}

impl PartialOrd for Rat {
    fn partial_cmp(&self, other: &Rat) -> (r: Option<Ordering>) {
        Some(self.cmp(other))
    }
}

impl PartialOrdSpecImpl for Rat {
    open spec fn obeys_partial_cmp_spec() -> bool {
        true
    }

    open spec fn partial_cmp_spec(&self, other: &Rat) -> Option<Ordering> {
        Some(self@.order(other@))
    }
}

impl Add for Rat {
    type Output = Rat;

    fn add(self, other: Rat) -> (r: Rat) {
        let r = self.checked_add(other).unwrap();
        proof {
            Rat::lemma_of_view(self@.plus(other@));
            r.lemma_view_fits();
        }
        r
    }
}

impl AddSpecImpl for Rat {
    open spec fn obeys_add_spec() -> bool {
        true
    }

    open spec fn add_req(self, other: Rat) -> bool {
        self@.sum_fits(other@)
    }

    open spec fn add_spec(self, other: Rat) -> Rat {
        Rat::of(self@.plus(other@))
    }
}

impl Sub for Rat {
    type Output = Rat;

    fn sub(self, other: Rat) -> (r: Rat) {
        let r = self.checked_sub(other).unwrap();
        proof {
            r.lemma_view_fits();
        }
        r
    }
}

impl SubSpecImpl for Rat {
    open spec fn obeys_sub_spec() -> bool {
        true
    }

    open spec fn sub_req(self, other: Rat) -> bool {
        self@.difference_fits(other@)
    }

    open spec fn sub_spec(self, other: Rat) -> Rat {
        Rat::of(self@.minus(other@))
    }
}

impl Mul for Rat {
    type Output = Rat;

    fn mul(self, other: Rat) -> (r: Rat) {
        let r = self.checked_mul(other).unwrap();
        proof {
            r.lemma_view_fits();
        }
        r
    }
}

impl MulSpecImpl for Rat {
    open spec fn obeys_mul_spec() -> bool {
        true
    }

    open spec fn mul_req(self, other: Rat) -> bool {
        self@.product_fits(other@)
    }

    open spec fn mul_spec(self, other: Rat) -> Rat {
        Rat::of(self@.times(other@))
    }
}

impl Div for Rat {
    type Output = Rat;

    fn div(self, other: Rat) -> (r: Rat) {
        let r = self.checked_div(other).unwrap();
        proof {
            r.lemma_view_fits();
        }
        r
    }
}

impl DivSpecImpl for Rat {
    open spec fn obeys_div_spec() -> bool {
        true
    }

    open spec fn div_req(self, other: Rat) -> bool {
        self@.quotient_fits(other@)
    }

    open spec fn div_spec(self, other: Rat) -> Rat {
        Rat::of(self@.over(other@))
    }
}

impl Neg for Rat {
    type Output = Rat;

    fn neg(self) -> (r: Rat) {
        let r = self.checked_neg().unwrap();
        proof {
            r.lemma_view_fits();
        }
        r
    }
}

impl NegSpecImpl for Rat {
    open spec fn obeys_neg_spec() -> bool {
        true
    }

    open spec fn neg_req(self) -> bool {
        self@.negated().fits()
    }

    open spec fn neg_spec(self) -> Rat {
        Rat::of(self@.negated())
    }
}

impl AddAssign for Rat {
    fn add_assign(&mut self, other: Rat)
        requires
            old(self)@.sum_fits(other@),
        ensures
            final(self)@ == old(self)@.plus(other@),
    {
        *self = *self + other;
    }
}

impl SubAssign for Rat {
    fn sub_assign(&mut self, other: Rat)
        requires
            old(self)@.difference_fits(other@),
        ensures
            final(self)@ == old(self)@.minus(other@),
    {
        *self = *self - other;
    }
}

impl MulAssign for Rat {
    fn mul_assign(&mut self, other: Rat)
        requires
            old(self)@.product_fits(other@),
        ensures
            final(self)@ == old(self)@.times(other@),
    {
        *self = *self * other;
    }
}

impl DivAssign for Rat {
    fn div_assign(&mut self, other: Rat)
        requires
            old(self)@.quotient_fits(other@),
        ensures
            final(self)@ == old(self)@.over(other@),
    {
        *self = *self / other;
    }
}

} // verus!
