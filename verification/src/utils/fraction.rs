//! Fractions of natural numbers, compared without multiplying.

use vstd::prelude::*;
use vstd::arithmetic::div_mod::{lemma_fundamental_div_mod, lemma_mod_bound};

verus! {

/// A fraction with a positive denominator, as contracts see it.
pub struct Fraction {
    pub numerator: int,
    pub denominator: int,
}

impl Fraction {
    /// `self` is the smaller number. Both denominators are taken to be
    /// positive.
    pub open spec fn less_than(self, other: Fraction) -> bool {
        self.numerator * other.denominator < other.numerator * self.denominator
    }

    /// The fraction lies between 0 and 1, ends included.
    pub open spec fn is_unit_share(self) -> bool {
        0 <= self.numerator <= self.denominator && 0 < self.denominator
    }
}

/// Whether `n1 / d1` is less than `n2 / d2`. The cross products may not
/// fit in any machine integer, so the two are compared as continued
/// fractions: by their integer parts, and on a tie by the inverses of
/// what is left.
pub(crate) fn fraction_less(n1: u128, d1: u128, n2: u128, d2: u128) -> (less: bool)
    requires
        d1 > 0,
        d2 > 0,
    ensures
        less == (Fraction { numerator: n1 as int, denominator: d1 as int }).less_than(
            Fraction { numerator: n2 as int, denominator: d2 as int },
        ),
{
    let mut a: u128 = n1;
    let mut b: u128 = d1;
    let mut c: u128 = n2;
    let mut d: u128 = d2;
    loop
        invariant
            b > 0,
            d > 0,
            (a * d < c * b) == (n1 * d2 < n2 * d1),
        decreases b + d,
    {
        let whole_left: u128 = a / b;
        let rest_left: u128 = a % b;
        let whole_right: u128 = c / d;
        let rest_right: u128 = c % d;
        proof {
            lemma_fundamental_div_mod(a as int, b as int);
            lemma_fundamental_div_mod(c as int, d as int);
            lemma_mod_bound(a as int, b as int);
            lemma_mod_bound(c as int, d as int);
            lemma_compare_by_parts(
                a as int,
                b as int,
                c as int,
                d as int,
                whole_left as int,
                rest_left as int,
                whole_right as int,
                rest_right as int,
            );
        }
        if whole_left != whole_right {
            return whole_left < whole_right;
        }
        if rest_right == 0 {
            return false;
        }
        if rest_left == 0 {
            return true;
        }
        a = d;
        c = b;
        b = rest_right;
        d = rest_left;
    }
}

/// If `x` is less than `y`, and `z` is not less than `y`, then `x` is less
/// than `z`.
pub proof fn lemma_order_is_transitive(x: Fraction, y: Fraction, z: Fraction)
    requires
        x.denominator > 0,
        y.denominator > 0,
        z.denominator > 0,
        x.less_than(y),
        !z.less_than(y),
    ensures
        x.less_than(z),
{
    let xz = x.numerator * z.denominator;
    let zx = z.numerator * x.denominator;
    // x.n·y.d < y.n·x.d and y.n·z.d ≤ z.n·y.d.
    assert((x.numerator * y.denominator) * z.denominator < (y.numerator * x.denominator)
        * z.denominator) by (nonlinear_arith)
        requires
            x.numerator * y.denominator < y.numerator * x.denominator,
            z.denominator > 0,
    ;
    assert((y.numerator * z.denominator) * x.denominator <= (z.numerator * y.denominator)
        * x.denominator) by (nonlinear_arith)
        requires
            y.numerator * z.denominator <= z.numerator * y.denominator,
            x.denominator > 0,
    ;
    assert((x.numerator * y.denominator) * z.denominator == xz * y.denominator)
        by (nonlinear_arith)
        requires
            xz == x.numerator * z.denominator,
    ;
    assert((y.numerator * x.denominator) * z.denominator == (y.numerator * z.denominator)
        * x.denominator) by (nonlinear_arith);
    assert((z.numerator * y.denominator) * x.denominator == zx * y.denominator)
        by (nonlinear_arith)
        requires
            zx == z.numerator * x.denominator,
    ;
    assert(xz < zx) by (nonlinear_arith)
        requires
            xz * y.denominator < zx * y.denominator,
            y.denominator > 0,
    ;
}

/// How two fractions compare, given the integer part and the rest of
/// each: the integer parts decide; when they are equal, the rests do, and
/// comparing the rests is comparing their inverses the other way round.
proof fn lemma_compare_by_parts(
    a: int,
    b: int,
    c: int,
    d: int,
    whole_left: int,
    rest_left: int,
    whole_right: int,
    rest_right: int,
)
    requires
        b > 0,
        d > 0,
        a == b * whole_left + rest_left,
        c == d * whole_right + rest_right,
        0 <= rest_left < b,
        0 <= rest_right < d,
    ensures
        whole_left < whole_right ==> a * d < c * b,
        whole_left > whole_right ==> !(a * d < c * b),
        whole_left == whole_right ==> (a * d < c * b) == (rest_left * d < rest_right * b),
        rest_right == 0 ==> !(rest_left * d < rest_right * b),
        rest_left == 0 && rest_right > 0 ==> rest_left * d < rest_right * b,
        (d * rest_left < b * rest_right) == (rest_left * d < rest_right * b),
{
    assert(a * d == whole_left * (b * d) + rest_left * d) by (nonlinear_arith)
        requires
            a == b * whole_left + rest_left,
    ;
    assert(c * b == whole_right * (b * d) + rest_right * b) by (nonlinear_arith)
        requires
            c == d * whole_right + rest_right,
    ;
    assert(0 <= rest_left * d < b * d && 0 <= rest_right * b < b * d) by (nonlinear_arith)
        requires
            b > 0,
            d > 0,
            0 <= rest_left < b,
            0 <= rest_right < d,
    ;
    let unit = b * d;
    if whole_left < whole_right {
        assert(whole_left * unit + unit <= whole_right * unit) by (nonlinear_arith)
            requires
                whole_left + 1 <= whole_right,
                unit > 0,
        ;
    }
    if whole_left > whole_right {
        assert(whole_right * unit + unit <= whole_left * unit) by (nonlinear_arith)
            requires
                whole_right + 1 <= whole_left,
                unit > 0,
        ;
    }
    assert(d * rest_left == rest_left * d) by (nonlinear_arith);
    assert(b * rest_right == rest_right * b) by (nonlinear_arith);
    if rest_left == 0 && rest_right > 0 {
        assert(rest_right * b > 0) by (nonlinear_arith)
            requires
                rest_right > 0,
                b > 0,
        ;
    }
}

} // verus!
