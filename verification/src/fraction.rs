//! Exact fractions: what the coefficients of a linear model are, and what
//! the simplex computes with.
//!
//! A [`Fraction`] is a numerator over a denominator above zero, both of 64
//! bits. Its meaning is the real number [`Fraction::value`]. Every operation
//! states its result as a fraction in lowest terms and, by a lemma, as a real
//! number; it gives `None` exactly where that fraction does not fit.
use vstd::prelude::*;
use vstd::arithmetic::div_mod::{lemma_div_pos_is_pos, lemma_fundamental_div_mod};
use vstd::string::*;
use crate::number::{pow10, Number};
use crate::text::int_text;

verus! {

/// The greatest common divisor, by the algorithm of Euclid.
pub open spec fn gcd(a: nat, b: nat) -> nat
    decreases b,
{
    if b == 0 {
        a
    } else {
        gcd(b, a % b)
    }
}

/// The fraction `num / den`.
#[derive(Clone, Copy, Debug, PartialEq, Eq, Structural)]
pub struct Fraction {
    pub num: i64,
    pub den: i64,
}

/// The magnitude of an integer.
pub open spec fn magnitude(n: int) -> nat {
    if n < 0 {
        (-n) as nat
    } else {
        n as nat
    }
}

/// The fraction `n / d` in lowest terms, for a `d` above zero; `None` where
/// its numerator or denominator does not fit.
pub open spec fn reduced(n: int, d: int) -> Option<Fraction> {
    let g = gcd(magnitude(n), d as nat);
    let m = magnitude(n) / g;
    let e = d as nat / g;
    if m <= i64::MAX && e <= i64::MAX {
        Some(
            Fraction {
                num: (if n < 0 {
                    -(m as int)
                } else {
                    m as int
                }) as i64,
                den: e as i64,
            },
        )
    } else {
        None
    }
}

/// The greatest common divisor divides both numbers, and is above zero
/// unless both are zero.
pub proof fn lemma_gcd_divides(a: nat, b: nat)
    ensures
        a > 0 || b > 0 ==> gcd(a, b) > 0,
        gcd(a, b) > 0 ==> a % gcd(a, b) == 0 && b % gcd(a, b) == 0,
    decreases b,
{
    if b > 0 {
        lemma_gcd_divides(b, a % b);
        let g = gcd(a, b) as int;
        assert(g > 0);
        lemma_fundamental_div_mod(a as int, b as int);
        lemma_fundamental_div_mod(b as int, g);
        lemma_fundamental_div_mod((a % b) as int, g);
        let q = a as int / b as int;
        let x = b as int / g;
        let y = (a % b) as int / g;
        assert(b == g * x);
        assert(a % b == g * y);
        assert(a == g * (x * q + y)) by (nonlinear_arith)
            requires
                a == b * q + a % b,
                b == g * x,
                a % b == g * y,
        ;
        vstd::arithmetic::div_mod::lemma_fundamental_div_mod_converse(
            a as int,
            g,
            x * q + y,
            0,
        );
    } else if a > 0 {
        vstd::arithmetic::div_mod::lemma_mod_self_0(a as int);
    }
}

impl Fraction {
    /// The denominator is above zero, and the numerator has a negative that
    /// fits.
    pub open spec fn well_formed(self) -> bool {
        self.den > 0 && self.num > i64::MIN
    }

    /// The real number that the fraction stands for.
    pub open spec fn value(self) -> real {
        self.num as real / self.den as real
    }

    /// The sum of the two fractions.
    pub open spec fn sum(self, other: Fraction) -> Option<Fraction> {
        reduced(self.num * other.den + other.num * self.den, self.den * other.den)
    }

    /// The difference of the two fractions.
    pub open spec fn difference(self, other: Fraction) -> Option<Fraction> {
        reduced(self.num * other.den - other.num * self.den, self.den * other.den)
    }

    /// The product of the two fractions.
    pub open spec fn product(self, other: Fraction) -> Option<Fraction> {
        reduced(self.num * other.num, self.den * other.den)
    }

    /// The quotient of the two fractions; `None` for a division by zero.
    pub open spec fn quotient(self, other: Fraction) -> Option<Fraction> {
        if other.num == 0 {
            None
        } else if other.num > 0 {
            reduced(self.num * other.den, self.den * other.num)
        } else {
            reduced(-(self.num * other.den), -(self.den * other.num))
        }
    }

    /// The text of the fraction: its numerator, and, unless it is one, a
    /// slash and its denominator.
    pub open spec fn text(self) -> Seq<char> {
        if self.den == 1 {
            int_text(self.num as int)
        } else {
            int_text(self.num as int) + "/"@ + int_text(self.den as int)
        }
    }
}

/// The fraction in lowest terms stands for the real number `n / d`.
pub proof fn lemma_reduced_value(n: int, d: int)
    requires
        d > 0,
    ensures
        reduced(n, d) is Some ==> reduced(n, d)->Some_0.well_formed() && reduced(
            n,
            d,
        )->Some_0.value() == n as real / d as real,
{
    let g = gcd(magnitude(n), d as nat) as int;
    lemma_gcd_divides(magnitude(n), d as nat);
    assert(g > 0);
    let m = magnitude(n) as int / g;
    let e = d / g;
    lemma_fundamental_div_mod(magnitude(n) as int, g);
    lemma_fundamental_div_mod(d, g);
    assert(magnitude(n) == g * m);
    assert(d == g * e);
    lemma_div_pos_is_pos(magnitude(n) as int, g);
    assert(e > 0) by (nonlinear_arith)
        requires
            d == g * e,
            d > 0,
            g > 0,
    ;
    if reduced(n, d) is Some {
        let r = reduced(n, d)->Some_0;
        let s: int = if n < 0 {
            -m
        } else {
            m
        };
        assert(r.num == s);
        assert(r.den == e);
        assert(n == g * s) by (nonlinear_arith)
            requires
                magnitude(n) == g * m,
                s == if n < 0 {
                    -m
                } else {
                    m
                },
                magnitude(n) == if n < 0 {
                    -n
                } else {
                    n
                },
        ;
        let gr = g as real;
        let sr = s as real;
        let er = e as real;
        assert(n as real == gr * sr) by (nonlinear_arith)
            requires
                n == g * s,
                gr == g as real,
                sr == s as real,
        ;
        assert(d as real == gr * er) by (nonlinear_arith)
            requires
                d == g * e,
                gr == g as real,
                er == e as real,
        ;
        assert((gr * sr) / (gr * er) == sr / er) by (nonlinear_arith)
            requires
                gr > 0real,
                er > 0real,
        ;
    }
}

/// The sum of two fractions stands for the sum of their values.
pub proof fn lemma_sum_value(a: Fraction, b: Fraction)
    requires
        a.well_formed(),
        b.well_formed(),
    ensures
        a.sum(b) is Some ==> a.sum(b)->Some_0.well_formed() && a.sum(b)->Some_0.value()
            == a.value() + b.value(),
{
    let n = a.num * b.den + b.num * a.den;
    let d = a.den * b.den;
    assert(d > 0) by (nonlinear_arith)
        requires
            a.den > 0,
            b.den > 0,
            d == a.den * b.den,
    ;
    lemma_reduced_value(n, d);
    let an = a.num as real;
    let ad = a.den as real;
    let bn = b.num as real;
    let bd = b.den as real;
    assert(n as real == an * bd + bn * ad) by (nonlinear_arith)
        requires
            n == a.num * b.den + b.num * a.den,
            an == a.num as real,
            ad == a.den as real,
            bn == b.num as real,
            bd == b.den as real,
    ;
    assert(d as real == ad * bd) by (nonlinear_arith)
        requires
            d == a.den * b.den,
            ad == a.den as real,
            bd == b.den as real,
    ;
    assert((an * bd + bn * ad) / (ad * bd) == an / ad + bn / bd) by (nonlinear_arith)
        requires
            ad > 0real,
            bd > 0real,
    ;
}

/// The difference of two fractions stands for the difference of their
/// values.
pub proof fn lemma_difference_value(a: Fraction, b: Fraction)
    requires
        a.well_formed(),
        b.well_formed(),
    ensures
        a.difference(b) is Some ==> a.difference(b)->Some_0.well_formed() && a.difference(
            b,
        )->Some_0.value() == a.value() - b.value(),
{
    let n = a.num * b.den - b.num * a.den;
    let d = a.den * b.den;
    assert(d > 0) by (nonlinear_arith)
        requires
            a.den > 0,
            b.den > 0,
            d == a.den * b.den,
    ;
    lemma_reduced_value(n, d);
    let an = a.num as real;
    let ad = a.den as real;
    let bn = b.num as real;
    let bd = b.den as real;
    assert(n as real == an * bd - bn * ad) by (nonlinear_arith)
        requires
            n == a.num * b.den - b.num * a.den,
            an == a.num as real,
            ad == a.den as real,
            bn == b.num as real,
            bd == b.den as real,
    ;
    assert(d as real == ad * bd) by (nonlinear_arith)
        requires
            d == a.den * b.den,
            ad == a.den as real,
            bd == b.den as real,
    ;
    assert((an * bd - bn * ad) / (ad * bd) == an / ad - bn / bd) by (nonlinear_arith)
        requires
            ad > 0real,
            bd > 0real,
    ;
}

/// The product of two fractions stands for the product of their values.
pub proof fn lemma_product_value(a: Fraction, b: Fraction)
    requires
        a.well_formed(),
        b.well_formed(),
    ensures
        a.product(b) is Some ==> a.product(b)->Some_0.well_formed() && a.product(
            b,
        )->Some_0.value() == a.value() * b.value(),
{
    let n = a.num * b.num;
    let d = a.den * b.den;
    assert(d > 0) by (nonlinear_arith)
        requires
            a.den > 0,
            b.den > 0,
            d == a.den * b.den,
    ;
    lemma_reduced_value(n, d);
    let an = a.num as real;
    let ad = a.den as real;
    let bn = b.num as real;
    let bd = b.den as real;
    assert(n as real == an * bn) by (nonlinear_arith)
        requires
            n == a.num * b.num,
            an == a.num as real,
            bn == b.num as real,
    ;
    assert(d as real == ad * bd) by (nonlinear_arith)
        requires
            d == a.den * b.den,
            ad == a.den as real,
            bd == b.den as real,
    ;
    assert((an * bn) / (ad * bd) == (an / ad) * (bn / bd)) by (nonlinear_arith)
        requires
            ad > 0real,
            bd > 0real,
    ;
}

/// The quotient of two fractions stands for the quotient of their values.
pub proof fn lemma_quotient_value(a: Fraction, b: Fraction)
    requires
        a.well_formed(),
        b.well_formed(),
    ensures
        a.quotient(b) is Some ==> b.value() != 0real && a.quotient(b)->Some_0.well_formed()
            && a.quotient(b)->Some_0.value() == a.value() / b.value(),
{
    if b.num != 0 {
        let n0 = a.num * b.den;
        let d0 = a.den * b.num;
        let n = if b.num > 0 {
            n0
        } else {
            -n0
        };
        let d = if b.num > 0 {
            d0
        } else {
            -d0
        };
        assert(d > 0) by (nonlinear_arith)
            requires
                a.den > 0,
                b.num != 0,
                d0 == a.den * b.num,
                d == if b.num > 0 {
                    d0
                } else {
                    -d0
                },
        ;
        lemma_reduced_value(n, d);
        let an = a.num as real;
        let ad = a.den as real;
        let bn = b.num as real;
        let bd = b.den as real;
        assert(n0 as real == an * bd) by (nonlinear_arith)
            requires
                n0 == a.num * b.den,
                an == a.num as real,
                bd == b.den as real,
        ;
        assert(d0 as real == ad * bn) by (nonlinear_arith)
            requires
                d0 == a.den * b.num,
                ad == a.den as real,
                bn == b.num as real,
        ;
        assert((an * bd) / (ad * bn) == (an / ad) / (bn / bd) && bn / bd != 0real && (-(an
            * bd)) / (-(ad * bn)) == (an * bd) / (ad * bn)) by (nonlinear_arith)
            requires
                ad > 0real,
                bd > 0real,
                bn != 0real,
        ;
    }
}

/// A number over one is the number.
pub proof fn lemma_over_one(n: int)
    ensures
        n as real / 1 as real == n as real,
{
    let x = n as real;
    assert(x / 1real == x) by (nonlinear_arith);
}

/// The greatest common divisor of the two numbers.
fn compute_gcd(a: u128, b: u128) -> (r: u128)
    ensures
        r == gcd(a as nat, b as nat),
{
    let mut x = a;
    let mut y = b;
    while y != 0
        invariant
            gcd(x as nat, y as nat) == gcd(a as nat, b as nat),
        decreases y,
    {
        let t = x % y;
        x = y;
        y = t;
    }
    x
}

/// The fraction `± n / d` in lowest terms.
fn reduce(negative: bool, n: u128, d: u128) -> (r: Option<Fraction>)
    requires
        d > 0,
    ensures
        r == reduced(
            if negative {
                -(n as int)
            } else {
                n as int
            },
            d as int,
        ),
{
    let g = compute_gcd(n, d);
    proof {
        lemma_gcd_divides(n as nat, d as nat);
    }
    let m = n / g;
    let e = d / g;
    if m <= 9223372036854775807u128 && e <= 9223372036854775807u128 {
        let num: i64 = if negative {
            -(m as i64)
        } else {
            m as i64
        };
        Some(Fraction { num, den: e as i64 })
    } else {
        None
    }
}

/// The magnitude of `n`.
fn abs_of(n: i64) -> (r: u128)
    ensures
        r == magnitude(n as int),
        r <= 0x8000_0000_0000_0000,
{
    if n >= 0 {
        n as u128
    } else if n == i64::MIN {
        0x8000_0000_0000_0000u128
    } else {
        (-n) as u128
    }
}

/// The product of two magnitudes of 64 bits.
fn times(a: u128, b: u128) -> (r: u128)
    requires
        a <= 0x8000_0000_0000_0000,
        b <= 0x8000_0000_0000_0000,
    ensures
        r == a * b,
        r <= 0x4000_0000_0000_0000_0000_0000_0000_0000,
{
    assert(a * b <= 0x8000_0000_0000_0000 * 0x8000_0000_0000_0000) by (nonlinear_arith)
        requires
            a <= 0x8000_0000_0000_0000,
            b <= 0x8000_0000_0000_0000,
    ;
    a * b
}

impl Fraction {
    /// The fraction `num / den`, for a denominator above zero.
    pub fn new(num: i64, den: i64) -> (r: Option<Fraction>)
        ensures
            r is Some <==> den > 0 && num > i64::MIN,
            r is Some ==> r->Some_0 == (Fraction { num, den }),
    {
        if den > 0 && num > i64::MIN {
            Some(Fraction { num, den })
        } else {
            None
        }
    }

    /// Zero.
    pub fn zero() -> (r: Fraction)
        ensures
            r == (Fraction { num: 0, den: 1 }),
            r.well_formed(),
            r.value() == 0real,
    {
        proof {
            lemma_over_one(0);
        }
        Fraction { num: 0, den: 1 }
    }

    /// One.
    pub fn one() -> (r: Fraction)
        ensures
            r == (Fraction { num: 1, den: 1 }),
            r.well_formed(),
            r.value() == 1real,
    {
        proof {
            lemma_over_one(1);
        }
        Fraction { num: 1, den: 1 }
    }

    /// The whole number `n`.
    pub fn from_integer(n: i32) -> (r: Fraction)
        ensures
            r == (Fraction { num: n as i64, den: 1 }),
            r.well_formed(),
            r.value() == n as real,
    {
        proof {
            lemma_over_one(n as int);
        }
        Fraction { num: n as i64, den: 1 }
    }

    /// Whether the fraction is zero.
    pub fn is_zero(&self) -> (r: bool)
        requires
            self.well_formed(),
        ensures
            r == (self.num == 0),
            r == (self.value() == 0real),
    {
        proof {
            let n = self.num as real;
            let d = self.den as real;
            assert((n / d == 0real) == (n == 0real)) by (nonlinear_arith)
                requires
                    d > 0real,
            ;
        }
        self.num == 0
    }

    /// Whether the fraction is below zero.
    pub fn is_negative(&self) -> (r: bool)
        requires
            self.well_formed(),
        ensures
            r == (self.num < 0),
            r == (self.value() < 0real),
    {
        proof {
            let n = self.num as real;
            let d = self.den as real;
            assert((n / d < 0real) == (n < 0real)) by (nonlinear_arith)
                requires
                    d > 0real,
            ;
        }
        self.num < 0
    }

    /// Whether the fraction is above zero.
    pub fn is_positive(&self) -> (r: bool)
        requires
            self.well_formed(),
        ensures
            r == (self.num > 0),
            r == (self.value() > 0real),
    {
        proof {
            let n = self.num as real;
            let d = self.den as real;
            assert((n / d > 0real) == (n > 0real)) by (nonlinear_arith)
                requires
                    d > 0real,
            ;
        }
        self.num > 0
    }

    /// The fraction with its sign turned.
    pub fn negate(&self) -> (r: Fraction)
        requires
            self.well_formed(),
        ensures
            r == (Fraction { num: (-self.num) as i64, den: self.den }),
            r.well_formed(),
            r.value() == -self.value(),
    {
        proof {
            let n = self.num as real;
            let d = self.den as real;
            assert((-n) / d == -(n / d)) by (nonlinear_arith)
                requires
                    d > 0real,
            ;
        }
        Fraction { num: -self.num, den: self.den }
    }

    /// Whether the value of this fraction is below that of `other`.
    pub fn less_than(&self, other: &Fraction) -> (r: bool)
        requires
            self.well_formed(),
            other.well_formed(),
        ensures
            r == (self.value() < other.value()),
    {
        proof {
            let an = self.num as real;
            let ad = self.den as real;
            let bn = other.num as real;
            let bd = other.den as real;
            assert((an / ad < bn / bd) == (an * bd < bn * ad)) by (nonlinear_arith)
                requires
                    ad > 0real,
                    bd > 0real,
            ;
            assert((self.num * other.den) as real == an * bd) by (nonlinear_arith)
                requires
                    an == self.num as real,
                    bd == other.den as real,
            ;
            assert((other.num * self.den) as real == bn * ad) by (nonlinear_arith)
                requires
                    bn == other.num as real,
                    ad == self.den as real,
            ;
            assert(-0x4000_0000_0000_0000_0000_0000_0000_0000 <= self.num * other.den
                <= 0x4000_0000_0000_0000_0000_0000_0000_0000) by (nonlinear_arith)
                requires
                    -0x8000_0000_0000_0000 <= self.num <= 0x8000_0000_0000_0000,
                    0 <= other.den <= 0x8000_0000_0000_0000,
            ;
            assert(-0x4000_0000_0000_0000_0000_0000_0000_0000 <= other.num * self.den
                <= 0x4000_0000_0000_0000_0000_0000_0000_0000) by (nonlinear_arith)
                requires
                    -0x8000_0000_0000_0000 <= other.num <= 0x8000_0000_0000_0000,
                    0 <= self.den <= 0x8000_0000_0000_0000,
            ;
        }
        (self.num as i128) * (other.den as i128) < (other.num as i128) * (self.den as i128)
    }

    /// Whether the two fractions have the same value.
    pub fn same_value(&self, other: &Fraction) -> (r: bool)
        requires
            self.well_formed(),
            other.well_formed(),
        ensures
            r == (self.value() == other.value()),
    {
        !self.less_than(other) && !other.less_than(self)
    }

    /// The sum of the two fractions; `None` where it does not fit.
    pub fn add(&self, other: &Fraction) -> (r: Option<Fraction>)
        requires
            self.well_formed(),
            other.well_formed(),
        ensures
            r == self.sum(*other),
            r is Some ==> r->Some_0.well_formed() && r->Some_0.value() == self.value()
                + other.value(),
    {
        proof {
            lemma_sum_value(*self, *other);
        }
        let x = times(abs_of(self.num), abs_of(other.den));
        let y = times(abs_of(other.num), abs_of(self.den));
        let d = times(abs_of(self.den), abs_of(other.den));
        proof {
            assert(d > 0) by (nonlinear_arith)
                requires
                    d == self.den * other.den,
                    self.den > 0,
                    other.den > 0,
            ;
            assert(self.num * other.den == if self.num < 0 {
                -(x as int)
            } else {
                x as int
            }) by (nonlinear_arith)
                requires
                    x == magnitude(self.num as int) * other.den,
                    other.den > 0,
            ;
            assert(other.num * self.den == if other.num < 0 {
                -(y as int)
            } else {
                y as int
            }) by (nonlinear_arith)
                requires
                    y == magnitude(other.num as int) * self.den,
                    self.den > 0,
            ;
        }
        let left_negative = self.num < 0;
        let right_negative = other.num < 0;
        if left_negative == right_negative {
            reduce(left_negative, x + y, d)
        } else if x >= y {
            reduce(left_negative, x - y, d)
        } else {
            reduce(right_negative, y - x, d)
        }
    }

    /// The difference of the two fractions; `None` where it does not fit.
    pub fn sub(&self, other: &Fraction) -> (r: Option<Fraction>)
        requires
            self.well_formed(),
            other.well_formed(),
        ensures
            r == self.difference(*other),
            r is Some ==> r->Some_0.well_formed() && r->Some_0.value() == self.value()
                - other.value(),
    {
        proof {
            lemma_difference_value(*self, *other);
        }
        let x = times(abs_of(self.num), abs_of(other.den));
        let y = times(abs_of(other.num), abs_of(self.den));
        let d = times(abs_of(self.den), abs_of(other.den));
        proof {
            assert(d > 0) by (nonlinear_arith)
                requires
                    d == self.den * other.den,
                    self.den > 0,
                    other.den > 0,
            ;
            assert(self.num * other.den == if self.num < 0 {
                -(x as int)
            } else {
                x as int
            }) by (nonlinear_arith)
                requires
                    x == magnitude(self.num as int) * other.den,
                    other.den > 0,
            ;
            assert(other.num * self.den == if other.num < 0 {
                -(y as int)
            } else {
                y as int
            }) by (nonlinear_arith)
                requires
                    y == magnitude(other.num as int) * self.den,
                    self.den > 0,
            ;
        }
        let left_negative = self.num < 0;
        let right_negative = !(other.num < 0);
        if left_negative == right_negative {
            reduce(left_negative, x + y, d)
        } else if x >= y {
            reduce(left_negative, x - y, d)
        } else {
            reduce(right_negative, y - x, d)
        }
    }

    /// The product of the two fractions; `None` where it does not fit.
    pub fn mul(&self, other: &Fraction) -> (r: Option<Fraction>)
        requires
            self.well_formed(),
            other.well_formed(),
        ensures
            r == self.product(*other),
            r is Some ==> r->Some_0.well_formed() && r->Some_0.value() == self.value()
                * other.value(),
    {
        proof {
            lemma_product_value(*self, *other);
        }
        let n = times(abs_of(self.num), abs_of(other.num));
        let d = times(abs_of(self.den), abs_of(other.den));
        proof {
            assert(d > 0) by (nonlinear_arith)
                requires
                    d == self.den * other.den,
                    self.den > 0,
                    other.den > 0,
            ;
            assert(self.num * other.num == if (self.num < 0) != (other.num < 0) {
                -(n as int)
            } else {
                n as int
            }) by (nonlinear_arith)
                requires
                    n == magnitude(self.num as int) * magnitude(other.num as int),
            ;
        }
        reduce((self.num < 0) != (other.num < 0), n, d)
    }

    /// The quotient of the two fractions; `None` for a division by zero and
    /// where the quotient does not fit.
    pub fn div(&self, other: &Fraction) -> (r: Option<Fraction>)
        requires
            self.well_formed(),
            other.well_formed(),
        ensures
            r == self.quotient(*other),
            r is Some ==> r->Some_0.well_formed() && other.value() != 0real && r->Some_0.value()
                == self.value() / other.value(),
    {
        proof {
            lemma_quotient_value(*self, *other);
        }
        if other.num == 0 {
            return None;
        }
        let n = times(abs_of(self.num), abs_of(other.den));
        let d = times(abs_of(self.den), abs_of(other.num));
        proof {
            assert(d > 0) by (nonlinear_arith)
                requires
                    d == self.den * magnitude(other.num as int),
                    self.den > 0,
                    other.num != 0,
            ;
            assert(self.num * other.den == if self.num < 0 {
                -(n as int)
            } else {
                n as int
            }) by (nonlinear_arith)
                requires
                    n == magnitude(self.num as int) * other.den,
                    other.den > 0,
            ;
            assert(self.den * other.num == if other.num < 0 {
                -(d as int)
            } else {
                d as int
            }) by (nonlinear_arith)
                requires
                    d == self.den * magnitude(other.num as int),
                    self.den > 0,
            ;
        }
        reduce((self.num < 0) != (other.num < 0), n, d)
    }

    /// The fraction that the decimal `n` stands for; `None` where it does
    /// not fit.
    pub fn from_number(n: &Number) -> (r: Option<Fraction>)
        ensures
            r is Some ==> r->Some_0.well_formed(),
            r == if n.scale <= 18 {
                reduced(n.signed(), pow10(n.scale as nat) as int)
            } else {
                None
            },
    {
        if n.scale > 18 {
            return None;
        }
        let mut p: u128 = 1;
        let mut k: u8 = 0;
        while k < n.scale
            invariant
                k <= n.scale,
                n.scale <= 18,
                p == pow10(k as nat),
                p <= 1000000000000000000,
            decreases n.scale - k,
        {
            proof {
                crate::number::lemma_pow10_values();
                crate::number::lemma_pow10_monotone((k + 1) as nat, 18);
                assert(pow10(19) == 10 * pow10(18));
            }
            p = p * 10;
            k = k + 1;
        }
        proof {
            crate::number::lemma_pow10_positive(n.scale as nat);
            lemma_reduced_value(n.signed(), p as int);
        }
        reduce(n.negative, n.magnitude as u128, p)
    }

    /// The text of the fraction.
    pub fn to_string(&self) -> (r: String)
        ensures
            r@ == self.text(),
    {
        let mut out = crate::text::i64_to_string(self.num);
        if self.den != 1 {
            out.append("/");
            out.append(crate::text::i64_to_string(self.den).as_str());
        }
        out
    }
}

} // verus!
