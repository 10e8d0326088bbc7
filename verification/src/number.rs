//! Exact decimal numbers.
//!
//! A [`Number`] is a sign, a magnitude and a count of decimal places: it stands
//! for `± magnitude / 10^scale`. Literals of the modelling language, weights of
//! edges and coefficients of linear models are numbers of this kind, so that
//! none of them is rounded.
use vstd::prelude::*;
use vstd::arithmetic::div_mod::*;
use vstd::arithmetic::mul::*;
use crate::text::{nat_text, padded_nat_text, push_padded_u64, push_u64};

verus! {

/// Ten to the power `k`.
pub open spec fn pow10(k: nat) -> nat
    decreases k,
{
    if k == 0 {
        1
    } else {
        10 * pow10((k - 1) as nat)
    }
}

/// The whole number `n`, for an `n` whose magnitude fits.
pub open spec fn integer_number(n: int) -> Number {
    Number {
        negative: n < 0,
        magnitude: (if n < 0 {
            -n
        } else {
            n
        }) as u64,
        scale: 0,
    }
}

/// The decimal `± magnitude / 10^scale`.
#[derive(Clone, Copy, Debug, PartialEq, Eq, Structural)]
pub struct Number {
    pub negative: bool,
    pub magnitude: u64,
    pub scale: u8,
}

pub proof fn lemma_pow10_positive(k: nat)
    ensures
        pow10(k) > 0,
    decreases k,
{
    if k > 0 {
        lemma_pow10_positive((k - 1) as nat);
    }
}

/// Dividing by ten `k + 1` times is dividing by `10^k` and then by ten.
pub proof fn lemma_pow10_div_step(m: nat, k: nat)
    ensures
        m / pow10(k + 1) == (m / pow10(k)) / 10,
{
    lemma_pow10_positive(k);
    lemma_div_denominator(m as int, pow10(k) as int, 10);
    assert(pow10(k + 1) == 10 * pow10(k));
    assert(pow10(k) * 10 == 10 * pow10(k)) by (nonlinear_arith);
}

/// `10^(k+1)` divides `m` exactly when `10^k` does and the next digit is zero.
pub proof fn lemma_pow10_mod_step(m: nat, k: nat)
    ensures
        m % pow10(k + 1) == 0 <==> (m % pow10(k) == 0 && (m / pow10(k)) % 10 == 0),
{
    lemma_pow10_positive(k);
    let p = pow10(k) as int;
    lemma_mod_breakdown(m as int, p, 10);
    assert(pow10(k + 1) == 10 * pow10(k));
    assert(p * 10 == 10 * p) by (nonlinear_arith);
    let d = (m as int / p) % 10;
    assert(m as int % (p * 10) == p * d + m as int % p);
    assert(0 <= d < 10);
    assert(0 <= m as int % p < p);
    assert(p * d >= 0) by (nonlinear_arith)
        requires
            p > 0,
            d >= 0,
    ;
    if d != 0 {
        assert(p * d > 0) by (nonlinear_arith)
            requires
                p > 0,
                d > 0,
        ;
    } else {
        assert(p * d == 0) by (nonlinear_arith)
            requires
                d == 0,
        ;
    }
}

/// What `10^j` divides, every smaller power of ten divides.
pub proof fn lemma_pow10_mod_lower(m: nat, i: nat, j: nat)
    requires
        i <= j,
        m % pow10(j) == 0,
    ensures
        m % pow10(i) == 0,
    decreases j - i,
{
    if i < j {
        lemma_pow10_mod_step(m, (j - 1) as nat);
        lemma_pow10_mod_lower(m, i, (j - 1) as nat);
    }
}

impl Number {
    /// The number is zero.
    pub open spec fn is_zero_spec(self) -> bool {
        self.magnitude == 0
    }

    /// The number is below zero.
    pub open spec fn is_negative_spec(self) -> bool {
        self.negative && self.magnitude > 0
    }

    /// The number has no fractional part.
    pub open spec fn is_integer_spec(self) -> bool {
        self.magnitude as nat % pow10(self.scale as nat) == 0
    }

    /// The value of a number without fractional part.
    pub open spec fn integer_spec(self) -> int {
        if self.negative {
            -((self.magnitude as nat / pow10(self.scale as nat)) as int)
        } else {
            (self.magnitude as nat / pow10(self.scale as nat)) as int
        }
    }

    /// The same value with the sign turned; zero keeps no sign.
    pub open spec fn negate_spec(self) -> Number {
        Number {
            negative: !self.negative && self.magnitude > 0,
            magnitude: self.magnitude,
            scale: self.scale,
        }
    }

    /// The same value without its sign.
    pub open spec fn abs_spec(self) -> Number {
        Number { negative: false, magnitude: self.magnitude, scale: self.scale }
    }

    /// The same value without trailing zeros among its decimal places.
    pub open spec fn trimmed(self) -> Number
        decreases self.scale,
    {
        if self.scale > 0 && self.magnitude % 10 == 0 {
            Number {
                negative: self.negative,
                magnitude: self.magnitude / 10,
                scale: (self.scale - 1) as u8,
            }.trimmed()
        } else {
            self
        }
    }

    /// The decimal form: a minus sign for a value below zero, the whole part,
    /// and after a point the decimal places that are left once trailing zeros
    /// are dropped.
    pub open spec fn text(self) -> Seq<char> {
        let t = self.trimmed();
        let sign = if t.negative && t.magnitude > 0 {
            seq!['-']
        } else {
            Seq::<char>::empty()
        };
        let whole = nat_text(t.magnitude as nat / pow10(t.scale as nat));
        if t.scale == 0 {
            sign + whole
        } else {
            sign + whole + seq!['.'] + padded_nat_text(t.magnitude as nat, t.scale as nat)
        }
    }

    /// The number with the given sign, magnitude and count of decimal places.
    pub fn new(negative: bool, magnitude: u64, scale: u8) -> (r: Number)
        ensures
            r == (Number { negative, magnitude, scale }),
    {
        Number { negative, magnitude, scale }
    }

    /// Zero.
    pub fn zero() -> (r: Number)
        ensures
            r == (Number { negative: false, magnitude: 0, scale: 0 }),
    {
        Number { negative: false, magnitude: 0, scale: 0 }
    }

    /// One.
    pub fn one() -> (r: Number)
        ensures
            r == (Number { negative: false, magnitude: 1, scale: 0 }),
    {
        Number { negative: false, magnitude: 1, scale: 0 }
    }

    /// The integer `n`.
    pub fn from_integer(n: i64) -> (r: Number)
        ensures
            r == integer_number(n as int),
            r.integer_spec() == n,
            r.is_integer_spec(),
    {
        let magnitude: u64 = if n >= 0 {
            n as u64
        } else if n == i64::MIN {
            9223372036854775808u64
        } else {
            (-n) as u64
        };
        assert(pow10(0) == 1);
        let r = Number { negative: n < 0, magnitude, scale: 0 };
        assert(r.magnitude as nat / 1 == magnitude as nat);
        r
    }

    /// The count `n`.
    pub fn from_usize(n: usize) -> (r: Number)
        ensures
            r == integer_number(n as int),
            r.integer_spec() == n,
            r.is_integer_spec(),
    {
        assert(pow10(0) == 1);
        let r = Number { negative: false, magnitude: n as u64, scale: 0 };
        assert(r.magnitude as nat / 1 == n as nat);
        r
    }

    pub fn is_zero(&self) -> (r: bool)
        ensures
            r == self.is_zero_spec(),
    {
        self.magnitude == 0
    }

    pub fn is_negative(&self) -> (r: bool)
        ensures
            r == self.is_negative_spec(),
    {
        self.negative && self.magnitude > 0
    }

    pub fn negate(&self) -> (r: Number)
        ensures
            r == self.negate_spec(),
    {
        Number {
            negative: !self.negative && self.magnitude > 0,
            magnitude: self.magnitude,
            scale: self.scale,
        }
    }

    pub fn abs(&self) -> (r: Number)
        ensures
            r == self.abs_spec(),
    {
        Number { negative: false, magnitude: self.magnitude, scale: self.scale }
    }

    /// The whole part of the magnitude, if the number has no fractional part.
    pub fn whole_magnitude(&self) -> (r: Option<u64>)
        ensures
            r is Some <==> self.is_integer_spec(),
            r is Some ==> r->Some_0 as nat == self.magnitude as nat / pow10(self.scale as nat),
    {
        let mut cur: u64 = self.magnitude;
        let mut k: u8 = 0;
        assert(pow10(0) == 1);
        while k < self.scale
            invariant
                k <= self.scale,
                cur as nat == self.magnitude as nat / pow10(k as nat),
                self.magnitude as nat % pow10(k as nat) == 0,
            decreases self.scale - k,
        {
            proof {
                lemma_pow10_mod_step(self.magnitude as nat, k as nat);
                lemma_pow10_div_step(self.magnitude as nat, k as nat);
            }
            if cur % 10 != 0 {
                proof {
                    if self.is_integer_spec() {
                        lemma_pow10_mod_lower(
                            self.magnitude as nat,
                            (k + 1) as nat,
                            self.scale as nat,
                        );
                    }
                }
                return None;
            }
            cur = cur / 10;
            k = k + 1;
        }
        Some(cur)
    }

    pub fn is_integer(&self) -> (r: bool)
        ensures
            r == self.is_integer_spec(),
    {
        self.whole_magnitude().is_some()
    }

    /// The value as an `i64`: `None` where the number has a fractional part or
    /// lies outside the range of `i64`.
    pub fn to_i64(&self) -> (r: Option<i64>)
        ensures
            r is Some <==> (self.is_integer_spec() && i64::MIN <= self.integer_spec()
                <= i64::MAX),
            r is Some ==> r->Some_0 == self.integer_spec(),
    {
        match self.whole_magnitude() {
            None => None,
            Some(m) => {
                if self.negative {
                    if m <= 9223372036854775807u64 {
                        Some(-(m as i64))
                    } else if m == 9223372036854775808u64 {
                        Some(i64::MIN)
                    } else {
                        None
                    }
                } else {
                    if m <= 9223372036854775807u64 {
                        Some(m as i64)
                    } else {
                        None
                    }
                }
            },
        }
    }

    /// The value as a `usize`: `None` where the number has a fractional part,
    /// is below zero or lies above the range of `usize`.
    pub fn to_usize(&self) -> (r: Option<usize>)
        ensures
            r is Some <==> (self.is_integer_spec() && 0 <= self.integer_spec() <= usize::MAX),
            r is Some ==> r->Some_0 == self.integer_spec(),
    {
        match self.whole_magnitude() {
            None => None,
            Some(m) => {
                if self.negative && m > 0 {
                    None
                } else if m <= usize::MAX as u64 {
                    Some(m as usize)
                } else {
                    None
                }
            },
        }
    }

    /// The number without trailing zeros among its decimal places.
    pub fn trim(&self) -> (r: Number)
        ensures
            r == self.trimmed(),
    {
        let mut cur = *self;
        while cur.scale > 0 && cur.magnitude % 10 == 0
            invariant
                cur.trimmed() == self.trimmed(),
            decreases cur.scale,
        {
            cur = Number {
                negative: cur.negative,
                magnitude: cur.magnitude / 10,
                scale: cur.scale - 1,
            };
        }
        cur
    }

    /// The decimal form of the number.
    pub fn to_string(&self) -> (r: String)
        ensures
            r@ == self.text(),
    {
        let t = self.trim();
        let mut out = String::new();
        if t.negative && t.magnitude > 0 {
            out.push('-');
        }
        let ghost sign = out@;
        let mut whole: u64 = t.magnitude;
        let mut k: u8 = 0;
        assert(pow10(0) == 1);
        while k < t.scale
            invariant
                k <= t.scale,
                whole as nat == t.magnitude as nat / pow10(k as nat),
            decreases t.scale - k,
        {
            proof {
                lemma_pow10_div_step(t.magnitude as nat, k as nat);
            }
            whole = whole / 10;
            k = k + 1;
        }
        push_u64(&mut out, whole);
        if t.scale > 0 {
            out.push('.');
            push_padded_u64(&mut out, t.magnitude, t.scale);
        }
        proof {
            let w = nat_text(t.magnitude as nat / pow10(t.scale as nat));
            if t.scale == 0 {
                assert(out@ =~= sign + w);
            } else {
                assert(out@ =~= sign + w + seq!['.'] + padded_nat_text(
                    t.magnitude as nat,
                    t.scale as nat,
                ));
            }
            if t.negative && t.magnitude > 0 {
                assert(sign =~= seq!['-']);
            } else {
                assert(sign =~= Seq::<char>::empty());
            }
        }
        out
    }
}

/// The powers of ten grow with the exponent.
pub proof fn lemma_pow10_monotone(i: nat, j: nat)
    requires
        i <= j,
    ensures
        pow10(i) <= pow10(j),
    decreases j - i,
{
    if i < j {
        lemma_pow10_monotone(i, (j - 1) as nat);
        lemma_pow10_positive((j - 1) as nat);
    }
}

/// Ten to the power nineteen, and twenty.
pub proof fn lemma_pow10_values()
    ensures
        pow10(19) == 10000000000000000000,
        pow10(20) == 100000000000000000000,
{
    reveal_with_fuel(pow10, 21);
}

/// The integer `n` with `scale` decimal places, where its magnitude fits.
pub open spec fn from_signed(n: int, scale: nat) -> Option<Number> {
    if -(u64::MAX as int) <= n <= u64::MAX as int && scale <= 255 {
        Some(
            Number {
                negative: n < 0,
                magnitude: (if n < 0 {
                    -n
                } else {
                    n
                }) as u64,
                scale: scale as u8,
            },
        )
    } else {
        None
    }
}

impl Number {
    /// The magnitude with its sign.
    pub open spec fn signed(self) -> int {
        if self.negative {
            -(self.magnitude as int)
        } else {
            self.magnitude as int
        }
    }

    /// The signed magnitude that the number has with `scale` decimal places,
    /// for a `scale` that is not below its own.
    pub open spec fn aligned(self, scale: nat) -> int {
        self.signed() * pow10((scale - self.scale) as nat)
    }

    /// The larger of the two counts of decimal places.
    pub open spec fn common_scale(self, other: Number) -> nat {
        if self.scale >= other.scale {
            self.scale as nat
        } else {
            other.scale as nat
        }
    }

    /// The sum of the two numbers, with the larger of their counts of decimal
    /// places; `None` where its magnitude does not fit.
    pub open spec fn sum(self, other: Number) -> Option<Number> {
        let s = self.common_scale(other);
        from_signed(self.aligned(s) + other.aligned(s), s)
    }

    /// The difference of the two numbers, with the larger of their counts of
    /// decimal places; `None` where its magnitude does not fit.
    pub open spec fn difference(self, other: Number) -> Option<Number> {
        let s = self.common_scale(other);
        from_signed(self.aligned(s) - other.aligned(s), s)
    }

    /// The product of the two numbers, with as many decimal places as the
    /// two together; `None` where its magnitude or that count does not fit.
    pub open spec fn product(self, other: Number) -> Option<Number> {
        from_signed(self.signed() * other.signed(), (self.scale + other.scale) as nat)
    }

    /// The whole part of the magnitude.
    pub open spec fn whole(self) -> nat {
        self.magnitude as nat / pow10(self.scale as nat)
    }

    /// The quotient of two whole numbers, where it is whole; `None` for
    /// a division by zero, for numbers with a fractional part and for a
    /// quotient that is not whole.
    pub open spec fn quotient(self, other: Number) -> Option<Number> {
        if self.is_integer_spec() && other.is_integer_spec() && other.whole() != 0 && self.whole()
            % other.whole() == 0 {
            Some(
                Number {
                    negative: self.negative != other.negative && self.whole() / other.whole() > 0,
                    magnitude: (self.whole() / other.whole()) as u64,
                    scale: 0,
                },
            )
        } else {
            None
        }
    }

    /// The magnitude that the number has with `extra` more decimal places;
    /// `None` where that is not below `10^20 * 2^64`, in which case it is
    /// at least `10^20`.
    fn scaled_magnitude(&self, extra: u8) -> (r: Option<u128>)
        ensures
            match r {
                Some(m) => m == self.magnitude * pow10(extra as nat) && m
                    <= 0xffff_ffff_ffff_ffff * 10000000000000000000,
                None => self.magnitude * pow10(extra as nat) >= 100000000000000000000,
            },
    {
        if self.magnitude == 0 {
            assert(0 * pow10(extra as nat) == 0) by (nonlinear_arith);
            return Some(0);
        }
        if extra >= 20 {
            proof {
                lemma_pow10_values();
                lemma_pow10_monotone(20, extra as nat);
                assert(self.magnitude * pow10(extra as nat) >= pow10(extra as nat))
                    by (nonlinear_arith)
                    requires
                        self.magnitude >= 1,
                ;
            }
            return None;
        }
        let mut p: u128 = 1;
        let mut k: u8 = 0;
        while k < extra
            invariant
                k <= extra,
                extra < 20,
                p == pow10(k as nat),
                p <= 10000000000000000000,
            decreases extra - k,
        {
            proof {
                lemma_pow10_values();
                lemma_pow10_monotone((k + 1) as nat, 19);
            }
            p = p * 10;
            k = k + 1;
        }
        assert(self.magnitude * p <= 0xffff_ffff_ffff_ffff * 10000000000000000000)
            by (nonlinear_arith)
            requires
                self.magnitude <= 0xffff_ffff_ffff_ffff,
                p <= 10000000000000000000,
        ;
        Some((self.magnitude as u128) * p)
    }

    /// The number with the sign `negative` and the magnitude `magnitude`,
    /// where that fits.
    fn from_parts(negative: bool, magnitude: u128, scale: u8) -> (r: Option<Number>)
        ensures
            r == from_signed(
                if negative {
                    -(magnitude as int)
                } else {
                    magnitude as int
                },
                scale as nat,
            ),
    {
        if magnitude <= 0xffff_ffff_ffff_ffff {
            Some(Number { negative: negative && magnitude > 0, magnitude: magnitude as u64, scale })
        } else {
            None
        }
    }

    /// The sum of the two signed magnitudes, with `scale` decimal places.
    fn add_signed(
        left_negative: bool,
        left: Option<u128>,
        right_negative: bool,
        right: Option<u128>,
        scale: u8,
        Ghost(x): Ghost<int>,
        Ghost(y): Ghost<int>,
    ) -> (r: Option<Number>)
        requires
            match left {
                Some(m) => m <= 0xffff_ffff_ffff_ffff * 10000000000000000000 && x == if left_negative {
                    -(m as int)
                } else {
                    m as int
                },
                None => x >= 100000000000000000000 || x <= -100000000000000000000,
            },
            match right {
                Some(m) => m <= 0xffff_ffff_ffff_ffff * 10000000000000000000 && y == if right_negative {
                    -(m as int)
                } else {
                    m as int
                },
                None => y >= 100000000000000000000 || y <= -100000000000000000000,
            },
            (left is Some && left->Some_0 <= 0xffff_ffff_ffff_ffff) || (right is Some
                && right->Some_0 <= 0xffff_ffff_ffff_ffff),
        ensures
            r == from_signed(x + y, scale as nat),
    {
        match (left, right) {
            (Some(a), Some(b)) => {
                if left_negative == right_negative {
                    Number::from_parts(left_negative, a + b, scale)
                } else if a >= b {
                    Number::from_parts(left_negative, a - b, scale)
                } else {
                    Number::from_parts(right_negative, b - a, scale)
                }
            },
            _ => None,
        }
    }

    /// The sum of the two numbers; `None` where its magnitude does not fit.
    pub fn checked_add(&self, other: &Number) -> (r: Option<Number>)
        ensures
            r == self.sum(*other),
    {
        let scale: u8 = if self.scale >= other.scale {
            self.scale
        } else {
            other.scale
        };
        let left = self.scaled_magnitude(scale - self.scale);
        let right = other.scaled_magnitude(scale - other.scale);
        let ghost x = self.aligned(scale as nat);
        let ghost y = other.aligned(scale as nat);
        proof {
            let p = pow10((scale - self.scale) as nat) as int;
            let q = pow10((scale - other.scale) as nat) as int;
            assert((-(self.magnitude as int)) * p == -(self.magnitude * p)) by (nonlinear_arith);
            assert((-(other.magnitude as int)) * q == -(other.magnitude * q)) by (nonlinear_arith);
            assert(pow10(0) == 1);
            assert(self.magnitude * 1 == self.magnitude as int);
            assert(other.magnitude * 1 == other.magnitude as int);
            assert(scale == self.scale || scale == other.scale);
        }
        Number::add_signed(
            self.negative,
            left,
            other.negative,
            right,
            scale,
            Ghost(x),
            Ghost(y),
        )
    }

    /// The difference of the two numbers; `None` where its magnitude does not
    /// fit.
    pub fn checked_sub(&self, other: &Number) -> (r: Option<Number>)
        ensures
            r == self.difference(*other),
    {
        let scale: u8 = if self.scale >= other.scale {
            self.scale
        } else {
            other.scale
        };
        let left = self.scaled_magnitude(scale - self.scale);
        let right = other.scaled_magnitude(scale - other.scale);
        let ghost x = self.aligned(scale as nat);
        let ghost y = other.aligned(scale as nat);
        proof {
            let p = pow10((scale - self.scale) as nat) as int;
            let q = pow10((scale - other.scale) as nat) as int;
            assert((-(self.magnitude as int)) * p == -(self.magnitude * p)) by (nonlinear_arith);
            assert((-(other.magnitude as int)) * q == -(other.magnitude * q)) by (nonlinear_arith);
            assert(pow10(0) == 1);
            assert(self.magnitude * 1 == self.magnitude as int);
            assert(other.magnitude * 1 == other.magnitude as int);
            assert(scale == self.scale || scale == other.scale);
        }
        Number::add_signed(
            self.negative,
            left,
            !other.negative,
            right,
            scale,
            Ghost(x),
            Ghost(-y),
        )
    }

    /// The product of the two numbers; `None` where its magnitude or its
    /// count of decimal places does not fit.
    pub fn checked_mul(&self, other: &Number) -> (r: Option<Number>)
        ensures
            r == self.product(*other),
    {
        if self.scale as u16 + other.scale as u16 > 255 {
            return None;
        }
        let scale: u8 = self.scale + other.scale;
        assert(self.magnitude * other.magnitude <= 0xffff_ffff_ffff_ffff * 0xffff_ffff_ffff_ffff)
            by (nonlinear_arith)
            requires
                self.magnitude <= 0xffff_ffff_ffff_ffff,
                other.magnitude <= 0xffff_ffff_ffff_ffff,
        ;
        let magnitude: u128 = (self.magnitude as u128) * (other.magnitude as u128);
        proof {
            let a = self.magnitude as int;
            let b = other.magnitude as int;
            assert((-a) * b == -(a * b)) by (nonlinear_arith);
            assert(a * (-b) == -(a * b)) by (nonlinear_arith);
            assert((-a) * (-b) == a * b) by (nonlinear_arith);
        }
        Number::from_parts(self.negative != other.negative, magnitude, scale)
    }

    /// The quotient of two whole numbers, where it is whole.
    pub fn checked_div(&self, other: &Number) -> (r: Option<Number>)
        ensures
            r == self.quotient(*other),
    {
        let a = match self.whole_magnitude() {
            Some(a) => a,
            None => {
                return None;
            },
        };
        let b = match other.whole_magnitude() {
            Some(b) => b,
            None => {
                return None;
            },
        };
        if b == 0 {
            return None;
        }
        proof {
            lemma_div_is_ordered_by_denominator(a as int, 1, b as int);
            assert(a as int / 1 == a as int);
            lemma_div_pos_is_pos(a as int, b as int);
        }
        if a % b != 0 {
            return None;
        }
        let q = a / b;
        Some(Number { negative: self.negative != other.negative && q > 0, magnitude: q, scale: 0 })
    }
}

} // verus!
