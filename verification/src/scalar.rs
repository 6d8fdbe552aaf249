//! Exact scalar arithmetic: a `Scalar` is a fraction of two 64-bit integers
//! with a positive denominator. Its mathematical value is the unbounded
//! rational `Rat`, and every operation is specified against that model.

use vstd::prelude::*;

verus! {

/// The mathematical value of a scalar: a fraction `n / d` of unbounded
/// integers. Two values denote the same rational when they cross-multiply
/// equally; see `rat_eq`.
pub struct Rat {
    pub n: int,
    pub d: int,
}

/// A rational is meaningful only when its denominator is nonzero.
pub open spec fn rat_wf(a: Rat) -> bool {
    a.d != 0
}

/// `a` and `b` denote the same rational number: `a.n / a.d == b.n / b.d`,
/// stated by cross-multiplication so that it needs no division.
pub open spec fn rat_eq(a: Rat, b: Rat) -> bool {
    a.n * b.d == b.n * a.d
}

pub open spec fn rat_zero() -> Rat {
    Rat { n: 0, d: 1 }
}

pub open spec fn rat_one() -> Rat {
    Rat { n: 1, d: 1 }
}

pub open spec fn rat_add(a: Rat, b: Rat) -> Rat {
    Rat { n: a.n * b.d + b.n * a.d, d: a.d * b.d }
}

pub open spec fn rat_sub(a: Rat, b: Rat) -> Rat {
    Rat { n: a.n * b.d - b.n * a.d, d: a.d * b.d }
}

pub open spec fn rat_mul(a: Rat, b: Rat) -> Rat {
    Rat { n: a.n * b.n, d: a.d * b.d }
}

pub open spec fn rat_neg(a: Rat) -> Rat {
    Rat { n: -a.n, d: a.d }
}

/// Division `a / b`, as multiplication by the reciprocal of `b`. The sign is
/// normalized into the numerator so that a positive denominator stays
/// positive.
pub open spec fn rat_div(a: Rat, b: Rat) -> Rat {
    if b.n < 0 {
        Rat { n: -(a.n * b.d), d: -(a.d * b.n) }
    } else {
        Rat { n: a.n * b.d, d: a.d * b.n }
    }
}

/// `x` fits in a 64-bit signed integer.
pub open spec fn in_i64(x: int) -> bool {
    -0x8000_0000_0000_0000 <= x <= 0x7fff_ffff_ffff_ffff
}

/// Both parts of `a` fit in 64-bit signed integers, so `a` is representable
/// as a `Scalar`.
pub open spec fn rat_in_range(a: Rat) -> bool {
    in_i64(a.n) && in_i64(a.d)
}

/// The product of a 64-bit value with a positive 64-bit value stays within
/// `2^126 - 2^63` of zero, so sums of two such products fit in an `i128`.
pub proof fn lemma_mul_i64_by_pos(x: int, d: int)
    by (nonlinear_arith)
    requires
        in_i64(x),
        1 <= d <= 0x7fff_ffff_ffff_ffff,
    ensures
        -(0x8000_0000_0000_0000 * 0x7fff_ffff_ffff_ffff) <= x * d
            <= 0x8000_0000_0000_0000 * 0x7fff_ffff_ffff_ffff,
{
}

/// The product of two 64-bit values stays within `2^126` of zero.
pub proof fn lemma_mul_i64_i64(x: int, y: int)
    by (nonlinear_arith)
    requires
        in_i64(x),
        in_i64(y),
    ensures
        -0x4000_0000_0000_0000_0000_0000_0000_0000 <= x * y
            <= 0x4000_0000_0000_0000_0000_0000_0000_0000,
{
}

/// A product of nonzero factors is nonzero.
pub proof fn lemma_mul_nonzero(x: int, y: int)
    by (nonlinear_arith)
    requires
        x != 0,
        y != 0,
    ensures
        x * y != 0,
{
}

/// The product of two positive values is positive.
pub proof fn lemma_mul_pos_pos(x: int, y: int)
    by (nonlinear_arith)
    requires
        x > 0,
        y > 0,
    ensures
        x * y > 0,
{
}

/// Addition of rationals is commutative.
pub proof fn lemma_rat_add_comm(a: Rat, b: Rat)
    by (nonlinear_arith)
    requires
        rat_wf(a),
        rat_wf(b),
    ensures
        rat_eq(rat_add(a, b), rat_add(b, a)),
{
}

/// Multiplication of rationals is commutative.
pub proof fn lemma_rat_mul_comm(a: Rat, b: Rat)
    by (nonlinear_arith)
    requires
        rat_wf(a),
        rat_wf(b),
    ensures
        rat_eq(rat_mul(a, b), rat_mul(b, a)),
{
}

/// A rational minus itself is zero.
pub proof fn lemma_rat_sub_self(a: Rat)
    by (nonlinear_arith)
    requires
        rat_wf(a),
    ensures
        rat_eq(rat_sub(a, a), rat_zero()),
{
}

/// Negation is its own inverse, exactly, representation included.
pub proof fn lemma_rat_neg_neg(a: Rat)
    ensures
        rat_neg(rat_neg(a)) == a,
{
}

/// Dividing by a nonzero rational undoes multiplying by it.
pub proof fn lemma_rat_div_mul(a: Rat, s: Rat)
    by (nonlinear_arith)
    requires
        rat_wf(a),
        rat_wf(s),
        s.n != 0,
    ensures
        rat_eq(rat_div(rat_mul(a, s), s), a),
{
}

/// The square of a rational is nonnegative, with a positive denominator.
pub proof fn lemma_rat_square_nonneg(a: Rat)
    by (nonlinear_arith)
    requires
        rat_wf(a),
    ensures
        rat_mul(a, a).n >= 0,
        rat_mul(a, a).d > 0,
{
}

/// Adding two nonnegative rationals gives a nonnegative rational.
pub proof fn lemma_rat_add_nonneg(a: Rat, b: Rat)
    by (nonlinear_arith)
    requires
        a.n >= 0,
        a.d > 0,
        b.n >= 0,
        b.d > 0,
    ensures
        rat_add(a, b).n >= 0,
        rat_add(a, b).d > 0,
{
}

/// Denoting the same rational is transitive (through a well-formed middle
/// value).
pub proof fn lemma_rat_eq_trans(a: Rat, b: Rat, c: Rat)
    by (nonlinear_arith)
    requires
        rat_wf(a),
        rat_wf(b),
        rat_wf(c),
        rat_eq(a, b),
        rat_eq(b, c),
    ensures
        rat_eq(a, c),
{
}

/// Addition respects rational equality in its left addend.
proof fn lemma_rat_add_cong_left(a: Rat, a2: Rat, b: Rat)
    requires
        rat_wf(a),
        rat_wf(a2),
        rat_wf(b),
        rat_eq(a, a2),
    ensures
        rat_eq(rat_add(a, b), rat_add(a2, b)),
{
    assert((a.n * b.d + b.n * a.d) * (a2.d * b.d) == (a.n * b.d) * (a2.d * b.d) + (b.n * a.d) * (
    a2.d * b.d)) by (nonlinear_arith);
    assert((a.n * b.d) * (a2.d * b.d) == (a.n * a2.d) * (b.d * b.d)) by (nonlinear_arith);
    assert((a2.n * a.d) * (b.d * b.d) == (a2.n * b.d) * (a.d * b.d)) by (nonlinear_arith);
    assert((b.n * a.d) * (a2.d * b.d) == (b.n * a2.d) * (a.d * b.d)) by (nonlinear_arith);
    assert((a2.n * b.d + b.n * a2.d) * (a.d * b.d) == (a2.n * b.d) * (a.d * b.d) + (b.n * a2.d) * (
    a.d * b.d)) by (nonlinear_arith);
}

/// Addition respects rational equality in its right addend.
proof fn lemma_rat_add_cong_right(a: Rat, b: Rat, b2: Rat)
    requires
        rat_wf(a),
        rat_wf(b),
        rat_wf(b2),
        rat_eq(b, b2),
    ensures
        rat_eq(rat_add(a, b), rat_add(a, b2)),
{
    assert((a.n * b.d + b.n * a.d) * (a.d * b2.d) == (a.n * b.d) * (a.d * b2.d) + (b.n * a.d) * (
    a.d * b2.d)) by (nonlinear_arith);
    assert((a.n * b.d) * (a.d * b2.d) == (a.n * b2.d) * (a.d * b.d)) by (nonlinear_arith);
    assert((b.n * a.d) * (a.d * b2.d) == (b.n * b2.d) * (a.d * a.d)) by (nonlinear_arith);
    assert((b2.n * b.d) * (a.d * a.d) == (b2.n * a.d) * (a.d * b.d)) by (nonlinear_arith);
    assert((a.n * b2.d + b2.n * a.d) * (a.d * b.d) == (a.n * b2.d) * (a.d * b.d) + (b2.n * a.d) * (
    a.d * b.d)) by (nonlinear_arith);
}

/// Addition respects rational equality: equal addends give equal sums.
pub proof fn lemma_rat_add_cong(a: Rat, a2: Rat, b: Rat, b2: Rat)
    requires
        rat_wf(a),
        rat_wf(a2),
        rat_wf(b),
        rat_wf(b2),
        rat_eq(a, a2),
        rat_eq(b, b2),
    ensures
        rat_eq(rat_add(a, b), rat_add(a2, b2)),
{
    lemma_rat_add_cong_left(a, a2, b);
    lemma_rat_add_cong_right(a2, b, b2);
    lemma_mul_nonzero(a.d, b.d);
    lemma_mul_nonzero(a2.d, b.d);
    lemma_mul_nonzero(a2.d, b2.d);
    lemma_rat_eq_trans(rat_add(a, b), rat_add(a2, b), rat_add(a2, b2));
}

/// The square of a quotient is the quotient of the squares.
pub proof fn lemma_rat_div_square(p: Rat, l: Rat)
    by (nonlinear_arith)
    requires
        rat_wf(p),
        rat_wf(l),
        l.n != 0,
    ensures
        rat_eq(rat_mul(rat_div(p, l), rat_div(p, l)), rat_div(rat_mul(p, p), rat_mul(l, l))),
{
}

/// One distributed term of the cross-multiplication behind
/// `lemma_rat_div_add`, reassociated.
#[verifier::rlimit(100)]
proof fn lemma_div_add_shuffle(xn: int, xd: int, yd: int, sn: int, sd: int)
    by (nonlinear_arith)
    ensures
        ((xn * sd) * (yd * sn)) * ((xd * yd) * sn) == ((xn * yd) * sd) * ((xd * sn) * (yd * sn)),
{
}

/// Quotients over one divisor add into a quotient of the sum.
pub proof fn lemma_rat_div_add(p: Rat, q: Rat, s: Rat)
    requires
        rat_wf(p),
        rat_wf(q),
        rat_wf(s),
        s.n != 0,
    ensures
        rat_eq(rat_add(rat_div(p, s), rat_div(q, s)), rat_div(rat_add(p, q), s)),
{
    // Each distributed term of the cross-multiplication reassociates into
    // its counterpart.
    lemma_div_add_shuffle(p.n, p.d, q.d, s.n, s.d);
    lemma_div_add_shuffle(q.n, q.d, p.d, s.n, s.d);
    assert(((q.n * s.d) * (p.d * s.n)) * ((p.d * q.d) * s.n) == ((q.n * s.d) * (p.d * s.n)) * ((q.d
        * p.d) * s.n)) by (nonlinear_arith);
    assert(((q.n * p.d) * s.d) * ((q.d * s.n) * (p.d * s.n)) == ((q.n * p.d) * s.d) * ((p.d * s.n)
        * (q.d * s.n))) by (nonlinear_arith);
    assert(((p.n * s.d) * (q.d * s.n) + (q.n * s.d) * (p.d * s.n)) * ((p.d * q.d) * s.n) == ((p.n
        * s.d) * (q.d * s.n)) * ((p.d * q.d) * s.n) + ((q.n * s.d) * (p.d * s.n)) * ((p.d * q.d)
        * s.n)) by (nonlinear_arith);
    assert(((p.n * q.d + q.n * p.d) * s.d) * ((p.d * s.n) * (q.d * s.n)) == ((p.n * q.d) * s.d) * (
    (p.d * s.n) * (q.d * s.n)) + ((q.n * p.d) * s.d) * ((p.d * s.n) * (q.d * s.n)))
        by (nonlinear_arith);
    if s.n < 0 {
        // Sign normalization: the negated factors multiply back to the
        // positive products, and a negated side negates the product.
        assert((-(p.n * s.d)) * (-(q.d * s.n)) == (p.n * s.d) * (q.d * s.n)) by (nonlinear_arith);
        assert((-(q.n * s.d)) * (-(p.d * s.n)) == (q.n * s.d) * (p.d * s.n)) by (nonlinear_arith);
        assert((-(p.d * s.n)) * (-(q.d * s.n)) == (p.d * s.n) * (q.d * s.n)) by (nonlinear_arith);
        assert(((p.n * s.d) * (q.d * s.n) + (q.n * s.d) * (p.d * s.n)) * (-((p.d * q.d) * s.n))
            == -(((p.n * s.d) * (q.d * s.n) + (q.n * s.d) * (p.d * s.n)) * ((p.d * q.d) * s.n)))
            by (nonlinear_arith);
        assert((-((p.n * q.d + q.n * p.d) * s.d)) * ((p.d * s.n) * (q.d * s.n)) == -(((p.n * q.d
            + q.n * p.d) * s.d) * ((p.d * s.n) * (q.d * s.n)))) by (nonlinear_arith);
    }
}

/// A value divided by an equal nonzero value is one.
pub proof fn lemma_rat_div_eq_one(p: Rat, q: Rat)
    by (nonlinear_arith)
    requires
        rat_wf(p),
        rat_wf(q),
        q.n != 0,
        rat_eq(p, q),
    ensures
        rat_eq(rat_div(p, q), rat_one()),
{
}

/// `m` is the square of some nonnegative integer.
pub open spec fn is_square(m: int) -> bool {
    exists|s: int| 0 <= s && #[trigger] (s * s) == m
}

/// The nonnegative integer square root of `m`, meaningful when `is_square(m)`.
pub open spec fn sqrt_of(m: int) -> int {
    choose|s: int| 0 <= s && #[trigger] (s * s) == m
}

/// Squaring is monotone on nonnegative integers.
pub proof fn lemma_sq_mono(a: int, b: int)
    by (nonlinear_arith)
    requires
        0 <= a <= b,
    ensures
        a * a <= b * b,
{
}

/// A nonnegative integer is determined by its square.
pub proof fn lemma_sqrt_unique(a: int, b: int)
    by (nonlinear_arith)
    requires
        0 <= a,
        0 <= b,
        a * a == b * b,
    ensures
        a == b,
{
}

/// A product of nonnegative factors is bounded by the product of their
/// bounds.
pub proof fn lemma_mul_upper(x: int, y: int, bx: int, by_: int)
    by (nonlinear_arith)
    requires
        0 <= x <= bx,
        0 <= y <= by_,
    ensures
        x * y <= bx * by_,
{
}

/// The integer square root, by bisection: the greatest `r` with `r * r <= n`.
pub fn isqrt(n: u128) -> (r: u128)
    requires
        n < 0x4000_0000_0000_0000_0000_0000_0000_0000,
    ensures
        r * r <= n,
        n < (r + 1) * (r + 1),
{
    let mut lo: u128 = 0;
    let mut hi: u128 = 0x8000_0000_0000_0000;
    while hi - lo > 1
        invariant
            n < 0x4000_0000_0000_0000_0000_0000_0000_0000,
            lo < hi <= 0x8000_0000_0000_0000,
            lo * lo <= n,
            n < hi * hi,
        decreases hi - lo,
    {
        let mid: u128 = lo + (hi - lo) / 2;
        proof {
            lemma_sq_mono(mid as int, 0x8000_0000_0000_0000);
        }
        if mid * mid <= n {
            lo = mid;
        } else {
            hi = mid;
        }
    }
    lo
}

/// An exact scalar: the rational number `num / den`. The denominator is kept
/// strictly positive (`wf`), so the sign of the value is the sign of `num`.
#[derive(Clone, Copy, Debug)]
pub struct Scalar {
    num: i64,
    den: i64,
}

impl View for Scalar {
    type V = Rat;

    closed spec fn view(&self) -> Rat {
        Rat { n: self.num as int, d: self.den as int }
    }
}

impl Scalar {
    /// Validity: the denominator is strictly positive. Every constructor
    /// establishes it and every operation preserves it.
    pub open spec fn wf(self) -> bool {
        self@.d > 0
    }

    /// The fraction `num / den`. Stores both parts verbatim.
    pub fn new(num: i64, den: i64) -> (r: Scalar)
        requires
            den > 0,
        ensures
            r.wf(),
            r@ == (Rat { n: num as int, d: den as int }),
    {
        Scalar { num, den }
    }

    /// The whole number `n`, as the fraction `n / 1`.
    pub fn from_int(n: i64) -> (r: Scalar)
        ensures
            r.wf(),
            r@ == (Rat { n: n as int, d: 1 }),
    {
        Scalar { num: n, den: 1 }
    }

    pub fn num(&self) -> (r: i64)
        ensures
            r == self@.n,
    {
        self.num
    }

    pub fn den(&self) -> (r: i64)
        ensures
            r == self@.d,
    {
        self.den
    }

    /// Exact sum `self + rhs`.
    pub fn add(self, rhs: Scalar) -> (r: Scalar)
        requires
            self.wf(),
            rhs.wf(),
            rat_in_range(rat_add(self@, rhs@)),
        ensures
            r.wf(),
            r@ == rat_add(self@, rhs@),
    {
        proof {
            lemma_mul_i64_by_pos(self.num as int, rhs.den as int);
            lemma_mul_i64_by_pos(rhs.num as int, self.den as int);
            lemma_mul_i64_by_pos(self.den as int, rhs.den as int);
            lemma_mul_pos_pos(self.den as int, rhs.den as int);
        }
        let n: i128 = (self.num as i128) * (rhs.den as i128) + (rhs.num as i128) * (self.den as i128);
        let d: i128 = (self.den as i128) * (rhs.den as i128);
        Scalar { num: n as i64, den: d as i64 }
    }

    /// Exact difference `self - rhs`.
    pub fn sub(self, rhs: Scalar) -> (r: Scalar)
        requires
            self.wf(),
            rhs.wf(),
            rat_in_range(rat_sub(self@, rhs@)),
        ensures
            r.wf(),
            r@ == rat_sub(self@, rhs@),
    {
        proof {
            lemma_mul_i64_by_pos(self.num as int, rhs.den as int);
            lemma_mul_i64_by_pos(rhs.num as int, self.den as int);
            lemma_mul_i64_by_pos(self.den as int, rhs.den as int);
            lemma_mul_pos_pos(self.den as int, rhs.den as int);
        }
        let n: i128 = (self.num as i128) * (rhs.den as i128) - (rhs.num as i128) * (self.den as i128);
        let d: i128 = (self.den as i128) * (rhs.den as i128);
        Scalar { num: n as i64, den: d as i64 }
    }

    /// Exact product `self * rhs`.
    pub fn mul(self, rhs: Scalar) -> (r: Scalar)
        requires
            self.wf(),
            rhs.wf(),
            rat_in_range(rat_mul(self@, rhs@)),
        ensures
            r.wf(),
            r@ == rat_mul(self@, rhs@),
    {
        proof {
            lemma_mul_i64_i64(self.num as int, rhs.num as int);
            lemma_mul_i64_by_pos(self.den as int, rhs.den as int);
            lemma_mul_pos_pos(self.den as int, rhs.den as int);
        }
        let n: i128 = (self.num as i128) * (rhs.num as i128);
        let d: i128 = (self.den as i128) * (rhs.den as i128);
        Scalar { num: n as i64, den: d as i64 }
    }

    /// Exact negation `-self`.
    pub fn neg(self) -> (r: Scalar)
        requires
            self.wf(),
            rat_in_range(rat_neg(self@)),
        ensures
            r.wf(),
            r@ == rat_neg(self@),
    {
        Scalar { num: -self.num, den: self.den }
    }

    /// Exact quotient `self / rhs`. The divisor must be nonzero; a zero
    /// divisor is rejected by precondition rather than producing a value.
    pub fn div(self, rhs: Scalar) -> (r: Scalar)
        requires
            self.wf(),
            rhs.wf(),
            rhs@.n != 0,
            rat_in_range(rat_div(self@, rhs@)),
        ensures
            r.wf(),
            r@ == rat_div(self@, rhs@),
    {
        proof {
            lemma_mul_i64_by_pos(self.num as int, rhs.den as int);
            lemma_mul_i64_i64(self.den as int, rhs.num as int);
            if rhs.num > 0 {
                lemma_mul_pos_pos(self.den as int, rhs.num as int);
            } else {
                lemma_mul_pos_pos(self.den as int, -(rhs.num as int));
                assert((self.den as int) * (-(rhs.num as int)) == -((self.den as int) * (rhs.num as int)))
                    by (nonlinear_arith);
            }
        }
        let n: i128 = (self.num as i128) * (rhs.den as i128);
        let d: i128 = (self.den as i128) * (rhs.num as i128);
        if rhs.num < 0 {
            Scalar { num: (-n) as i64, den: (-d) as i64 }
        } else {
            Scalar { num: n as i64, den: d as i64 }
        }
    }

    /// Exact equality of the denoted rationals, by cross-multiplication.
    /// Total: distinct representations of one rational compare equal.
    pub fn eq_value(&self, rhs: &Scalar) -> (r: bool)
        ensures
            r == rat_eq(self@, rhs@),
    {
        proof {
            lemma_mul_i64_i64(self.num as int, rhs.den as int);
            lemma_mul_i64_i64(rhs.num as int, self.den as int);
        }
        (self.num as i128) * (rhs.den as i128) == (rhs.num as i128) * (self.den as i128)
    }
}

} // verus!
