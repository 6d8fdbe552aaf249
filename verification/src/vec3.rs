//! The three-component vector type. A `Vec3` is used interchangeably as a
//! geometric vector, a point in space, and an RGB color; the two accessor
//! families (`x`/`y`/`z` and `r`/`g`/`b`) read the same storage. Its
//! mathematical value is a `RatVec`, a triple of unbounded rationals, and
//! every operation is specified component-wise against that model.

use vstd::prelude::*;

use crate::scalar::Rat;
use crate::scalar::Scalar;
use crate::scalar::is_square;
use crate::scalar::isqrt;
use crate::scalar::lemma_mul_upper;
use crate::scalar::lemma_sq_mono;
use crate::scalar::lemma_sqrt_unique;
use crate::scalar::sqrt_of;
use crate::scalar::rat_add;
use crate::scalar::rat_div;
use crate::scalar::rat_eq;
use crate::scalar::rat_in_range;
use crate::scalar::rat_mul;
use crate::scalar::rat_neg;
use crate::scalar::rat_sub;
use crate::scalar::rat_wf;
use crate::scalar::rat_zero;

verus! {

/// The mathematical value of a vector: a triple of unbounded rationals.
pub struct RatVec {
    pub x: Rat,
    pub y: Rat,
    pub z: Rat,
}

/// All three components have nonzero denominators.
pub open spec fn rv_wf(v: RatVec) -> bool {
    rat_wf(v.x) && rat_wf(v.y) && rat_wf(v.z)
}

/// `a` and `b` denote the same vector: the components agree as rationals.
pub open spec fn rv_eq(a: RatVec, b: RatVec) -> bool {
    rat_eq(a.x, b.x) && rat_eq(a.y, b.y) && rat_eq(a.z, b.z)
}

pub open spec fn rv_zero() -> RatVec {
    RatVec { x: rat_zero(), y: rat_zero(), z: rat_zero() }
}

/// Component-wise sum.
pub open spec fn rv_add(a: RatVec, b: RatVec) -> RatVec {
    RatVec { x: rat_add(a.x, b.x), y: rat_add(a.y, b.y), z: rat_add(a.z, b.z) }
}

/// Component-wise difference.
pub open spec fn rv_sub(a: RatVec, b: RatVec) -> RatVec {
    RatVec { x: rat_sub(a.x, b.x), y: rat_sub(a.y, b.y), z: rat_sub(a.z, b.z) }
}

/// Component-wise (Hadamard) product.
pub open spec fn rv_mul(a: RatVec, b: RatVec) -> RatVec {
    RatVec { x: rat_mul(a.x, b.x), y: rat_mul(a.y, b.y), z: rat_mul(a.z, b.z) }
}

/// Every component scaled by `s`.
pub open spec fn rv_scale(v: RatVec, s: Rat) -> RatVec {
    RatVec { x: rat_mul(v.x, s), y: rat_mul(v.y, s), z: rat_mul(v.z, s) }
}

/// Every component divided by `s`.
pub open spec fn rv_div(v: RatVec, s: Rat) -> RatVec {
    RatVec { x: rat_div(v.x, s), y: rat_div(v.y, s), z: rat_div(v.z, s) }
}

/// Every component negated.
pub open spec fn rv_neg(v: RatVec) -> RatVec {
    RatVec { x: rat_neg(v.x), y: rat_neg(v.y), z: rat_neg(v.z) }
}

/// The dot product: the sum of the pairwise component products.
pub open spec fn rv_dot(a: RatVec, b: RatVec) -> Rat {
    rat_add(rat_add(rat_mul(a.x, b.x), rat_mul(a.y, b.y)), rat_mul(a.z, b.z))
}

/// The right-handed cross product.
pub open spec fn rv_cross(a: RatVec, b: RatVec) -> RatVec {
    RatVec {
        x: rat_sub(rat_mul(a.y, b.z), rat_mul(a.z, b.y)),
        y: rat_sub(rat_mul(a.z, b.x), rat_mul(a.x, b.z)),
        z: rat_sub(rat_mul(a.x, b.y), rat_mul(a.y, b.x)),
    }
}

/// `v` with component `i` replaced by `s`.
pub open spec fn rv_update(v: RatVec, i: int, s: Rat) -> RatVec {
    if i == 0 {
        RatVec { x: s, ..v }
    } else if i == 1 {
        RatVec { y: s, ..v }
    } else {
        RatVec { z: s, ..v }
    }
}

/// Component `i` of `v`.
pub open spec fn rv_index(v: RatVec, i: int) -> Rat {
    if i == 0 {
        v.x
    } else if i == 1 {
        v.y
    } else {
        v.z
    }
}

/// The component-wise sum of `a` and `b` is representable in `Scalar`s.
pub open spec fn rv_add_in_range(a: RatVec, b: RatVec) -> bool {
    rat_in_range(rat_add(a.x, b.x)) && rat_in_range(rat_add(a.y, b.y)) && rat_in_range(
        rat_add(a.z, b.z),
    )
}

/// The component-wise difference of `a` and `b` is representable.
pub open spec fn rv_sub_in_range(a: RatVec, b: RatVec) -> bool {
    rat_in_range(rat_sub(a.x, b.x)) && rat_in_range(rat_sub(a.y, b.y)) && rat_in_range(
        rat_sub(a.z, b.z),
    )
}

/// The component-wise product of `a` and `b` is representable.
pub open spec fn rv_mul_in_range(a: RatVec, b: RatVec) -> bool {
    rat_in_range(rat_mul(a.x, b.x)) && rat_in_range(rat_mul(a.y, b.y)) && rat_in_range(
        rat_mul(a.z, b.z),
    )
}

/// `v` scaled by `s` is representable.
pub open spec fn rv_scale_in_range(v: RatVec, s: Rat) -> bool {
    rat_in_range(rat_mul(v.x, s)) && rat_in_range(rat_mul(v.y, s)) && rat_in_range(
        rat_mul(v.z, s),
    )
}

/// `v` divided by `s` is representable.
pub open spec fn rv_div_in_range(v: RatVec, s: Rat) -> bool {
    rat_in_range(rat_div(v.x, s)) && rat_in_range(rat_div(v.y, s)) && rat_in_range(
        rat_div(v.z, s),
    )
}

/// `v` negated is representable.
pub open spec fn rv_neg_in_range(v: RatVec) -> bool {
    rat_in_range(rat_neg(v.x)) && rat_in_range(rat_neg(v.y)) && rat_in_range(rat_neg(v.z))
}

/// The dot product of `a` and `b`, with its intermediate sums, is
/// representable.
pub open spec fn rv_dot_in_range(a: RatVec, b: RatVec) -> bool {
    let m1 = rat_mul(a.x, b.x);
    let m2 = rat_mul(a.y, b.y);
    let m3 = rat_mul(a.z, b.z);
    rat_in_range(m1) && rat_in_range(m2) && rat_in_range(m3) && rat_in_range(rat_add(m1, m2))
        && rat_in_range(rat_add(rat_add(m1, m2), m3))
}

/// The cross product of `a` and `b`, with its intermediate products, is
/// representable.
pub open spec fn rv_cross_in_range(a: RatVec, b: RatVec) -> bool {
    rat_in_range(rat_mul(a.y, b.z)) && rat_in_range(rat_mul(a.z, b.y)) && rat_in_range(
        rat_sub(rat_mul(a.y, b.z), rat_mul(a.z, b.y)),
    ) && rat_in_range(rat_mul(a.z, b.x)) && rat_in_range(rat_mul(a.x, b.z)) && rat_in_range(
        rat_sub(rat_mul(a.z, b.x), rat_mul(a.x, b.z)),
    ) && rat_in_range(rat_mul(a.x, b.y)) && rat_in_range(rat_mul(a.y, b.x)) && rat_in_range(
        rat_sub(rat_mul(a.x, b.y), rat_mul(a.y, b.x)),
    )
}

/// `v` has an exact rational length: its squared length `n / d` is the
/// square of a rational, which holds exactly when `n * d` is a perfect
/// square.
pub open spec fn rv_has_length(v: RatVec) -> bool {
    is_square(rv_dot(v, v).n * rv_dot(v, v).d)
}

/// The exact length of `v`, meaningful when `rv_has_length(v)`: with squared
/// length `n / d`, the length is `sqrt(n * d) / d`.
pub open spec fn rv_length_of(v: RatVec) -> Rat {
    Rat { n: sqrt_of(rv_dot(v, v).n * rv_dot(v, v).d), d: rv_dot(v, v).d }
}

/// Vector addition is commutative, representation included.
pub proof fn lemma_vec_add_comm(a: RatVec, b: RatVec)
    ensures
        rv_add(a, b) == rv_add(b, a),
{
    broadcast use vstd::arithmetic::mul::lemma_mul_is_commutative;

}

/// The component-wise product is commutative, representation included.
pub proof fn lemma_vec_mul_comm(a: RatVec, b: RatVec)
    ensures
        rv_mul(a, b) == rv_mul(b, a),
{
    broadcast use vstd::arithmetic::mul::lemma_mul_is_commutative;

}

/// A vector minus itself is the zero vector.
pub proof fn lemma_vec_sub_self(a: RatVec)
    requires
        rv_wf(a),
    ensures
        rv_eq(rv_sub(a, a), rv_zero()),
{
    crate::scalar::lemma_rat_sub_self(a.x);
    crate::scalar::lemma_rat_sub_self(a.y);
    crate::scalar::lemma_rat_sub_self(a.z);
}

/// Negation is its own inverse, representation included.
pub proof fn lemma_vec_neg_neg(a: RatVec)
    ensures
        rv_neg(rv_neg(a)) == a,
{
}

/// Dividing by a nonzero scalar undoes scaling by it.
pub proof fn lemma_vec_div_mul(a: RatVec, s: Rat)
    requires
        rv_wf(a),
        rat_wf(s),
        s.n != 0,
    ensures
        rv_eq(rv_div(rv_scale(a, s), s), a),
{
    crate::scalar::lemma_rat_div_mul(a.x, s);
    crate::scalar::lemma_rat_div_mul(a.y, s);
    crate::scalar::lemma_rat_div_mul(a.z, s);
}

/// The dot product is symmetric, representation included.
pub proof fn lemma_vec_dot_comm(a: RatVec, b: RatVec)
    ensures
        rv_dot(a, b) == rv_dot(b, a),
{
    broadcast use vstd::arithmetic::mul::lemma_mul_is_commutative;

}

/// The cross product is anticommutative: swapping the operands negates it,
/// representation included.
pub proof fn lemma_vec_cross_anticomm(a: RatVec, b: RatVec)
    ensures
        rv_cross(a, b) == rv_neg(rv_cross(b, a)),
{
    broadcast use vstd::arithmetic::mul::lemma_mul_is_commutative;

}

/// The cross product of a vector with itself is the zero vector.
pub proof fn lemma_vec_cross_self(a: RatVec)
    requires
        rv_wf(a),
    ensures
        rv_eq(rv_cross(a, a), rv_zero()),
{
    broadcast use vstd::arithmetic::mul::lemma_mul_is_commutative;

    crate::scalar::lemma_mul_nonzero(a.y.d, a.z.d);
    crate::scalar::lemma_mul_nonzero(a.z.d, a.x.d);
    crate::scalar::lemma_mul_nonzero(a.x.d, a.y.d);
    crate::scalar::lemma_rat_sub_self(rat_mul(a.y, a.z));
    crate::scalar::lemma_rat_sub_self(rat_mul(a.z, a.x));
    crate::scalar::lemma_rat_sub_self(rat_mul(a.x, a.y));
}

/// A unit vector has length exactly one: if `l` is a nonzero length of `v`,
/// meaning its square is the squared length of `v`, then `v / l` dotted with
/// itself is one.
pub proof fn lemma_unit_vector_length(v: RatVec, l: Rat)
    requires
        rv_wf(v),
        rat_wf(l),
        l.n != 0,
        rat_eq(rat_mul(l, l), rv_dot(v, v)),
    ensures
        rat_eq(rv_dot(rv_div(v, l), rv_div(v, l)), crate::scalar::rat_one()),
{
    let big: Rat = rat_mul(l, l);
    let px: Rat = rat_mul(v.x, v.x);
    let py: Rat = rat_mul(v.y, v.y);
    let pz: Rat = rat_mul(v.z, v.z);
    let sx: Rat = rat_mul(rat_div(v.x, l), rat_div(v.x, l));
    let sy: Rat = rat_mul(rat_div(v.y, l), rat_div(v.y, l));
    let sz: Rat = rat_mul(rat_div(v.z, l), rat_div(v.z, l));
    let dx: Rat = rat_div(px, big);
    let dy: Rat = rat_div(py, big);
    let dz: Rat = rat_div(pz, big);
    // Denominators and the divisor's numerator stay nonzero through every
    // intermediate value.
    crate::scalar::lemma_mul_nonzero(l.d, l.d);
    crate::scalar::lemma_mul_nonzero(l.n, l.n);
    crate::scalar::lemma_mul_nonzero(v.x.d, v.x.d);
    crate::scalar::lemma_mul_nonzero(v.y.d, v.y.d);
    crate::scalar::lemma_mul_nonzero(v.z.d, v.z.d);
    crate::scalar::lemma_mul_nonzero(v.x.d, l.n);
    crate::scalar::lemma_mul_nonzero(v.y.d, l.n);
    crate::scalar::lemma_mul_nonzero(v.z.d, l.n);
    crate::scalar::lemma_mul_nonzero(rat_div(v.x, l).d, rat_div(v.x, l).d);
    crate::scalar::lemma_mul_nonzero(rat_div(v.y, l).d, rat_div(v.y, l).d);
    crate::scalar::lemma_mul_nonzero(rat_div(v.z, l).d, rat_div(v.z, l).d);
    crate::scalar::lemma_mul_nonzero(px.d, big.n);
    crate::scalar::lemma_mul_nonzero(py.d, big.n);
    crate::scalar::lemma_mul_nonzero(pz.d, big.n);
    crate::scalar::lemma_mul_nonzero(px.d, py.d);
    crate::scalar::lemma_mul_nonzero(sx.d, sy.d);
    crate::scalar::lemma_mul_nonzero(dx.d, dy.d);
    crate::scalar::lemma_mul_nonzero(rat_add(sx, sy).d, sz.d);
    crate::scalar::lemma_mul_nonzero(rat_add(dx, dy).d, dz.d);
    crate::scalar::lemma_mul_nonzero(rat_add(px, py).d, big.n);
    crate::scalar::lemma_mul_nonzero(rat_add(px, py).d, pz.d);
    crate::scalar::lemma_mul_nonzero(rat_div(rat_add(px, py), big).d, dz.d);
    crate::scalar::lemma_mul_nonzero(rat_add(rat_add(px, py), pz).d, big.n);
    // Each squared component of `v / l` is the squared component of `v`
    // divided by the square of `l`.
    crate::scalar::lemma_rat_div_square(v.x, l);
    crate::scalar::lemma_rat_div_square(v.y, l);
    crate::scalar::lemma_rat_div_square(v.z, l);
    // Sum the three quotients into one quotient over `big`.
    crate::scalar::lemma_rat_add_cong(sx, dx, sy, dy);
    crate::scalar::lemma_rat_add_cong(rat_add(sx, sy), rat_add(dx, dy), sz, dz);
    crate::scalar::lemma_rat_div_add(px, py, big);
    crate::scalar::lemma_rat_add_cong(rat_add(dx, dy), rat_div(rat_add(px, py), big), dz, dz);
    crate::scalar::lemma_rat_div_add(rat_add(px, py), pz, big);
    // The squared length of `v` divided by itself is one.
    crate::scalar::lemma_rat_div_eq_one(rv_dot(v, v), big);
    // Chain the equalities together.
    crate::scalar::lemma_rat_eq_trans(
        rv_dot(rv_div(v, l), rv_div(v, l)),
        rat_add(rat_add(dx, dy), dz),
        rat_add(rat_div(rat_add(px, py), big), dz),
    );
    crate::scalar::lemma_rat_eq_trans(
        rv_dot(rv_div(v, l), rv_div(v, l)),
        rat_add(rat_div(rat_add(px, py), big), dz),
        rat_div(rv_dot(v, v), big),
    );
    crate::scalar::lemma_rat_eq_trans(
        rv_dot(rv_div(v, l), rv_div(v, l)),
        rat_div(rv_dot(v, v), big),
        crate::scalar::rat_one(),
    );
}

/// The dot product of a vector with itself is nonnegative: it is a sum of
/// squares.
pub proof fn lemma_dot_self_nonneg(v: RatVec)
    requires
        rv_wf(v),
    ensures
        rv_dot(v, v).n >= 0,
        rv_dot(v, v).d > 0,
{
    crate::scalar::lemma_rat_square_nonneg(v.x);
    crate::scalar::lemma_rat_square_nonneg(v.y);
    crate::scalar::lemma_rat_square_nonneg(v.z);
    crate::scalar::lemma_rat_add_nonneg(rat_mul(v.x, v.x), rat_mul(v.y, v.y));
    crate::scalar::lemma_rat_add_nonneg(
        rat_add(rat_mul(v.x, v.x), rat_mul(v.y, v.y)),
        rat_mul(v.z, v.z),
    );
}

/// A three-component vector of exact scalars, dual-purposed as a geometric
/// vector or point (`x`/`y`/`z`) and as an RGB color (`r`/`g`/`b`).
#[derive(Clone, Copy, Debug)]
pub struct Vec3 {
    x: Scalar,
    y: Scalar,
    z: Scalar,
}

impl View for Vec3 {
    type V = RatVec;

    closed spec fn view(&self) -> RatVec {
        RatVec { x: self.x@, y: self.y@, z: self.z@ }
    }
}

impl Vec3 {
    /// Validity: all three components are well-formed scalars.
    pub open spec fn wf(self) -> bool {
        self@.x.d > 0 && self@.y.d > 0 && self@.z.d > 0
    }

    /// Stores the three scalars verbatim; no validation, no normalization.
    pub fn new(x: Scalar, y: Scalar, z: Scalar) -> (r: Vec3)
        requires
            x.wf(),
            y.wf(),
            z.wf(),
        ensures
            r.wf(),
            r@ == (RatVec { x: x@, y: y@, z: z@ }),
    {
        Vec3 { x, y, z }
    }

    /// First component, read as a coordinate.
    pub fn x(&self) -> (r: Scalar)
        ensures
            r@ == self@.x,
    {
        self.x
    }

    /// Second component, read as a coordinate.
    pub fn y(&self) -> (r: Scalar)
        ensures
            r@ == self@.y,
    {
        self.y
    }

    /// Third component, read as a coordinate.
    pub fn z(&self) -> (r: Scalar)
        ensures
            r@ == self@.z,
    {
        self.z
    }

    /// First component, read as a color channel: the same storage as `x`.
    pub fn r(&self) -> (r: Scalar)
        ensures
            r@ == self@.x,
    {
        self.x
    }

    /// Second component, read as a color channel: the same storage as `y`.
    pub fn g(&self) -> (r: Scalar)
        ensures
            r@ == self@.y,
    {
        self.y
    }

    /// Third component, read as a color channel: the same storage as `z`.
    pub fn b(&self) -> (r: Scalar)
        ensures
            r@ == self@.z,
    {
        self.z
    }

    /// Indexed read. An index outside `0..3` is rejected by precondition.
    pub fn index(&self, i: usize) -> (r: Scalar)
        requires
            i < 3,
        ensures
            r@ == rv_index(self@, i as int),
    {
        if i == 0 {
            self.x
        } else if i == 1 {
            self.y
        } else {
            self.z
        }
    }

    /// Indexed write. An index outside `0..3` is rejected by precondition.
    pub fn set_index(&mut self, i: usize, v: Scalar)
        requires
            i < 3,
        ensures
            final(self)@ == rv_update(old(self)@, i as int, v@),
    {
        if i == 0 {
            self.x = v;
        } else if i == 1 {
            self.y = v;
        } else {
            self.z = v;
        }
    }

    /// Component-wise sum; the operands are unchanged.
    pub fn add(self, rhs: Vec3) -> (r: Vec3)
        requires
            self.wf(),
            rhs.wf(),
            rv_add_in_range(self@, rhs@),
        ensures
            r.wf(),
            r@ == rv_add(self@, rhs@),
    {
        Vec3 { x: self.x.add(rhs.x), y: self.y.add(rhs.y), z: self.z.add(rhs.z) }
    }

    /// Component-wise difference; the operands are unchanged.
    pub fn sub(self, rhs: Vec3) -> (r: Vec3)
        requires
            self.wf(),
            rhs.wf(),
            rv_sub_in_range(self@, rhs@),
        ensures
            r.wf(),
            r@ == rv_sub(self@, rhs@),
    {
        Vec3 { x: self.x.sub(rhs.x), y: self.y.sub(rhs.y), z: self.z.sub(rhs.z) }
    }

    /// Component-wise (Hadamard) product, used primarily for color blending.
    pub fn mul(self, rhs: Vec3) -> (r: Vec3)
        requires
            self.wf(),
            rhs.wf(),
            rv_mul_in_range(self@, rhs@),
        ensures
            r.wf(),
            r@ == rv_mul(self@, rhs@),
    {
        Vec3 { x: self.x.mul(rhs.x), y: self.y.mul(rhs.y), z: self.z.mul(rhs.z) }
    }

    /// Every component scaled by `s`.
    pub fn mul_scalar(self, s: Scalar) -> (r: Vec3)
        requires
            self.wf(),
            s.wf(),
            rv_scale_in_range(self@, s@),
        ensures
            r.wf(),
            r@ == rv_scale(self@, s@),
    {
        Vec3 { x: self.x.mul(s), y: self.y.mul(s), z: self.z.mul(s) }
    }

    /// Every component divided by `s`. A zero divisor is rejected by
    /// precondition: with exact scalars there is no infinity to divide into.
    pub fn div(self, s: Scalar) -> (r: Vec3)
        requires
            self.wf(),
            s.wf(),
            s@.n != 0,
            rv_div_in_range(self@, s@),
        ensures
            r.wf(),
            r@ == rv_div(self@, s@),
    {
        Vec3 { x: self.x.div(s), y: self.y.div(s), z: self.z.div(s) }
    }

    /// Negation: a new vector with every component negated; the operand is
    /// unchanged.
    pub fn not(self) -> (r: Vec3)
        requires
            self.wf(),
            rv_neg_in_range(self@),
        ensures
            r.wf(),
            r@ == rv_neg(self@),
    {
        Vec3 { x: self.x.neg(), y: self.y.neg(), z: self.z.neg() }
    }

    /// In-place sum: the same arithmetic as `add`, mutating the receiver.
    pub fn add_assign(&mut self, rhs: Vec3)
        requires
            old(self).wf(),
            rhs.wf(),
            rv_add_in_range(old(self)@, rhs@),
        ensures
            final(self).wf(),
            final(self)@ == rv_add(old(self)@, rhs@),
    {
        *self = (*self).add(rhs);
    }

    /// In-place difference: the same arithmetic as `sub`.
    pub fn sub_assign(&mut self, rhs: Vec3)
        requires
            old(self).wf(),
            rhs.wf(),
            rv_sub_in_range(old(self)@, rhs@),
        ensures
            final(self).wf(),
            final(self)@ == rv_sub(old(self)@, rhs@),
    {
        *self = (*self).sub(rhs);
    }

    /// In-place component-wise product: the same arithmetic as `mul`.
    pub fn mul_assign(&mut self, rhs: Vec3)
        requires
            old(self).wf(),
            rhs.wf(),
            rv_mul_in_range(old(self)@, rhs@),
        ensures
            final(self).wf(),
            final(self)@ == rv_mul(old(self)@, rhs@),
    {
        *self = (*self).mul(rhs);
    }

    /// In-place scaling: the same arithmetic as `mul_scalar`.
    pub fn mul_assign_scalar(&mut self, s: Scalar)
        requires
            old(self).wf(),
            s.wf(),
            rv_scale_in_range(old(self)@, s@),
        ensures
            final(self).wf(),
            final(self)@ == rv_scale(old(self)@, s@),
    {
        *self = (*self).mul_scalar(s);
    }

    /// In-place division: the same arithmetic as `div`.
    pub fn div_assign(&mut self, s: Scalar)
        requires
            old(self).wf(),
            s.wf(),
            s@.n != 0,
            rv_div_in_range(old(self)@, s@),
        ensures
            final(self).wf(),
            final(self)@ == rv_div(old(self)@, s@),
    {
        *self = (*self).div(s);
    }

    /// Dot product: the sum of the pairwise component products.
    pub fn dot(&self, other: &Vec3) -> (r: Scalar)
        requires
            self.wf(),
            other.wf(),
            rv_dot_in_range(self@, other@),
        ensures
            r.wf(),
            r@ == rv_dot(self@, other@),
    {
        let m1 = self.x.mul(other.x);
        let m2 = self.y.mul(other.y);
        let m3 = self.z.mul(other.z);
        m1.add(m2).add(m3)
    }

    /// The dot product of the vector with itself. Its numerator is
    /// nonnegative: it is a sum of squares.
    pub fn length_squared(&self) -> (r: Scalar)
        requires
            self.wf(),
            rv_dot_in_range(self@, self@),
        ensures
            r.wf(),
            r@ == rv_dot(self@, self@),
            r@.n >= 0,
    {
        proof {
            lemma_dot_self_nonneg(self@);
        }
        self.dot(self)
    }

    /// The exact length: the square root of `length_squared`, when that root
    /// is rational. `None` reports that the squared length is not the square
    /// of any rational, so no exact answer exists; there is no rounding.
    pub fn length(&self) -> (r: Option<Scalar>)
        requires
            self.wf(),
            rv_dot_in_range(self@, self@),
        ensures
            (r is Some) <==> rv_has_length(self@),
            r matches Some(l) ==> l.wf() && l@ == rv_length_of(self@) && l@.n >= 0 && rat_eq(
                rat_mul(l@, l@),
                rv_dot(self@, self@),
            ),
    {
        let ls = self.length_squared();
        let num: i64 = ls.num();
        let den: i64 = ls.den();
        proof {
            lemma_mul_upper(num as int, den as int, 0x7fff_ffff_ffff_ffff, 0x7fff_ffff_ffff_ffff);
        }
        let p: u128 = (num as u128) * (den as u128);
        let s: u128 = isqrt(p);
        if s * s == p {
            proof {
                assert((s as int) * (s as int) == (p as int));
                assert(is_square(p as int));
                let c: int = sqrt_of(p as int);
                assert(0 <= c && c * c == p as int);
                lemma_sqrt_unique(c, s as int);
                assert(s < 0x8000_0000_0000_0000) by {
                    if s >= 0x8000_0000_0000_0000 {
                        lemma_sq_mono(0x8000_0000_0000_0000, s as int);
                    }
                };
                assert((s as int) * (s as int) * (den as int) == (num as int) * ((den as int) * (
                den as int))) by (nonlinear_arith)
                    requires
                        (s as int) * (s as int) == (num as int) * (den as int),
                ;
            }
            Some(Scalar::new(s as i64, den))
        } else {
            proof {
                assert forall|t: int| !(0 <= t && #[trigger] (t * t) == p as int) by {
                    if 0 <= t && t * t == p as int {
                        if t <= s {
                            lemma_sq_mono(t, s as int);
                        } else {
                            lemma_sq_mono(s as int + 1, t);
                        }
                    }
                };
            }
            None
        }
    }

    /// The vector scaled to length one: `self / length()`. `None` reports
    /// either a zero vector, whose direction is undefined, or a length that
    /// is not an exact rational; the zero-vector case is rejected as a
    /// checked error rather than producing an undefined value.
    pub fn unit_vector(&self) -> (r: Option<Vec3>)
        requires
            self.wf(),
            rv_dot_in_range(self@, self@),
            rv_has_length(self@) && rv_dot(self@, self@).n != 0 ==> rv_div_in_range(
                self@,
                rv_length_of(self@),
            ),
        ensures
            (r is Some) <==> (rv_has_length(self@) && rv_dot(self@, self@).n != 0),
            r matches Some(u) ==> u.wf() && u@ == rv_div(self@, rv_length_of(self@)),
    {
        match self.length() {
            None => None,
            Some(l) => {
                proof {
                    lemma_dot_self_nonneg(self@);
                    let m: int = rv_dot(self@, self@).n * rv_dot(self@, self@).d;
                    assert(0 <= sqrt_of(m) && sqrt_of(m) * sqrt_of(m) == m);
                }
                if l.num() == 0 {
                    proof {
                        assert(rv_dot(self@, self@).n == 0) by (nonlinear_arith)
                            requires
                                sqrt_of(rv_dot(self@, self@).n * rv_dot(self@, self@).d) == 0,
                                sqrt_of(rv_dot(self@, self@).n * rv_dot(self@, self@).d) * sqrt_of(
                                    rv_dot(self@, self@).n * rv_dot(self@, self@).d,
                                ) == rv_dot(self@, self@).n * rv_dot(self@, self@).d,
                                rv_dot(self@, self@).n >= 0,
                                rv_dot(self@, self@).d > 0,
                        ;
                    }
                    None
                } else {
                    proof {
                        assert(rv_dot(self@, self@).n != 0) by (nonlinear_arith)
                            requires
                                rv_length_of(self@).n != 0,
                                rv_length_of(self@).n * rv_length_of(self@).n == rv_dot(
                                    self@,
                                    self@,
                                ).n * rv_dot(self@, self@).d,
                        ;
                    }
                    Some(self.div(l))
                }
            },
        }
    }

    /// Standard right-handed cross product.
    pub fn cross(&self, other: &Vec3) -> (r: Vec3)
        requires
            self.wf(),
            other.wf(),
            rv_cross_in_range(self@, other@),
        ensures
            r.wf(),
            r@ == rv_cross(self@, other@),
    {
        Vec3 {
            x: self.y.mul(other.z).sub(self.z.mul(other.y)),
            y: self.z.mul(other.x).sub(self.x.mul(other.z)),
            z: self.x.mul(other.y).sub(self.y.mul(other.x)),
        }
    }
}

/// Exact scalar comparison: `left` and `right` denote the same rational.
/// Exact scalars need no tolerance; distinct representations of one value
/// (such as one half and two quarters) still compare equal.
pub fn cmp_float(left: Scalar, right: Scalar) -> (r: bool)
    ensures
        r == rat_eq(left@, right@),
{
    left.eq_value(&right)
}

/// Exact vector comparison: every component of `left` denotes the same
/// rational as the matching component of `right`.
pub fn cmp_vec3(left: Vec3, right: Vec3) -> (r: bool)
    ensures
        r == rv_eq(left@, right@),
{
    left.x.eq_value(&right.x) && left.y.eq_value(&right.y) && left.z.eq_value(&right.z)
}

impl Scalar {
    /// Scaling with the scalar on the left: the same arithmetic as
    /// `Vec3::mul_scalar`, so scalar multiplication is commutative by
    /// construction.
    pub fn mul_vec3(self, v: Vec3) -> (r: Vec3)
        requires
            self.wf(),
            v.wf(),
            rv_scale_in_range(v@, self@),
        ensures
            r.wf(),
            r@ == rv_scale(v@, self@),
    {
        v.mul_scalar(self)
    }
}

} // verus!
