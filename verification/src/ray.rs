//! A geometric ray: an origin point and a direction vector, evaluated
//! parametrically as `origin + t * direction`.

use vstd::prelude::*;

use crate::scalar::Rat;
use crate::scalar::Scalar;
use crate::scalar::rat_wf;
use crate::scalar::rat_zero;
use crate::vec3::RatVec;
use crate::vec3::Vec3;
use crate::vec3::rv_add;
use crate::vec3::rv_add_in_range;
use crate::vec3::rv_eq;
use crate::vec3::rv_scale;
use crate::vec3::rv_scale_in_range;
use crate::vec3::rv_wf;
use crate::vec3::rv_zero;

verus! {

/// A half-line in space: every point `origem + t * direction` for a
/// parameter `t`. Nothing constrains the direction to be nonzero or
/// normalized; callers choose a meaningful direction.
#[derive(Clone, Debug)]
pub struct Ray {
    pub origem: Vec3,
    pub direction: Vec3,
}

impl Ray {
    /// Validity: both fields are well-formed vectors.
    pub open spec fn wf(self) -> bool {
        self.origem.wf() && self.direction.wf()
    }

    /// Stores origin and direction verbatim; no validation.
    pub fn new(origem: Vec3, direction: Vec3) -> (r: Ray)
        requires
            origem.wf(),
            direction.wf(),
        ensures
            r.wf(),
            r.origem == origem,
            r.direction == direction,
    {
        Ray { origem, direction }
    }

    /// The point at parameter `t`: exactly `origem + t * direction`, for any
    /// rational `t`, negative parameters included. With `t` zero, or with a
    /// zero direction, the result equals the origin.
    pub fn point_at(&self, t: Scalar) -> (r: Vec3)
        requires
            self.wf(),
            t.wf(),
            rv_scale_in_range(self.direction@, t@),
            rv_add_in_range(self.origem@, rv_scale(self.direction@, t@)),
        ensures
            r.wf(),
            r@ == rv_add(self.origem@, rv_scale(self.direction@, t@)),
    {
        self.origem.add(self.direction.mul_scalar(t))
    }
}

/// Evaluating a ray at parameter zero yields its origin, whatever the
/// direction.
pub proof fn lemma_point_at_zero(origem: RatVec, direction: RatVec)
    requires
        rv_wf(origem),
        rv_wf(direction),
    ensures
        rv_eq(rv_add(origem, rv_scale(direction, rat_zero())), origem),
{
    lemma_add_scale_zero(origem.x, direction.x);
    lemma_add_scale_zero(origem.y, direction.y);
    lemma_add_scale_zero(origem.z, direction.z);
}

/// Evaluating a ray with a zero direction yields its origin, whatever the
/// parameter.
pub proof fn lemma_point_at_zero_direction(origem: RatVec, t: Rat)
    requires
        rv_wf(origem),
        rat_wf(t),
    ensures
        rv_eq(rv_add(origem, rv_scale(rv_zero(), t)), origem),
{
    lemma_add_zero_times(origem.x, t);
    lemma_add_zero_times(origem.y, t);
    lemma_add_zero_times(origem.z, t);
}

/// Adding `d` scaled by zero to `o` leaves the value of `o` unchanged.
proof fn lemma_add_scale_zero(o: Rat, d: Rat)
    by (nonlinear_arith)
    requires
        rat_wf(o),
        rat_wf(d),
    ensures
        crate::scalar::rat_eq(crate::scalar::rat_add(o, crate::scalar::rat_mul(d, rat_zero())), o),
{
}

/// Adding zero scaled by `t` to `o` leaves the value of `o` unchanged.
proof fn lemma_add_zero_times(o: Rat, t: Rat)
    by (nonlinear_arith)
    requires
        rat_wf(o),
        rat_wf(t),
    ensures
        crate::scalar::rat_eq(crate::scalar::rat_add(o, crate::scalar::rat_mul(rat_zero(), t)), o),
{
}

} // verus!
