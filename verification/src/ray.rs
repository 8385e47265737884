//! Rays: half-lines in space, walked by a parameter.

use vstd::prelude::*;
use crate::scalar::Scalar;
use crate::vec3::Vec3;

verus! {

/// A ray from `origin` along `direction`, which need not have length 1.
#[derive(Clone, Copy, PartialEq, Eq, Structural, Debug)]
pub struct Ray {
    pub origin: Vec3,
    pub direction: Vec3,
}

impl Ray {
    /// The ray from `origin` along `direction`.
    pub open spec fn spec_new(origin: Vec3, direction: Vec3) -> Ray {
        Ray { origin, direction }
    }

    /// The ray from `origin` along `direction`.
    #[verifier::when_used_as_spec(spec_new)]
    pub fn new(origin: Vec3, direction: Vec3) -> (r: Ray)
        ensures
            r == Ray::spec_new(origin, direction),
    {
        Ray { origin, direction }
    }

    /// Where the ray starts.
    pub fn origin(&self) -> (r: Vec3)
        ensures
            r == self.origin,
    {
        self.origin
    }

    /// The way the ray goes.
    pub fn direction(&self) -> (r: Vec3)
        ensures
            r == self.direction,
    {
        self.direction
    }

    /// The point `origin + direction * t`.
    pub open spec fn spec_point_at_parameter(&self, t: Scalar) -> Vec3 {
        self.origin.add(self.direction.mul_scalar(t))
    }

    /// The point `origin + direction * t`.
    #[verifier::when_used_as_spec(spec_point_at_parameter)]
    pub fn point_at_parameter(&self, t: Scalar) -> (r: Vec3)
        ensures
            r == self.spec_point_at_parameter(t),
    {
        self.origin.add(self.direction.mul_scalar(t))
    }
}

} // verus!
