//! The camera: from a place on the image to a ray into the scene, with a
//! lens of finite width for depth of field.

use vstd::prelude::*;
use crate::ray::Ray;
use crate::sampling::{is_unit_draw, Sampler, SamplingError, MAX_DRAWS};
use crate::scalar::{Scalar, SCALE};
use crate::vec3::Vec3;

verus! {

/// The point of the square from -1 to 1 in the plane `z = 0` that two
/// draws from 0 to 1 stand for: each draw doubled, less 1.
pub open spec fn spec_square_point(a: Scalar, b: Scalar) -> Vec3 {
    Vec3::new(a, b, Scalar::zero()).mul_scalar(Scalar::from_int(2)).sub(Vec3::from_ints(1, 1, 0))
}

/// The point of the square from -1 to 1 in the plane `z = 0` that two
/// draws from 0 to 1 stand for: each draw doubled, less 1.
#[verifier::when_used_as_spec(spec_square_point)]
pub fn square_point(a: Scalar, b: Scalar) -> (p: Vec3)
    ensures
        p == spec_square_point(a, b),
{
    Vec3::new(a, b, Scalar::zero()).mul_scalar(Scalar::from_int(2)).sub(Vec3::from_ints(1, 1, 0))
}

/// Whether `p` is a point that the disk sampler may hand out: a point of
/// the square from -1 to 1, made of two draws, that lies strictly inside
/// the circle of radius 1.
pub open spec fn is_disk_sample(p: Vec3) -> bool {
    p.dot(p).raw < SCALE && exists|a: Scalar, b: Scalar|
        is_unit_draw(a) && is_unit_draw(b) && p == #[trigger] square_point(a, b)
}

/// A random point inside the unit disk of the plane `z = 0`: points of
/// the square from -1 to 1 are drawn until one lies inside the circle.
/// After `MAX_DRAWS` points outside it the sampler gives up.
pub fn random_in_unit_disk(sampler: &mut Sampler) -> (res: Result<Vec3, SamplingError>)
    ensures
        match res {
            Ok(p) => is_disk_sample(p),
            Err(e) => e.draws == MAX_DRAWS,
        },
{
    let mut draws: u32 = 0;
    while draws < MAX_DRAWS
        invariant
            draws <= MAX_DRAWS,
        decreases MAX_DRAWS - draws,
    {
        let (a, b) = sampler.pair();
        let p = square_point(a, b);
        if p.dot(p).raw < SCALE {
            return Ok(p);
        }
        draws = draws + 1;
    }
    Err(SamplingError { draws })
}

/// A camera: where it stands, the spans and the lower left corner of the
/// image plane, two axes of its frame, and the radius of its lens.
#[derive(Clone, Copy, PartialEq, Eq, Structural, Debug)]
pub struct Camera {
    pub origin: Vec3,
    pub horizontal: Vec3,
    pub vertical: Vec3,
    pub lower_left_corner: Vec3,
    pub u: Vec3,
    pub v: Vec3,
    pub lens_radius: Scalar,
}

impl Camera {
    /// The camera that stands at `lookfrom` and looks at `lookat`, with
    /// `vup` as the rough way up. With `w = unit(lookfrom - lookat)`,
    /// `u = unit(vup x w)` and `v = w x u`, the image plane lies at the
    /// distance `focus_dist` along `-w`; it reaches `half_height *
    /// focus_dist` up and down along `v` and `aspect` times as far to
    /// each side along `u`. The lens has the radius `aperture / 2`.
    pub open spec fn spec_new(
        lookfrom: Vec3,
        lookat: Vec3,
        vup: Vec3,
        half_height: Scalar,
        aspect: Scalar,
        aperture: Scalar,
        focus_dist: Scalar,
    ) -> Camera {
        let half_width = aspect.mul(half_height);
        let w = lookfrom.sub(lookat).unit();
        let u = vup.cross(w).unit();
        let v = w.cross(u);
        Camera {
            origin: lookfrom,
            horizontal: u.mul_scalar(half_width).mul_scalar(focus_dist).mul_scalar(
                Scalar::from_int(2),
            ),
            vertical: v.mul_scalar(half_height).mul_scalar(focus_dist).mul_scalar(
                Scalar::from_int(2),
            ),
            lower_left_corner: lookfrom.sub(u.mul_scalar(half_width).mul_scalar(focus_dist)).sub(
                v.mul_scalar(half_height).mul_scalar(focus_dist),
            ).sub(w.mul_scalar(focus_dist)),
            u,
            v,
            lens_radius: aperture.div(Scalar::from_int(2)),
        }
    }

    /// The camera that stands at `lookfrom` and looks at `lookat`, with
    /// `vup` as the rough way up; `half_height` is the tangent of half
    /// the vertical field of view, `aspect` the width of the image over
    /// its height, `aperture` the width of the lens and `focus_dist` the
    /// distance at which the image is sharp.
    #[verifier::when_used_as_spec(spec_new)]
    pub fn new(
        lookfrom: Vec3,
        lookat: Vec3,
        vup: Vec3,
        half_height: Scalar,
        aspect: Scalar,
        aperture: Scalar,
        focus_dist: Scalar,
    ) -> (c: Camera)
        ensures
            c == Camera::spec_new(lookfrom, lookat, vup, half_height, aspect, aperture, focus_dist),
    {
        let two = Scalar::from_int(2);
        let lens_radius = aperture.div(two);
        let half_width = aspect.mul(half_height);
        let origin = lookfrom;
        let w = lookfrom.sub(lookat).unit();
        let u = vup.cross(w).unit();
        let v = w.cross(u);
        let lower_left_corner = origin.sub(u.mul_scalar(half_width).mul_scalar(focus_dist)).sub(
            v.mul_scalar(half_height).mul_scalar(focus_dist),
        ).sub(w.mul_scalar(focus_dist));
        let horizontal = u.mul_scalar(half_width).mul_scalar(focus_dist).mul_scalar(two);
        let vertical = v.mul_scalar(half_height).mul_scalar(focus_dist).mul_scalar(two);
        Camera { origin, horizontal, vertical, lower_left_corner, u, v, lens_radius }
    }

    /// Where the camera stands.
    pub fn origin(&self) -> (r: Vec3)
        ensures
            r == self.origin,
    {
        self.origin
    }

    /// The span of the image plane from left to right.
    pub fn horizontal(&self) -> (r: Vec3)
        ensures
            r == self.horizontal,
    {
        self.horizontal
    }

    /// The span of the image plane from bottom to top.
    pub fn vertical(&self) -> (r: Vec3)
        ensures
            r == self.vertical,
    {
        self.vertical
    }

    /// The lower left corner of the image plane.
    pub fn lower_left_corner(&self) -> (r: Vec3)
        ensures
            r == self.lower_left_corner,
    {
        self.lower_left_corner
    }

    /// The axis of the camera's frame that points to the right.
    pub fn u(&self) -> (r: Vec3)
        ensures
            r == self.u,
    {
        self.u
    }

    /// The axis of the camera's frame that points up.
    pub fn v(&self) -> (r: Vec3)
        ensures
            r == self.v,
    {
        self.v
    }

    /// The radius of the lens.
    pub fn lens_radius(&self) -> (r: Scalar)
        ensures
            r == self.lens_radius,
    {
        self.lens_radius
    }

    /// How far from the middle of the lens a ray starts, for the point
    /// `disk` of the unit disk.
    pub open spec fn lens_offset(&self, disk: Vec3) -> Vec3 {
        let rd = disk.mul_scalar(self.lens_radius);
        self.u.mul_scalar(rd.x).add(self.v.mul_scalar(rd.y))
    }

    /// The ray through the place `(s, t)` of the image, both from 0 to
    /// 1, that starts on the lens at the point that `disk` stands for:
    /// from `origin + offset` toward `lower_left_corner + s * horizontal
    /// + t * vertical`.
    pub open spec fn ray_through(&self, s: Scalar, t: Scalar, disk: Vec3) -> Ray {
        let offset = self.lens_offset(disk);
        Ray::new(
            self.origin.add(offset),
            self.lower_left_corner.add(self.horizontal.mul_scalar(s)).add(
                self.vertical.mul_scalar(t),
            ).sub(self.origin).sub(offset),
        )
    }

    /// The ray through the place `(s, t)` of the image that starts on
    /// the lens at the point that `disk` stands for.
    pub fn get_ray_with(&self, s: Scalar, t: Scalar, disk: Vec3) -> (r: Ray)
        ensures
            r == self.ray_through(s, t, disk),
    {
        let rd = disk.mul_scalar(self.lens_radius());
        let offset = self.u().mul_scalar(rd.x()).add(self.v().mul_scalar(rd.y()));
        Ray::new(
            self.origin().add(offset),
            self.lower_left_corner().add(self.horizontal().mul_scalar(s)).add(
                self.vertical().mul_scalar(t),
            ).sub(self.origin()).sub(offset),
        )
    }

    /// A ray through the place `(s, t)` of the image that starts at a
    /// random point of the lens. A camera whose lens has the radius 0
    /// draws nothing and never fails; another fails where the disk
    /// sampler gives up.
    pub fn get_ray(&self, s: Scalar, t: Scalar, sampler: &mut Sampler) -> (res: Result<
        Ray,
        SamplingError,
    >)
        ensures
            match res {
                Ok(r) => exists|disk: Vec3|
                    is_disk_sample(disk) && r == #[trigger] self.ray_through(s, t, disk),
                Err(e) => e.draws == MAX_DRAWS && self.lens_radius.raw != 0,
            },
            self.lens_radius.raw == 0 ==> res == Ok::<Ray, SamplingError>(
                self.ray_through(s, t, Vec3::from_ints(0, 0, 0)),
            ),
    {
        if self.lens_radius.raw == 0 {
            proof {
                lemma_centre_is_disk_sample();
            }
            Ok(self.get_ray_with(s, t, Vec3::from_ints(0, 0, 0)))
        } else {
            match random_in_unit_disk(sampler) {
                Ok(disk) => Ok(self.get_ray_with(s, t, disk)),
                Err(e) => Err(e),
            }
        }
    }
}

/// The centre of the disk is a point that the disk sampler may hand out.
pub proof fn lemma_centre_is_disk_sample()
    ensures
        is_disk_sample(Vec3::from_ints(0, 0, 0)),
{
    let half = Scalar { raw: 500_000 };
    let zero = Scalar { raw: 0 };
    assert(half.mul(Scalar::from_int(2)) == Scalar::from_int(1));
    Scalar::lemma_mul_zero(Scalar::from_int(2));
    assert(square_point(half, half) == Vec3::from_ints(0, 0, 0));
    Scalar::lemma_mul_zero(zero);
    assert(Vec3::from_ints(0, 0, 0).dot(Vec3::from_ints(0, 0, 0)) == zero);
}

} // verus!
