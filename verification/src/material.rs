//! How a surface sends a ray on: diffuse, metal and glass.

use vstd::prelude::*;
use crate::ray::Ray;
use crate::sampling::{is_unit_draw, Sampler, SamplingError, MAX_DRAWS};
use crate::scalar::{Scalar, SCALE};
use crate::vec3::Vec3;

verus! {

/// The point of the cube from -1 to 1 that three draws from 0 to 1 stand
/// for: each draw doubled, less 1.
pub open spec fn spec_cube_point(a: Scalar, b: Scalar, c: Scalar) -> Vec3 {
    Vec3::new(a, b, c).mul_scalar(Scalar::from_int(2)).sub(Vec3::from_ints(1, 1, 1))
}

/// The point of the cube from -1 to 1 that three draws from 0 to 1 stand
/// for: each draw doubled, less 1.
#[verifier::when_used_as_spec(spec_cube_point)]
pub fn cube_point(a: Scalar, b: Scalar, c: Scalar) -> (p: Vec3)
    ensures
        p == spec_cube_point(a, b, c),
{
    Vec3::new(a, b, c).mul_scalar(Scalar::from_int(2)).sub(Vec3::from_ints(1, 1, 1))
}

/// Whether `p` lies strictly inside the ball of radius 1 about the origin.
pub open spec fn spec_in_unit_ball(p: Vec3) -> bool {
    p.squared_length().raw < SCALE
}

/// Whether `p` lies strictly inside the ball of radius 1 about the origin.
#[verifier::when_used_as_spec(spec_in_unit_ball)]
pub fn in_unit_ball(p: Vec3) -> (r: bool)
    ensures
        r == spec_in_unit_ball(p),
{
    p.squared_length().raw < SCALE
}

/// Whether `p` is a point that the ball sampler may hand out: a point of
/// the cube from -1 to 1, made of three draws, that lies inside the ball.
pub open spec fn is_ball_sample(p: Vec3) -> bool {
    in_unit_ball(p) && exists|a: Scalar, b: Scalar, c: Scalar|
        is_unit_draw(a) && is_unit_draw(b) && is_unit_draw(c) && p == #[trigger] cube_point(
            a,
            b,
            c,
        )
}

/// A random point inside the unit ball: points of the cube from -1 to 1
/// are drawn until one lies inside the ball. After `MAX_DRAWS` points
/// outside it the sampler gives up.
pub fn random_in_unit_sphere(sampler: &mut Sampler) -> (res: Result<Vec3, SamplingError>)
    ensures
        match res {
            Ok(p) => is_ball_sample(p),
            Err(e) => e.draws == MAX_DRAWS,
        },
{
    let mut draws: u32 = 0;
    while draws < MAX_DRAWS
        invariant
            draws <= MAX_DRAWS,
        decreases MAX_DRAWS - draws,
    {
        let (a, b, c) = sampler.triple();
        let p = cube_point(a, b, c);
        if in_unit_ball(p) {
            return Ok(p);
        }
        draws = draws + 1;
    }
    Err(SamplingError { draws })
}

/// `v` mirrored at the plane whose normal is `n`: `v - 2 (v . n) n`.
pub open spec fn spec_reflect(v: Vec3, n: Vec3) -> Vec3 {
    v.sub(n.mul_scalar(v.dot(n)).mul_scalar(Scalar::from_int(2)))
}

/// `v` mirrored at the plane whose normal is `n`: `v - 2 (v . n) n`.
#[verifier::when_used_as_spec(spec_reflect)]
pub fn reflect(v: Vec3, n: Vec3) -> (r: Vec3)
    ensures
        r == spec_reflect(v, n),
{
    v.sub(n.mul_scalar(v.dot(n)).mul_scalar(Scalar::from_int(2)))
}

/// The discriminant of the refraction equation for the unit direction
/// `uv`: `1 - k^2 (1 - (uv . n)^2)`, where `k` is the ratio of the
/// refractive indices.
pub open spec fn refraction_discriminant(uv: Vec3, n: Vec3, ni_over_nt: Scalar) -> Scalar {
    let dt = uv.dot(n);
    Scalar::one().sub(ni_over_nt.mul(ni_over_nt).mul(Scalar::one().sub(dt.mul(dt))))
}

/// The direction of `v` after it passes a surface with normal `n`, by
/// Snell's law; `None` where the discriminant is not positive, which is
/// total internal reflection.
pub open spec fn spec_refract(v: Vec3, n: Vec3, ni_over_nt: Scalar) -> Option<Vec3> {
    let uv = v.unit();
    let dt = uv.dot(n);
    let discriminant = refraction_discriminant(uv, n, ni_over_nt);
    if discriminant.raw > 0 {
        Some(uv.sub(n.mul_scalar(dt)).mul_scalar(ni_over_nt).sub(n.mul_scalar(discriminant.sqrt())))
    } else {
        None
    }
}

/// The direction of `v` after it passes a surface with normal `n`, by
/// Snell's law; `None` where the discriminant is not positive, which is
/// total internal reflection.
#[verifier::when_used_as_spec(spec_refract)]
pub fn refract(v: Vec3, n: Vec3, ni_over_nt: Scalar) -> (r: Option<Vec3>)
    ensures
        r == spec_refract(v, n, ni_over_nt),
{
    let uv = v.unit();
    let dt = uv.dot(n);
    let one = Scalar::one();
    let discriminant = one.sub(ni_over_nt.mul(ni_over_nt).mul(one.sub(dt.mul(dt))));
    if discriminant.raw > 0 {
        Some(uv.sub(n.mul_scalar(dt)).mul_scalar(ni_over_nt).sub(n.mul_scalar(discriminant.sqrt())))
    } else {
        None
    }
}

/// `x` to the fifth power.
pub open spec fn fifth_power(x: Scalar) -> Scalar {
    x.mul(x).mul(x.mul(x)).mul(x)
}

/// Schlick's estimate of how much of the light a glass surface mirrors:
/// `r0 + (1 - r0) (1 - cosine)^5` with `r0 = ((1 - n) / (1 + n))^2`.
pub open spec fn spec_schlik(cosine: Scalar, refraction: Scalar) -> Scalar {
    let one = Scalar::one();
    let q = one.sub(refraction).div(one.add(refraction));
    let r0 = q.mul(q);
    r0.add(one.sub(r0).mul(fifth_power(one.sub(cosine))))
}

/// Schlick's estimate of how much of the light a glass surface mirrors:
/// `r0 + (1 - r0) (1 - cosine)^5` with `r0 = ((1 - n) / (1 + n))^2`.
#[verifier::when_used_as_spec(spec_schlik)]
pub fn schlik(cosine: Scalar, refraction: Scalar) -> (r: Scalar)
    ensures
        r == spec_schlik(cosine, refraction),
{
    let one = Scalar::one();
    let q = one.sub(refraction).div(one.add(refraction));
    let r0 = q.mul(q);
    let x = one.sub(cosine);
    let x2 = x.mul(x);
    r0.add(one.sub(r0).mul(x2.mul(x2).mul(x)))
}

/// What a surface is made of.
#[derive(Clone, Copy, PartialEq, Eq, Structural, Debug)]
pub enum Material {
    /// A matt surface that scatters light to all sides.
    Lambertian { attenuation: Vec3 },
    /// A mirror, blurred by `fuzziness`.
    Metal { attenuation: Vec3, fuzziness: Scalar },
    /// Clear glass with the given refractive index.
    Dielectric { refraction: Scalar },
}

/// Whether a ray along `direction` meets the surface with normal `n`
/// from the inside, on its way out of the glass.
pub open spec fn leaves_glass(direction: Vec3, n: Vec3) -> bool {
    direction.dot(n).raw > 0
}

/// The normal turned against a ray along `direction`.
pub open spec fn outward_normal(direction: Vec3, n: Vec3) -> Vec3 {
    if leaves_glass(direction, n) {
        n.neg()
    } else {
        n
    }
}

/// The ratio of the refractive indices that a ray along `direction`
/// meets: the index itself on the way out of the glass, its inverse on
/// the way in.
pub open spec fn index_ratio(direction: Vec3, n: Vec3, refraction: Scalar) -> Scalar {
    if leaves_glass(direction, n) {
        refraction
    } else {
        Scalar::one().div(refraction)
    }
}

/// The cosine that enters Schlick's estimate for a ray along `direction`.
pub open spec fn fresnel_cosine(direction: Vec3, n: Vec3, refraction: Scalar) -> Scalar {
    if leaves_glass(direction, n) {
        refraction.mul(direction.dot(n)).div(direction.length())
    } else {
        direction.dot(n).neg().div(direction.length())
    }
}

/// Where glass sends a ray along `direction`: mirrored where refraction
/// is impossible or where `chance` falls below Schlick's estimate,
/// refracted otherwise.
pub open spec fn glass_direction(direction: Vec3, n: Vec3, refraction: Scalar, chance: Scalar) -> Vec3 {
    match refract(direction, outward_normal(direction, n), index_ratio(direction, n, refraction)) {
        Some(refracted) => if chance.raw < schlik(
            fresnel_cosine(direction, n, refraction),
            refraction,
        ).raw {
            reflect(direction, n)
        } else {
            refracted
        },
        None => reflect(direction, n),
    }
}

/// Whether glass needs a random number to send a ray along `direction`
/// on: it does where refraction is possible.
pub open spec fn spec_glass_needs_chance(direction: Vec3, n: Vec3, refraction: Scalar) -> bool {
    refract(direction, outward_normal(direction, n), index_ratio(direction, n, refraction)) is Some
}

impl Material {
    /// The scattered ray, the attenuation and whether the ray goes on,
    /// for a ray `r` that meets the surface at `p` with normal `n`, given
    /// the point `sample` of the unit ball and the number `chance`
    /// between 0 and 1 that stand for the random choices.
    #[verifier::opaque]
    pub open spec fn scattered(self, r: Ray, n: Vec3, p: Vec3, sample: Vec3, chance: Scalar) -> (
        Ray,
        Vec3,
        bool,
    ) {
        match self {
            Material::Lambertian { attenuation } => (
                Ray::new(p, p.add(n).add(sample).sub(p)),
                attenuation,
                true,
            ),
            Material::Metal { attenuation, fuzziness } => {
                let direction = reflect(r.direction.unit(), n).add(sample.mul_scalar(fuzziness));
                (Ray::new(p, direction), attenuation, direction.dot(n).raw > 0)
            },
            Material::Dielectric { refraction } => (
                Ray::new(p, glass_direction(r.direction, n, refraction, chance)),
                Vec3::from_ints(1, 1, 1),
                true,
            ),
        }
    }

    /// Scatters the ray `r`, which meets the surface at `p` with normal
    /// `n`, with the random choices handed in: `sample` is the point of
    /// the unit ball that a matt or metal surface uses, `chance` the
    /// number that glass holds against Schlick's estimate.
    pub fn scatter_with(&self, r: &Ray, n: Vec3, p: Vec3, sample: Vec3, chance: Scalar) -> (res: (
        Ray,
        Vec3,
        bool,
    ))
        ensures
            res == self.scattered(*r, n, p, sample, chance),
    {
        reveal(Material::scattered);
        match self {
            Material::Lambertian { attenuation } => {
                let target = p.add(n).add(sample);
                (Ray::new(p, target.sub(p)), *attenuation, true)
            },
            Material::Metal { attenuation, fuzziness } => {
                let reflected = reflect(r.direction().unit(), n);
                let scattered = Ray::new(p, reflected.add(sample.mul_scalar(*fuzziness)));
                let b = scattered.direction().dot(n).raw > 0;
                (scattered, *attenuation, b)
            },
            Material::Dielectric { refraction } => {
                let reflected = reflect(r.direction(), n);
                let d = r.direction().dot(n);
                let (outward, ni_over_nt, cosine) = if d.raw > 0 {
                    (n.neg(), *refraction, refraction.mul(d).div(r.direction().length()))
                } else {
                    (n, Scalar::one().div(*refraction), d.neg().div(r.direction().length()))
                };
                let scattered = match refract(r.direction(), outward, ni_over_nt) {
                    Some(refracted) => {
                        let reflect_prob = schlik(cosine, *refraction);
                        if chance.raw < reflect_prob.raw {
                            Ray::new(p, reflected)
                        } else {
                            Ray::new(p, refracted)
                        }
                    },
                    None => Ray::new(p, reflected),
                };
                (scattered, Vec3::from_ints(1, 1, 1), true)
            },
        }
    }

    /// Whether scattering the ray `r` at a surface with normal `n` takes
    /// a random number: on glass, where refraction is possible.
    pub fn needs_chance(&self, r: &Ray, n: Vec3) -> (b: bool)
        ensures
            b == match *self {
                Material::Dielectric { refraction } => spec_glass_needs_chance(
                    r.direction,
                    n,
                    refraction,
                ),
                _ => false,
            },
    {
        match self {
            Material::Dielectric { refraction } => {
                let d = r.direction().dot(n);
                let (outward, ni_over_nt) = if d.raw > 0 {
                    (n.neg(), *refraction)
                } else {
                    (n, Scalar::one().div(*refraction))
                };
                refract(r.direction(), outward, ni_over_nt).is_some()
            },
            _ => false,
        }
    }

    /// Scatters the ray `r`, which meets the surface at `p` with normal
    /// `n`. A matt or metal surface draws a point of the unit ball, and
    /// fails where the sampler gives up; glass draws a number where it
    /// has to choose between mirroring and refracting, and never fails.
    pub fn scatter(&self, r: &Ray, n: Vec3, p: Vec3, sampler: &mut Sampler) -> (res: Result<
        (Ray, Vec3, bool),
        SamplingError,
    >)
        ensures
            match res {
                Ok(out) => exists|sample: Vec3, chance: Scalar|
                    is_ball_sample(sample) && is_unit_draw(chance) && out == #[trigger] self.scattered(
                        *r,
                        n,
                        p,
                        sample,
                        chance,
                    ),
                Err(e) => e.draws == MAX_DRAWS && !(*self is Dielectric),
            },
            match *self {
                Material::Dielectric { refraction } => !spec_glass_needs_chance(
                    r.direction,
                    n,
                    refraction,
                ) ==> res == Ok::<(Ray, Vec3, bool), SamplingError>(
                    (Ray::new(p, reflect(r.direction, n)), Vec3::from_ints(1, 1, 1), true),
                ),
                _ => true,
            },
    {
        match self {
            Material::Dielectric { .. } => {
                let chance = if self.needs_chance(r, n) {
                    sampler.unit()
                } else {
                    Scalar::zero()
                };
                let out = self.scatter_with(r, n, p, Vec3::from_ints(0, 0, 0), chance);
                proof {
                    lemma_origin_is_ball_sample();
                    assert(out == self.scattered(*r, n, p, Vec3::from_ints(0, 0, 0), chance));
                    reveal(Material::scattered);
                }
                Ok(out)
            },
            _ => {
                match random_in_unit_sphere(sampler) {
                    Ok(sample) => {
                        let out = self.scatter_with(r, n, p, sample, Scalar::zero());
                        assert(out == self.scattered(*r, n, p, sample, Scalar::zero()));
                        Ok(out)
                    },
                    Err(e) => Err(e),
                }
            },
        }
    }
}

/// Total internal reflection: where the discriminant of the refraction
/// equation is not positive, glass mirrors the ray, whatever the random
/// choices are, and asks for no random number.
pub proof fn lemma_total_internal_reflection(
    refraction: Scalar,
    r: Ray,
    n: Vec3,
    p: Vec3,
    sample: Vec3,
    chance: Scalar,
)
    requires
        refraction_discriminant(
            r.direction.unit(),
            outward_normal(r.direction, n),
            index_ratio(r.direction, n, refraction),
        ).raw <= 0,
    ensures
        !spec_glass_needs_chance(r.direction, n, refraction),
        (Material::Dielectric { refraction }).scattered(r, n, p, sample, chance) == (
            Ray::new(p, reflect(r.direction, n)),
            Vec3::from_ints(1, 1, 1),
            true,
        ),
{
    reveal(Material::scattered);
}

/// The centre of the ball is a point that the ball sampler may hand out.
pub proof fn lemma_origin_is_ball_sample()
    ensures
        is_ball_sample(Vec3::from_ints(0, 0, 0)),
{
    let half = Scalar { raw: 500_000 };
    let zero = Scalar { raw: 0 };
    assert(half.mul(Scalar::from_int(2)) == Scalar::from_int(1));
    assert(cube_point(half, half, half) == Vec3::from_ints(0, 0, 0));
    Scalar::lemma_mul_zero(zero);
    assert(Vec3::from_ints(0, 0, 0).squared_length() == zero);
}

} // verus!
