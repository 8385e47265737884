//! The light that comes back along a ray: followed from bounce to bounce
//! until it leaves the scene or has bounced too often.

use vstd::prelude::*;
use crate::hitable::Hitable;
use crate::material::is_ball_sample;
use crate::ray::Ray;
use crate::sampling::{is_unit_draw, Sampler, SamplingError, MAX_DRAWS};
use crate::scalar::Scalar;
use crate::vec3::Vec3;

verus! {

/// After how many bounces a path is cut off.
pub const MAX_DEPTH: u32 = 50;

/// The smallest parameter at which a meeting point counts: 0.001, so
/// that a ray does not meet again the surface that it has just left.
pub open spec fn spec_shadow_epsilon() -> Scalar {
    Scalar { raw: 1000 }
}

/// The smallest parameter at which a meeting point counts: 0.001, so
/// that a ray does not meet again the surface that it has just left.
#[verifier::when_used_as_spec(spec_shadow_epsilon)]
pub fn shadow_epsilon() -> (r: Scalar)
    ensures
        r == spec_shadow_epsilon(),
{
    Scalar { raw: 1000 }
}

/// The upper bound for a ray that may go on without end: the largest
/// number there is.
pub open spec fn spec_horizon() -> Scalar {
    Scalar { raw: i64::MAX }
}

/// The upper bound for a ray that may go on without end: the largest
/// number there is.
#[verifier::when_used_as_spec(spec_horizon)]
pub fn horizon() -> (r: Scalar)
    ensures
        r == spec_horizon(),
{
    Scalar { raw: i64::MAX }
}

/// No light.
pub open spec fn spec_black() -> Vec3 {
    Vec3::from_ints(0, 0, 0)
}

/// No light.
#[verifier::when_used_as_spec(spec_black)]
pub fn black() -> (r: Vec3)
    ensures
        r == spec_black(),
{
    Vec3::from_ints(0, 0, 0)
}

/// The colour of the sky along the ray `r`: white at the bottom and the
/// blue `(0.5, 0.7, 1.0)` at the top, blended by `t = 0.5 (y + 1)`, where
/// `y` is the height of the ray's unit direction.
pub open spec fn spec_background(r: Ray) -> Vec3 {
    let t = Scalar { raw: 500_000 }.mul(r.direction.unit().y.add(Scalar::one()));
    Vec3::from_ints(1, 1, 1).mul_scalar(Scalar::one().sub(t)).add(
        Vec3::new(Scalar { raw: 500_000 }, Scalar { raw: 700_000 }, Scalar::one()).mul_scalar(t),
    )
}

/// The colour of the sky along the ray `r`: white at the bottom and the
/// blue `(0.5, 0.7, 1.0)` at the top, blended by `t = 0.5 (y + 1)`, where
/// `y` is the height of the ray's unit direction.
pub fn background(r: &Ray) -> (c: Vec3)
    ensures
        c == spec_background(*r),
{
    let unit_direction = r.direction().unit();
    let t = Scalar { raw: 500_000 }.mul(unit_direction.y().add(Scalar::one()));
    Vec3::from_ints(1, 1, 1).mul_scalar(Scalar::one().sub(t)).add(
        Vec3::new(Scalar { raw: 500_000 }, Scalar { raw: 700_000 }, Scalar::one()).mul_scalar(t),
    )
}

/// The random choices of one bounce: the point of the unit ball that a
/// matt or metal surface uses, and the number between 0 and 1 that glass
/// holds against Schlick's estimate.
#[derive(Clone, Copy, PartialEq, Eq, Structural, Debug)]
pub struct Choice {
    pub sample: Vec3,
    pub chance: Scalar,
}

/// Whether `c` holds random choices that the samplers may hand out.
pub open spec fn is_choice(c: Choice) -> bool {
    is_ball_sample(c.sample) && is_unit_draw(c.chance)
}

/// Whether all of `choices` are random choices that the samplers may
/// hand out.
pub open spec fn are_choices(choices: Seq<Choice>) -> bool {
    forall|k: int| 0 <= k < choices.len() ==> is_choice(#[trigger] choices[k])
}

/// The light that comes back along the ray `r` after `depth` bounces,
/// where the bounces that follow take their random choices from
/// `choices`, in order. A ray that meets nothing brings the sky's colour.
/// One that meets a surface after `MAX_DEPTH` bounces brings no light.
/// Else the surface scatters the ray: where it swallows it no light comes
/// back, and where it sends it on, what comes back along the scattered
/// ray, weakened by the surface's attenuation. `None` where a bounce
/// finds no choices left.
pub open spec fn radiance_along<H: Hitable>(
    world: &H,
    r: Ray,
    depth: u32,
    choices: Seq<Choice>,
) -> Option<Vec3>
    decreases MAX_DEPTH - depth,
{
    match world.hit_spec(r, shadow_epsilon(), horizon()) {
        None => Some(spec_background(r)),
        Some((rec, m)) => if depth >= MAX_DEPTH {
            Some(black())
        } else if choices.len() == 0 {
            None
        } else {
            let out = m.scattered(r, rec.normal, rec.p, choices[0].sample, choices[0].chance);
            if out.2 {
                match radiance_along(world, out.0, (depth + 1) as u32, choices.skip(1)) {
                    Some(inner) => Some(out.1.mul(inner)),
                    None => None,
                }
            } else {
                Some(black())
            }
        },
    }
}

/// Whether `c` is a colour that can come back along the ray `r` after
/// `depth` bounces: the one that comes back for some random choices that
/// the samplers may hand out.
pub open spec fn is_radiance<H: Hitable>(world: &H, r: Ray, depth: u32, c: Vec3) -> bool {
    exists|choices: Seq<Choice>|
        are_choices(choices) && #[trigger] radiance_along(world, r, depth, choices) == Some(c)
}

/// The light that comes back along the ray `r`, which has bounced
/// `depth` times already, where the bounces that follow take their
/// random choices from `choices`, in order; `None` where a bounce finds
/// no choices left.
pub fn color_with<H: Hitable>(r: &Ray, world: &H, depth: u32, choices: &Vec<Choice>) -> (res: Option<
    Vec3,
>)
    ensures
        res == radiance_along(world, *r, depth, choices@),
{
    assert(choices@.skip(0) =~= choices@);
    color_from(r, world, depth, choices, 0)
}

/// The light that comes back along the ray `r`, where the bounces take
/// their random choices from `choices`, beginning at the place `from`.
fn color_from<H: Hitable>(r: &Ray, world: &H, depth: u32, choices: &Vec<Choice>, from: usize) -> (res:
    Option<Vec3>)
    requires
        from <= choices.len(),
    ensures
        res == radiance_along(world, *r, depth, choices@.skip(from as int)),
    decreases MAX_DEPTH - depth,
{
    match world.hit(r, shadow_epsilon(), horizon()) {
        Some((hit_record, material)) => {
            if depth >= MAX_DEPTH {
                Some(black())
            } else if from >= choices.len() {
                None
            } else {
                let choice = choices[from];
                assert(choices@.skip(from as int)[0] == choice);
                assert(choices@.skip(from as int).skip(1) =~= choices@.skip(from + 1));
                let (scattered, attenuation, b) = material.scatter_with(
                    r,
                    hit_record.normal(),
                    hit_record.p(),
                    choice.sample,
                    choice.chance,
                );
                if b {
                    match color_from(&scattered, world, depth + 1, choices, from + 1) {
                        Some(inner) => Some(attenuation.mul(inner)),
                        None => None,
                    }
                } else {
                    Some(black())
                }
            }
        },
        None => Some(background(r)),
    }
}

/// The light that comes back along the ray `r`, which has bounced
/// `depth` times already, with random choices drawn on the way. It
/// fails only where a surface has to scatter the ray and the ball
/// sampler gives up.
pub fn color<H: Hitable>(r: &Ray, world: &H, depth: u32, sampler: &mut Sampler) -> (res: Result<
    Vec3,
    SamplingError,
>)
    ensures
        match res {
            Ok(c) => is_radiance(world, *r, depth, c),
            Err(e) => e.draws == MAX_DRAWS && depth < MAX_DEPTH && world.hit_spec(
                *r,
                shadow_epsilon(),
                horizon(),
            ) is Some,
        },
        world.hit_spec(*r, shadow_epsilon(), horizon()) is None ==> res == Ok::<
            Vec3,
            SamplingError,
        >(spec_background(*r)),
        world.hit_spec(*r, shadow_epsilon(), horizon()) is Some && depth >= MAX_DEPTH ==> res
            == Ok::<Vec3, SamplingError>(black()),
    decreases MAX_DEPTH - depth,
{
    let ghost none: Seq<Choice> = Seq::empty();
    match world.hit(r, shadow_epsilon(), horizon()) {
        Some((hit_record, material)) => {
            if depth < MAX_DEPTH {
                let n = hit_record.normal();
                let p = hit_record.p();
                match material.scatter(r, n, p, sampler) {
                    Ok((scattered, attenuation, b)) => {
                        if b {
                            match color(&scattered, world, depth + 1, sampler) {
                                Ok(inner) => {
                                    proof {
                                        lemma_bounce(
                                            world,
                                            *r,
                                            depth,
                                            (scattered, attenuation, b),
                                            inner,
                                        );
                                    }
                                    Ok(attenuation.mul(inner))
                                },
                                Err(e) => Err(e),
                            }
                        } else {
                            proof {
                                lemma_bounce(world, *r, depth, (scattered, attenuation, b), black());
                            }
                            Ok(black())
                        }
                    },
                    Err(e) => Err(e),
                }
            } else {
                assert(radiance_along(world, *r, depth, none) == Some(black()));
                Ok(black())
            }
        },
        None => {
            assert(radiance_along(world, *r, depth, none) == Some(spec_background(*r)));
            Ok(background(r))
        },
    }
}

/// One bounce: where the surface that `r` meets can scatter it into
/// `out`, and `inner` can come back along the scattered ray, what the
/// bounce makes of `inner` can come back along `r`.
proof fn lemma_bounce<H: Hitable>(world: &H, r: Ray, depth: u32, out: (Ray, Vec3, bool), inner: Vec3)
    requires
        depth < MAX_DEPTH,
        world.hit_spec(r, shadow_epsilon(), horizon()) is Some,
        ({
            let (rec, m) = world.hit_spec(r, shadow_epsilon(), horizon()).unwrap();
            exists|sample: Vec3, chance: Scalar|
                is_ball_sample(sample) && is_unit_draw(chance) && out == #[trigger] m.scattered(
                    r,
                    rec.normal,
                    rec.p,
                    sample,
                    chance,
                )
        }),
        out.2 ==> is_radiance(world, out.0, (depth + 1) as u32, inner),
    ensures
        is_radiance(world, r, depth, if out.2 {
            out.1.mul(inner)
        } else {
            black()
        }),
{
    let (rec, m) = world.hit_spec(r, shadow_epsilon(), horizon()).unwrap();
    let (sample, chance) = choose|sample: Vec3, chance: Scalar|
        is_ball_sample(sample) && is_unit_draw(chance) && out == #[trigger] m.scattered(
            r,
            rec.normal,
            rec.p,
            sample,
            chance,
        );
    let first = Choice { sample, chance };
    let rest = if out.2 {
        choose|rest: Seq<Choice>|
            are_choices(rest) && #[trigger] radiance_along(world, out.0, (depth + 1) as u32, rest)
                == Some(inner)
    } else {
        Seq::empty()
    };
    let choices = seq![first] + rest;
    assert(choices[0] == first);
    assert(choices.skip(1) =~= rest);
    assert(are_choices(choices)) by {
        assert forall|k: int| 0 <= k < choices.len() implies is_choice(#[trigger] choices[k]) by {
            if k > 0 {
                assert(choices[k] == rest[k - 1]);
            }
        }
    }
    assert(radiance_along(world, r, depth, choices) == Some(
        if out.2 {
            out.1.mul(inner)
        } else {
            black()
        },
    ));
}

} // verus!
