//! From a scene and a camera to an image: several random rays through
//! each pixel, their mean, gamma correction and eight bits a channel.

use vstd::prelude::*;
use crate::camera::{is_disk_sample, Camera};
use crate::hitable::Hitable;
use crate::integrator::{black, color, is_radiance};
use crate::sampling::{is_unit_draw, Sampler, SamplingError, MAX_DRAWS};
use crate::scalar::{quotient, Scalar, SCALE};
use crate::vec3::Vec3;

verus! {

/// A pixel of the image: red, green and blue, each from 0 to 255.
#[derive(Clone, Copy, PartialEq, Eq, Structural, Debug)]
pub struct Pixel {
    pub r: u8,
    pub g: u8,
    pub b: u8,
}

/// The brightness `c` on the scale from 0 to 255: 255 times `c`, cut to
/// a whole number and held between 0 and 255.
pub open spec fn spec_channel(c: Scalar) -> u8 {
    let v = quotient(255 * c.raw, SCALE as int);
    if v < 0 {
        0
    } else if v > 255 {
        255
    } else {
        v as u8
    }
}

/// The brightness `c` on the scale from 0 to 255: 255 times `c`, cut to
/// a whole number and held between 0 and 255.
#[verifier::when_used_as_spec(spec_channel)]
pub fn channel(c: Scalar) -> (r: u8)
    ensures
        r == spec_channel(c),
{
    if c.raw <= 0 {
        assert(quotient(255 * c.raw, SCALE as int) <= 0);
        0
    } else if c.raw >= SCALE {
        assert(quotient(255 * c.raw, SCALE as int) >= 255);
        255
    } else {
        let v: i64 = (255 * c.raw) / SCALE;
        v as u8
    }
}

/// The pixel for the sum `sum` of the colours of `samples` rays: their
/// mean, the square root of each channel for gamma correction, and each
/// channel brought to the scale from 0 to 255.
pub open spec fn spec_resolve(sum: Vec3, samples: u32) -> Pixel {
    let mean = sum.div_scalar(Scalar::from_int(samples as i64));
    Pixel { r: channel(mean.x.sqrt()), g: channel(mean.y.sqrt()), b: channel(mean.z.sqrt()) }
}

/// The pixel for the sum `sum` of the colours of `samples` rays: their
/// mean, the square root of each channel for gamma correction, and each
/// channel brought to the scale from 0 to 255.
#[verifier::when_used_as_spec(spec_resolve)]
pub fn resolve(sum: Vec3, samples: u32) -> (p: Pixel)
    ensures
        p == spec_resolve(sum, samples),
{
    let mean = sum.div_scalar(Scalar::from_int(samples as i64));
    Pixel { r: channel(mean.x().sqrt()), g: channel(mean.y().sqrt()), b: channel(mean.z().sqrt()) }
}

/// The place on the image, from 0 to 1, of the pixel with the index
/// `index` out of `count` along one axis, moved by `jitter` within the
/// pixel: `(index + jitter) / count`.
pub open spec fn spec_image_coordinate(index: u32, jitter: Scalar, count: u32) -> Scalar {
    Scalar::from_int(index as i64).add(jitter).div(Scalar::from_int(count as i64))
}

/// The place on the image, from 0 to 1, of the pixel with the index
/// `index` out of `count` along one axis, moved by `jitter` within the
/// pixel: `(index + jitter) / count`.
#[verifier::when_used_as_spec(spec_image_coordinate)]
pub fn image_coordinate(index: u32, jitter: Scalar, count: u32) -> (r: Scalar)
    ensures
        r == spec_image_coordinate(index, jitter, count),
{
    Scalar::from_int(index as i64).add(jitter).div(Scalar::from_int(count as i64))
}

/// Whether `c` can be the colour of one random ray through the pixel in
/// column `at.0` and row `at.1` of an image of `size.0` by `size.1`
/// pixels: the ray goes through a random place within the pixel, starts
/// at a random point of the lens, and brings `c` back.
pub open spec fn is_sample<H: Hitable>(
    world: &H,
    camera: Camera,
    at: (u32, u32),
    size: (u32, u32),
    c: Vec3,
) -> bool {
    exists|du: Scalar, dv: Scalar, disk: Vec3|
        is_unit_draw(du) && is_unit_draw(dv) && is_disk_sample(disk) && #[trigger] is_radiance(
            world,
            camera.ray_through(
                image_coordinate(at.0, du, size.0),
                image_coordinate(at.1, dv, size.1),
                disk,
            ),
            0,
            c,
        )
}

/// The sum of the colours, added one after the other to black.
pub open spec fn colour_sum(colours: Seq<Vec3>) -> Vec3
    decreases colours.len(),
{
    if colours.len() == 0 {
        black()
    } else {
        colour_sum(colours.drop_last()).add(colours.last())
    }
}

/// Whether `p` can be the pixel in column `at.0` and row `at.1`: the
/// pixel for the sum of the colours of `samples` random rays through it.
pub open spec fn is_pixel<H: Hitable>(
    world: &H,
    camera: Camera,
    at: (u32, u32),
    size: (u32, u32),
    samples: u32,
    p: Pixel,
) -> bool {
    exists|colours: Seq<Vec3>|
        colours.len() == samples && (forall|k: int|
            0 <= k < colours.len() ==> is_sample(world, camera, at, size, #[trigger] colours[k]))
            && p == resolve(#[trigger] colour_sum(colours), samples)
}

/// The pixel in column `at.0` and row `at.1` of an image of `size.0` by
/// `size.1` pixels, from `samples` random rays through it. It fails
/// where a sampler gives up.
pub fn sample_pixel<H: Hitable>(
    world: &H,
    camera: &Camera,
    at: (u32, u32),
    size: (u32, u32),
    samples: u32,
    sampler: &mut Sampler,
) -> (res: Result<Pixel, SamplingError>)
    ensures
        match res {
            Ok(p) => is_pixel(world, *camera, at, size, samples, p),
            Err(e) => e.draws == MAX_DRAWS && samples > 0,
        },
{
    let mut col = black();
    let ghost mut colours: Seq<Vec3> = Seq::empty();
    let mut i: u32 = 0;
    while i < samples
        invariant
            i <= samples,
            colours.len() == i,
            forall|k: int|
                0 <= k < colours.len() ==> is_sample(world, *camera, at, size, #[trigger] colours[k]),
            col == colour_sum(colours),
        decreases samples - i,
    {
        let (du, dv) = sampler.pair();
        let u = image_coordinate(at.0, du, size.0);
        let v = image_coordinate(at.1, dv, size.1);
        let r = match camera.get_ray(u, v, sampler) {
            Ok(r) => r,
            Err(e) => {
                return Err(e);
            },
        };
        let c = match color(&r, world, 0, sampler) {
            Ok(c) => c,
            Err(e) => {
                return Err(e);
            },
        };
        col = col.add(c);
        proof {
            let disk = choose|disk: Vec3|
                is_disk_sample(disk) && r == #[trigger] camera.ray_through(u, v, disk);
            assert(is_radiance(world, camera.ray_through(u, v, disk), 0, c));
            assert(is_sample(world, *camera, at, size, c));
            let before = colours;
            colours = colours.push(c);
            assert(colours.drop_last() =~= before);
        }
        i = i + 1;
    }
    Ok(resolve(col, samples))
}

/// The column of the `k`-th pixel of an image that is `width` pixels
/// wide, counted row by row.
pub open spec fn column_of(k: int, width: u32) -> u32 {
    (k % (width as int)) as u32
}

/// The row of the `k`-th pixel of an image of `width` by `height`
/// pixels: the top row, which has the largest number, comes first.
pub open spec fn row_of(k: int, width: u32, height: u32) -> u32 {
    (height - 1 - k / (width as int)) as u32
}

/// Whether `pixels` can be the first `pixels.len()` pixels of the image,
/// row by row from the top row down, each row from left to right.
pub open spec fn is_image_prefix<H: Hitable>(
    world: &H,
    camera: Camera,
    size: (u32, u32),
    samples: u32,
    pixels: Seq<Pixel>,
) -> bool {
    forall|k: int|
        0 <= k < pixels.len() ==> is_pixel(
            world,
            camera,
            (column_of(k, size.0), row_of(k, size.0, size.1)),
            size,
            samples,
            #[trigger] pixels[k],
        )
}

/// The image of the scene `world` seen through `camera`, `width` by
/// `height` pixels, each from `samples` random rays: the pixels row by
/// row from the top row down, each row from left to right. It fails
/// where a sampler gives up.
pub fn render<H: Hitable>(
    world: &H,
    camera: &Camera,
    width: u32,
    height: u32,
    samples: u32,
    sampler: &mut Sampler,
) -> (res: Result<Vec<Pixel>, SamplingError>)
    ensures
        match res {
            Ok(pixels) => pixels@.len() == width * height && is_image_prefix(
                world,
                *camera,
                (width, height),
                samples,
                pixels@,
            ),
            Err(e) => e.draws == MAX_DRAWS && samples > 0 && width > 0 && height > 0,
        },
{
    let mut pixels: Vec<Pixel> = Vec::new();
    let mut h: u32 = height;
    while h > 0
        invariant
            h <= height,
            pixels@.len() == (height - h) * width,
            is_image_prefix(world, *camera, (width, height), samples, pixels@),
        decreases h,
    {
        h = h - 1;
        let mut w: u32 = 0;
        while w < width
            invariant
                w <= width,
                h < height,
                pixels@.len() == (height - 1 - h) * width + w,
                is_image_prefix(world, *camera, (width, height), samples, pixels@),
            decreases width - w,
        {
            let p = match sample_pixel(world, camera, (w, h), (width, height), samples, sampler) {
                Ok(p) => p,
                Err(e) => {
                    return Err(e);
                },
            };
            proof {
                let k = pixels@.len() as int;
                lemma_pixel_place(k, w, h, width, height);
            }
            let ghost before = pixels@;
            pixels.push(p);
            assert forall|k: int| 0 <= k < pixels@.len() implies is_pixel(
                world,
                *camera,
                (column_of(k, width), row_of(k, width, height)),
                (width, height),
                samples,
                #[trigger] pixels@[k],
            ) by {
                if k < before.len() {
                    assert(pixels@[k] == before[k]);
                }
            }
            w = w + 1;
        }
        assert((height - 1 - h) * width + width == (height - h) * width) by (nonlinear_arith);
    }
    assert((height - 0) * width == width * height) by (nonlinear_arith);
    Ok(pixels)
}

/// The pixel in column `w` of the row `h` is the one with the number
/// `(height - 1 - h) * width + w`.
proof fn lemma_pixel_place(k: int, w: u32, h: u32, width: u32, height: u32)
    requires
        w < width,
        h < height,
        k == (height - 1 - h) * width + w,
    ensures
        column_of(k, width) == w,
        row_of(k, width, height) == h,
{
    let rows = (height - 1 - h) as int;
    vstd::arithmetic::div_mod::lemma_fundamental_div_mod_converse(k, width as int, rows, w as int);
}

} // verus!
