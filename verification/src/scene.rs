//! A scene to look at: a wide ground, three large spheres, and a field
//! of small spheres of random kinds around them.

use vstd::prelude::*;
use crate::hitable::{HitableList, Sphere};
use crate::material::Material;
use crate::sampling::{is_unit_draw, Sampler};
use crate::scalar::Scalar;
use crate::vec3::Vec3;

verus! {

/// How far the field of small spheres reaches from the middle, in
/// cells, along each of the two level axes.
pub const FIELD: i64 = 11;

/// How many cells the field has.
pub const CELLS: i64 = 484;

/// The random numbers that one cell of the field takes: one that picks
/// the material, two that move the centre within the cell, two colours
/// and one for the blur of a metal.
#[derive(Clone, Copy, PartialEq, Eq, Structural, Debug)]
pub struct CellDraws {
    pub choose_mat: Scalar,
    pub jitter_x: Scalar,
    pub jitter_z: Scalar,
    pub first: Vec3,
    pub second: Vec3,
    pub fuzz: Scalar,
}

/// Whether each number in `d` is at least 0 and less than 1.
pub open spec fn are_unit_draws(d: CellDraws) -> bool {
    is_unit_draw(d.choose_mat) && is_unit_draw(d.jitter_x) && is_unit_draw(d.jitter_z)
        && is_unit_draw(d.first.x) && is_unit_draw(d.first.y) && is_unit_draw(d.first.z)
        && is_unit_draw(d.second.x) && is_unit_draw(d.second.y) && is_unit_draw(d.second.z)
        && is_unit_draw(d.fuzz)
}

/// The ground: a matt grey sphere of radius 1000 whose top is at height 0.
pub open spec fn spec_ground() -> Sphere {
    Sphere::new(
        Vec3::from_ints(0, -1000i64, 0),
        Scalar::from_int(1000),
        Material::Lambertian {
            attenuation: Vec3::new(
                Scalar { raw: 500_000 },
                Scalar { raw: 500_000 },
                Scalar { raw: 500_000 },
            ),
        },
    )
}

/// The ground: a matt grey sphere of radius 1000 whose top is at height 0.
#[verifier::when_used_as_spec(spec_ground)]
pub fn ground() -> (s: Sphere)
    ensures
        s == spec_ground(),
{
    Sphere::new(
        Vec3::from_ints(0, -1000i64, 0),
        Scalar::from_int(1000),
        Material::Lambertian {
            attenuation: Vec3::new(
                Scalar { raw: 500_000 },
                Scalar { raw: 500_000 },
                Scalar { raw: 500_000 },
            ),
        },
    )
}

/// The large glass sphere in the middle.
pub open spec fn spec_glass_ball() -> Sphere {
    Sphere::new(
        Vec3::from_ints(0, 1, 0),
        Scalar::from_int(1),
        Material::Dielectric { refraction: Scalar { raw: 1_500_000 } },
    )
}

/// The large glass sphere in the middle.
#[verifier::when_used_as_spec(spec_glass_ball)]
pub fn glass_ball() -> (s: Sphere)
    ensures
        s == spec_glass_ball(),
{
    Sphere::new(
        Vec3::from_ints(0, 1, 0),
        Scalar::from_int(1),
        Material::Dielectric { refraction: Scalar { raw: 1_500_000 } },
    )
}

/// The large matt brown sphere behind it.
pub open spec fn spec_matt_ball() -> Sphere {
    Sphere::new(
        Vec3::from_ints(-4i64, 1, 0),
        Scalar::from_int(1),
        Material::Lambertian {
            attenuation: Vec3::new(
                Scalar { raw: 400_000 },
                Scalar { raw: 200_000 },
                Scalar { raw: 100_000 },
            ),
        },
    )
}

/// The large matt brown sphere behind it.
#[verifier::when_used_as_spec(spec_matt_ball)]
pub fn matt_ball() -> (s: Sphere)
    ensures
        s == spec_matt_ball(),
{
    Sphere::new(
        Vec3::from_ints(-4i64, 1, 0),
        Scalar::from_int(1),
        Material::Lambertian {
            attenuation: Vec3::new(
                Scalar { raw: 400_000 },
                Scalar { raw: 200_000 },
                Scalar { raw: 100_000 },
            ),
        },
    )
}

/// The large clean mirror in front of it.
pub open spec fn spec_mirror_ball() -> Sphere {
    Sphere::new(
        Vec3::from_ints(4, 1, 0),
        Scalar::from_int(1),
        Material::Metal {
            attenuation: Vec3::new(
                Scalar { raw: 700_000 },
                Scalar { raw: 600_000 },
                Scalar { raw: 500_000 },
            ),
            fuzziness: Scalar::zero(),
        },
    )
}

/// The large clean mirror in front of it.
#[verifier::when_used_as_spec(spec_mirror_ball)]
pub fn mirror_ball() -> (s: Sphere)
    ensures
        s == spec_mirror_ball(),
{
    Sphere::new(
        Vec3::from_ints(4, 1, 0),
        Scalar::from_int(1),
        Material::Metal {
            attenuation: Vec3::new(
                Scalar { raw: 700_000 },
                Scalar { raw: 600_000 },
                Scalar { raw: 500_000 },
            ),
            fuzziness: Scalar::zero(),
        },
    )
}

/// The centre of the small sphere of the cell `(a, b)`: at the height
/// 0.2, moved from the cell's corner by 0.9 times the two jitters.
pub open spec fn spec_cell_center(a: i64, b: i64, jitter_x: Scalar, jitter_z: Scalar) -> Vec3 {
    Vec3::new(
        Scalar::from_int(a).add(Scalar { raw: 900_000 }.mul(jitter_x)),
        Scalar { raw: 200_000 },
        Scalar::from_int(b).add(Scalar { raw: 900_000 }.mul(jitter_z)),
    )
}

/// The centre of the small sphere of the cell `(a, b)`: at the height
/// 0.2, moved from the cell's corner by 0.9 times the two jitters.
#[verifier::when_used_as_spec(spec_cell_center)]
pub fn cell_center(a: i64, b: i64, jitter_x: Scalar, jitter_z: Scalar) -> (c: Vec3)
    ensures
        c == spec_cell_center(a, b, jitter_x, jitter_z),
{
    Vec3::new(
        Scalar::from_int(a).add(Scalar { raw: 900_000 }.mul(jitter_x)),
        Scalar { raw: 200_000 },
        Scalar::from_int(b).add(Scalar { raw: 900_000 }.mul(jitter_z)),
    )
}

/// Whether a small sphere at `center` keeps clear of the large mirror:
/// it is more than 0.9 away from the point `(4, 0.2, 0)`.
pub open spec fn spec_keeps_clear(center: Vec3) -> bool {
    center.sub(
        Vec3::new(Scalar::from_int(4), Scalar { raw: 200_000 }, Scalar::zero()),
    ).length().raw > 900_000
}

/// Whether a small sphere at `center` keeps clear of the large mirror:
/// it is more than 0.9 away from the point `(4, 0.2, 0)`.
#[verifier::when_used_as_spec(spec_keeps_clear)]
pub fn keeps_clear(center: Vec3) -> (r: bool)
    ensures
        r == spec_keeps_clear(center),
{
    let mirror = Vec3::new(Scalar::from_int(4), Scalar { raw: 200_000 }, Scalar::zero());
    center.sub(mirror).length().raw > 900_000
}

/// The material of a small sphere. Where `choose_mat` is below 0.8 it
/// is matt, with the product of the two colours; below 0.95 a metal
/// whose colour is halfway between the first colour and white, blurred
/// by half of `fuzz`; else glass with the index 1.5.
pub open spec fn spec_small_material(d: CellDraws) -> Material {
    if d.choose_mat.raw < 800_000 {
        Material::Lambertian { attenuation: d.first.mul(d.second) }
    } else if d.choose_mat.raw < 950_000 {
        Material::Metal {
            attenuation: Vec3::from_ints(1, 1, 1).add(d.first).mul_scalar(Scalar { raw: 500_000 }),
            fuzziness: Scalar { raw: 500_000 }.mul(d.fuzz),
        }
    } else {
        Material::Dielectric { refraction: Scalar { raw: 1_500_000 } }
    }
}

/// The material of a small sphere. Where `choose_mat` is below 0.8 it
/// is matt, with the product of the two colours; below 0.95 a metal
/// whose colour is halfway between the first colour and white, blurred
/// by half of `fuzz`; else glass with the index 1.5.
#[verifier::when_used_as_spec(spec_small_material)]
pub fn small_material(d: CellDraws) -> (m: Material)
    ensures
        m == spec_small_material(d),
{
    if d.choose_mat.raw < 800_000 {
        Material::Lambertian { attenuation: d.first.mul(d.second) }
    } else if d.choose_mat.raw < 950_000 {
        Material::Metal {
            attenuation: Vec3::from_ints(1, 1, 1).add(d.first).mul_scalar(Scalar { raw: 500_000 }),
            fuzziness: Scalar { raw: 500_000 }.mul(d.fuzz),
        }
    } else {
        Material::Dielectric { refraction: Scalar { raw: 1_500_000 } }
    }
}

/// The small sphere of the cell `(a, b)`, of radius 0.2, for the random
/// numbers `d`; none where it would not keep clear of the large mirror.
pub open spec fn spec_small_sphere(a: i64, b: i64, d: CellDraws) -> Option<Sphere> {
    let center = cell_center(a, b, d.jitter_x, d.jitter_z);
    if keeps_clear(center) {
        Some(Sphere::new(center, Scalar { raw: 200_000 }, small_material(d)))
    } else {
        None
    }
}

/// The small sphere of the cell `(a, b)`, of radius 0.2, for the random
/// numbers `d`; none where it would not keep clear of the large mirror.
#[verifier::when_used_as_spec(spec_small_sphere)]
pub fn small_sphere(a: i64, b: i64, d: CellDraws) -> (s: Option<Sphere>)
    ensures
        s == spec_small_sphere(a, b, d),
{
    let center = cell_center(a, b, d.jitter_x, d.jitter_z);
    if keeps_clear(center) {
        Some(Sphere::new(center, Scalar { raw: 200_000 }, small_material(d)))
    } else {
        None
    }
}

/// The random numbers for one cell.
pub fn random_cell_draws(sampler: &mut Sampler) -> (d: CellDraws)
    ensures
        are_unit_draws(d),
{
    let (choose_mat, jitter_x, jitter_z) = sampler.triple();
    let first = sampler.triple();
    let second = sampler.triple();
    CellDraws {
        choose_mat,
        jitter_x,
        jitter_z,
        first: Vec3::new(first.0, first.1, first.2),
        second: Vec3::new(second.0, second.1, second.2),
        fuzz: sampler.unit(),
    }
}

/// The cell with the number `k`, where the cells are counted row by row
/// from the corner `(-FIELD, -FIELD)`, 22 to a row.
pub open spec fn cell_of(k: int) -> (i64, i64) {
    ((k / 22 - FIELD) as i64, (k % 22 - FIELD) as i64)
}

/// The small spheres of the first cells of the field, one cell for each
/// entry of `draws`, in the order of the cells: a cell whose sphere would
/// not keep clear of the large mirror has none.
pub open spec fn field_spheres(draws: Seq<CellDraws>) -> Seq<Sphere>
    decreases draws.len(),
{
    if draws.len() == 0 {
        Seq::empty()
    } else {
        let cell = cell_of(draws.len() - 1);
        let before = field_spheres(draws.drop_last());
        match small_sphere(cell.0, cell.1, draws.last()) {
            Some(s) => before.push(s),
            None => before,
        }
    }
}

/// Whether `spheres` can be the random scene: the ground, then the small
/// spheres of all the cells of the field for some random numbers, then
/// the large glass, matt and mirror spheres.
pub open spec fn is_random_scene(spheres: Seq<Sphere>) -> bool {
    exists|draws: Seq<CellDraws>|
        draws.len() == CELLS && (forall|k: int|
            0 <= k < draws.len() ==> are_unit_draws(#[trigger] draws[k])) && spheres == seq![
            ground(),
        ] + #[trigger] field_spheres(draws) + seq![glass_ball(), matt_ball(), mirror_ball()]
}

/// A field has at most one small sphere for each cell.
pub proof fn lemma_field_size(draws: Seq<CellDraws>)
    ensures
        field_spheres(draws).len() <= draws.len(),
    decreases draws.len(),
{
    if draws.len() > 0 {
        lemma_field_size(draws.drop_last());
    }
}

/// A random scene: the ground, for each cell of the field a small
/// sphere of a random kind unless it would touch the large mirror, and
/// the three large spheres.
pub fn random_scene(sampler: &mut Sampler) -> (world: HitableList)
    ensures
        is_random_scene(world.list@),
        4 <= world.list@.len() <= 4 + CELLS,
        world.list@[0] == ground(),
        world.list@[world.list@.len() - 3] == glass_ball(),
        world.list@[world.list@.len() - 2] == matt_ball(),
        world.list@[world.list@.len() - 1] == mirror_ball(),
{
    let mut list: Vec<Sphere> = Vec::new();
    list.push(ground());
    let ghost mut draws: Seq<CellDraws> = Seq::empty();
    assert(list@ =~= seq![ground()] + field_spheres(draws));
    let mut a: i64 = -FIELD;
    while a < FIELD
        invariant
            -FIELD <= a <= FIELD,
            draws.len() == 22 * (a + FIELD),
            forall|k: int| 0 <= k < draws.len() ==> are_unit_draws(#[trigger] draws[k]),
            list@ == seq![ground()] + field_spheres(draws),
        decreases FIELD - a,
    {
        let mut b: i64 = -FIELD;
        while b < FIELD
            invariant
                -FIELD <= a < FIELD,
                -FIELD <= b <= FIELD,
                draws.len() == 22 * (a + FIELD) + (b + FIELD),
                forall|k: int| 0 <= k < draws.len() ==> are_unit_draws(#[trigger] draws[k]),
                list@ == seq![ground()] + field_spheres(draws),
            decreases FIELD - b,
        {
            let d = random_cell_draws(sampler);
            let ghost before = draws;
            proof {
                draws = draws.push(d);
                assert(draws.drop_last() =~= before);
                assert(cell_of(draws.len() - 1) == (a, b));
            }
            match small_sphere(a, b, d) {
                Some(s) => {
                    list.push(s);
                    assert(list@ =~= seq![ground()] + field_spheres(draws));
                },
                None => {},
            }
            b = b + 1;
        }
        a = a + 1;
    }
    list.push(glass_ball());
    list.push(matt_ball());
    list.push(mirror_ball());
    proof {
        lemma_field_size(draws);
        assert(list@ =~= seq![ground()] + field_spheres(draws) + seq![
            glass_ball(),
            matt_ball(),
            mirror_ball(),
        ]);
    }
    HitableList::new(list)
}

} // verus!
