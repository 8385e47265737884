use raytracer::hitable::Sphere;
use raytracer::material::Material;
use raytracer::sampling::Sampler;
use raytracer::scalar::{Scalar, SCALE};
use raytracer::scene::{
    cell_center, glass_ball, ground, keeps_clear, matt_ball, mirror_ball, random_cell_draws,
    random_scene, small_material, small_sphere, CellDraws, CELLS, FIELD,
};
use raytracer::vec3::Vec3;

fn val(raw: i64) -> Scalar {
    Scalar { raw }
}

fn triple(x: i64, y: i64, z: i64) -> Vec3 {
    Vec3::new(val(x), val(y), val(z))
}

fn draws(choose_mat: i64) -> CellDraws {
    CellDraws {
        choose_mat: val(choose_mat),
        jitter_x: val(500_000),
        jitter_z: val(0),
        first: triple(500_000, 200_000, 0),
        second: triple(500_000, 500_000, 999_999),
        fuzz: val(300_000),
    }
}

#[test]
fn field_constants() {
    assert_eq!(FIELD, 11);
    assert_eq!(CELLS, 484);
}

#[test]
fn the_four_fixed_spheres() {
    assert_eq!(ground().center(), Vec3::from_ints(0, -1000, 0));
    assert_eq!(ground().radius(), Scalar::from_int(1000));
    assert_eq!(*ground().material(), Material::Lambertian { attenuation: triple(500_000, 500_000, 500_000) });
    assert_eq!(
        glass_ball(),
        Sphere::new(Vec3::from_ints(0, 1, 0), Scalar::from_int(1), Material::Dielectric { refraction: val(1_500_000) })
    );
    assert_eq!(
        matt_ball(),
        Sphere::new(
            Vec3::from_ints(-4, 1, 0),
            Scalar::from_int(1),
            Material::Lambertian { attenuation: triple(400_000, 200_000, 100_000) }
        )
    );
    assert_eq!(
        mirror_ball(),
        Sphere::new(
            Vec3::from_ints(4, 1, 0),
            Scalar::from_int(1),
            Material::Metal { attenuation: triple(700_000, 600_000, 500_000), fuzziness: val(0) }
        )
    );
}

#[test]
fn cell_centres() {
    assert_eq!(cell_center(-11, 10, val(0), val(999_999)), triple(-11_000_000, 200_000, 10_899_999));
    assert_eq!(cell_center(3, -2, val(500_000), val(500_000)), triple(3_450_000, 200_000, -1_550_000));
}

#[test]
fn small_spheres_keep_clear_of_the_mirror() {
    assert!(!keeps_clear(triple(4_000_000, 200_000, 0)));
    assert!(!keeps_clear(triple(4_900_000, 200_000, 0)));
    assert!(keeps_clear(triple(4_900_002, 200_000, 0)));
    assert!(!keeps_clear(triple(4_500_000, 200_000, 700_000)));
    assert!(keeps_clear(triple(0, 200_000, 0)));
    assert_eq!(small_sphere(4, 0, draws(0)), None);
    assert_eq!(small_sphere(3, 0, draws(0)), None);
}

#[test]
fn small_materials_by_the_first_draw() {
    let matt = Material::Lambertian { attenuation: triple(250_000, 100_000, 0) };
    assert_eq!(small_material(draws(0)), matt);
    assert_eq!(small_material(draws(799_999)), matt);
    let metal = Material::Metal { attenuation: triple(750_000, 600_000, 500_000), fuzziness: val(150_000) };
    assert_eq!(small_material(draws(800_000)), metal);
    assert_eq!(small_material(draws(949_999)), metal);
    let glass = Material::Dielectric { refraction: val(1_500_000) };
    assert_eq!(small_material(draws(950_000)), glass);
    assert_eq!(small_material(draws(999_999)), glass);
}

#[test]
fn small_sphere_of_a_cell() {
    let s = small_sphere(-3, 7, draws(900_000)).expect("far from the mirror");
    assert_eq!(s.center(), triple(-2_550_000, 200_000, 7_000_000));
    assert_eq!(s.radius(), val(200_000));
    assert_eq!(*s.material(), small_material(draws(900_000)));
}

#[test]
fn cell_draws_are_unit_draws() {
    let mut sampler = Sampler::new(41);
    for _ in 0..200 {
        let d = random_cell_draws(&mut sampler);
        for u in [
            d.choose_mat, d.jitter_x, d.jitter_z, d.first.x, d.first.y, d.first.z, d.second.x,
            d.second.y, d.second.z, d.fuzz,
        ] {
            assert!(0 <= u.raw && u.raw < SCALE);
        }
    }
}

#[test]
fn random_scene_has_the_fixed_spheres_around_the_field() {
    let mut sampler = Sampler::new(42);
    for _ in 0..5 {
        let world = random_scene(&mut sampler);
        let n = world.list.len();
        assert!(4 <= n && n <= 488, "{} spheres", n);
        assert!(n >= 400, "only {} spheres", n);
        assert_eq!(world.list[0], ground());
        assert_eq!(world.list[n - 3], glass_ball());
        assert_eq!(world.list[n - 2], matt_ball());
        assert_eq!(world.list[n - 1], mirror_ball());
        let mut kinds = [0, 0, 0];
        for s in &world.list[1..n - 3] {
            assert_eq!(s.radius(), val(200_000));
            assert_eq!(s.center().y, val(200_000));
            assert!(-11_000_000 <= s.center().x.raw && s.center().x.raw < 10_900_000);
            assert!(-11_000_000 <= s.center().z.raw && s.center().z.raw < 10_900_000);
            assert!(keeps_clear(s.center()));
            match s.material() {
                Material::Lambertian { attenuation } => {
                    kinds[0] += 1;
                    assert!(0 <= attenuation.x.raw && attenuation.x.raw < SCALE);
                }
                Material::Metal { attenuation, fuzziness } => {
                    kinds[1] += 1;
                    assert!(500_000 <= attenuation.x.raw && attenuation.x.raw < SCALE);
                    assert!(0 <= fuzziness.raw && fuzziness.raw < 500_000);
                }
                Material::Dielectric { refraction } => {
                    kinds[2] += 1;
                    assert_eq!(*refraction, val(1_500_000));
                }
            }
        }
        assert!(kinds[0] > kinds[1] && kinds[1] > 0, "kinds {:?}", kinds);
    }
}

#[test]
fn one_seed_gives_one_scene() {
    let first = random_scene(&mut Sampler::new(5)).list;
    let again = random_scene(&mut Sampler::new(5)).list;
    let other = random_scene(&mut Sampler::new(6)).list;
    assert_eq!(first, again);
    assert_ne!(first, other);
}
