use raytracer::material::{
    cube_point, in_unit_ball, random_in_unit_sphere, reflect, refract, schlik, Material,
};
use raytracer::ray::Ray;
use raytracer::sampling::{million_digit, Sampler, SamplingError, MAX_DRAWS};
use raytracer::scalar::{Scalar, SCALE};
use raytracer::vec3::Vec3;

fn micro(raw: i64) -> Scalar {
    Scalar { raw }
}

fn point(x: i64, y: i64, z: i64) -> Vec3 {
    Vec3::new(micro(x), micro(y), micro(z))
}

fn glass() -> Material {
    Material::Dielectric { refraction: micro(1_500_000) }
}

#[test]
fn random_unit_is_at_least_zero_and_below_one() {
    let mut sampler = Sampler::new(1);
    let mut smallest = SCALE;
    let mut largest = -1;
    for _ in 0..10_000 {
        let u = sampler.unit();
        assert!(0 <= u.raw && u.raw < SCALE, "drew {}", u.raw);
        smallest = smallest.min(u.raw);
        largest = largest.max(u.raw);
    }
    assert!(smallest < 100_000, "smallest of 10000 draws: {}", smallest);
    assert!(largest >= 900_000, "largest of 10000 draws: {}", largest);
}

#[test]
fn digits_to_the_base_of_a_million() {
    let n = 123_456_789_012_345_678;
    assert_eq!(million_digit(n, 0), micro(345_678));
    assert_eq!(million_digit(n, 1), micro(789_012));
    assert_eq!(million_digit(n, 2), micro(123_456));
    assert_eq!(million_digit(n, 3), micro(0));
    assert_eq!(million_digit(999_999, 0), micro(999_999));
    assert_eq!(million_digit(1_000_000, 0), micro(0));
    assert_eq!(million_digit(1_000_000, 1), micro(1));
    assert_eq!(million_digit(u64::MAX, 2), micro(446_744));
    assert_eq!(million_digit(u64::MAX, 1), micro(73_709));
    assert_eq!(million_digit(u64::MAX, 0), micro(551_615));
}

#[test]
fn pairs_and_triples_are_unit_draws() {
    let mut sampler = Sampler::new(2);
    let mut low = [SCALE; 5];
    let mut high = [-1; 5];
    for _ in 0..10_000 {
        let (a, b) = sampler.pair();
        let (c, d, e) = sampler.triple();
        for (i, u) in [a, b, c, d, e].iter().enumerate() {
            assert!(0 <= u.raw && u.raw < SCALE, "drew {}", u.raw);
            low[i] = low[i].min(u.raw);
            high[i] = high[i].max(u.raw);
        }
    }
    for i in 0..5 {
        assert!(low[i] < 100_000, "smallest of 10000 draws at place {}: {}", i, low[i]);
        assert!(high[i] >= 900_000, "largest of 10000 draws at place {}: {}", i, high[i]);
    }
}

#[test]
fn sampling_error_holds_the_number_of_draws() {
    let e = SamplingError { draws: MAX_DRAWS };
    assert_eq!(e.draws, 1000);
    assert_eq!(e, SamplingError { draws: 1000 });
}

#[test]
fn cube_points() {
    assert_eq!(cube_point(micro(500_000), micro(500_000), micro(500_000)), point(0, 0, 0));
    assert_eq!(cube_point(micro(0), micro(0), micro(0)), Vec3::from_ints(-1, -1, -1));
    assert_eq!(
        cube_point(micro(999_999), micro(250_000), micro(750_000)),
        point(999_998, -500_000, 500_000)
    );
}

#[test]
fn unit_ball_is_open() {
    assert!(in_unit_ball(point(0, 0, 0)));
    assert!(in_unit_ball(point(999_999, 0, 0)));
    assert!(!in_unit_ball(point(1_000_000, 0, 0)));
    assert!(!in_unit_ball(point(600_000, 600_000, 600_000)));
    assert!(in_unit_ball(point(-500_000, 500_000, -500_000)));
}

#[test]
fn ball_samples_lie_in_the_ball() {
    let mut sampler = Sampler::new(3);
    for _ in 0..1000 {
        let p = random_in_unit_sphere(&mut sampler).expect("a thousand draws are enough");
        assert!(p.squared_length().raw < SCALE);
        assert!(in_unit_ball(p));
        assert!(-SCALE <= p.x.raw && p.x.raw < SCALE);
        assert!(-SCALE <= p.y.raw && p.y.raw < SCALE);
        assert!(-SCALE <= p.z.raw && p.z.raw < SCALE);
    }
}

#[test]
fn reflection_mirrors_at_the_normal() {
    assert_eq!(
        reflect(Vec3::from_ints(1, -1, 0), Vec3::from_ints(0, 1, 0)),
        Vec3::from_ints(1, 1, 0)
    );
    assert_eq!(
        reflect(Vec3::from_ints(0, 0, -1), Vec3::from_ints(0, 0, 1)),
        Vec3::from_ints(0, 0, 1)
    );
    assert_eq!(
        reflect(Vec3::from_ints(1, 0, 0), Vec3::from_ints(0, 1, 0)),
        Vec3::from_ints(1, 0, 0)
    );
}

#[test]
fn refraction_head_on_goes_straight() {
    let r = refract(Vec3::from_ints(0, -3, 0), Vec3::from_ints(0, 1, 0), micro(666_666));
    assert_eq!(r, Some(Vec3::from_ints(0, -1, 0)));
}

#[test]
fn refraction_bends_toward_the_normal() {
    let v = point(600_000, -800_000, 0);
    let r = refract(v, Vec3::from_ints(0, 1, 0), micro(500_000)).expect("into the denser side");
    assert_eq!(r, point(300_000, -953_939, 0));
}

#[test]
fn refraction_fails_beyond_the_critical_angle() {
    let v = point(1_000_000, -100_000, 0);
    assert_eq!(refract(v, Vec3::from_ints(0, 1, 0), micro(1_500_000)), None);
}

#[test]
fn schlick_estimate() {
    assert_eq!(schlik(micro(1_000_000), micro(1_500_000)), micro(40_000));
    assert_eq!(schlik(micro(0), micro(1_500_000)), micro(1_000_000));
    assert_eq!(schlik(micro(500_000), micro(1_500_000)), micro(70_000));
    assert_eq!(schlik(micro(1_000_000), micro(1_000_000)), micro(0));
}

#[test]
fn matt_surface_scatters_about_the_normal() {
    let albedo = point(500_000, 400_000, 300_000);
    let m = Material::Lambertian { attenuation: albedo };
    let r = Ray::new(Vec3::from_ints(0, 0, 0), Vec3::from_ints(0, 0, -1));
    let p = point(0, 0, -500_000);
    let n = Vec3::from_ints(0, 0, 1);
    let sample = point(100_000, 200_000, 300_000);
    let (scattered, attenuation, goes_on) = m.scatter_with(&r, n, p, sample, micro(0));
    assert_eq!(scattered, Ray::new(p, point(100_000, 200_000, 1_300_000)));
    assert_eq!(attenuation, albedo);
    assert!(goes_on);
}

#[test]
fn clean_metal_mirrors() {
    let albedo = point(800_000, 600_000, 200_000);
    let m = Material::Metal { attenuation: albedo, fuzziness: micro(0) };
    let r = Ray::new(Vec3::from_ints(0, 5, 0), Vec3::from_ints(3, -3, 0));
    let p = Vec3::from_ints(5, 0, 0);
    let n = Vec3::from_ints(0, 1, 0);
    let sample = point(100_000, 200_000, 300_000);
    let (scattered, attenuation, goes_on) = m.scatter_with(&r, n, p, sample, micro(0));
    assert_eq!(scattered, Ray::new(p, point(707_106, 707_106, 0)));
    assert_eq!(attenuation, albedo);
    assert!(goes_on);
}

#[test]
fn blurred_metal_moves_the_mirrored_ray() {
    let m = Material::Metal { attenuation: Vec3::from_ints(1, 1, 1), fuzziness: micro(500_000) };
    let r = Ray::new(Vec3::from_ints(0, 5, 0), Vec3::from_ints(0, -2, 0));
    let p = Vec3::from_ints(0, 0, 0);
    let n = Vec3::from_ints(0, 1, 0);
    let sample = point(200_000, -400_000, 600_000);
    let (scattered, _, goes_on) = m.scatter_with(&r, n, p, sample, micro(0));
    assert_eq!(scattered, Ray::new(p, point(100_000, 800_000, 300_000)));
    assert!(goes_on);
}

#[test]
fn metal_swallows_a_ray_blurred_into_the_surface() {
    let m = Material::Metal { attenuation: Vec3::from_ints(1, 1, 1), fuzziness: micro(1_000_000) };
    let r = Ray::new(Vec3::from_ints(0, 5, 0), Vec3::from_ints(3, -3, 0));
    let p = Vec3::from_ints(5, 0, 0);
    let n = Vec3::from_ints(0, 1, 0);
    let sample = point(0, -900_000, 0);
    let (scattered, _, goes_on) = m.scatter_with(&r, n, p, sample, micro(0));
    assert_eq!(scattered.direction(), point(707_106, -192_894, 0));
    assert!(!goes_on);
}

#[test]
fn glass_reflects_totally_beyond_the_critical_angle() {
    let r = Ray::new(Vec3::from_ints(0, 0, 0), point(1_000_000, 100_000, 0));
    let p = Vec3::from_ints(1, 0, 0);
    let n = Vec3::from_ints(0, 1, 0);
    assert!(!glass().needs_chance(&r, n));
    for chance in [0, 1, 39_999, 40_000, 500_000, 999_999] {
        let (scattered, attenuation, goes_on) =
            glass().scatter_with(&r, n, p, point(0, 0, 0), micro(chance));
        assert_eq!(scattered, Ray::new(p, point(1_000_000, -100_000, 0)));
        assert_eq!(attenuation, Vec3::from_ints(1, 1, 1));
        assert!(goes_on);
    }
    let mut sampler = Sampler::new(4);
    for _ in 0..100 {
        let (scattered, _, _) = glass().scatter(&r, n, p, &mut sampler).expect("glass never fails");
        assert_eq!(scattered, Ray::new(p, point(1_000_000, -100_000, 0)));
    }
}

#[test]
fn glass_chooses_by_the_schlick_estimate() {
    let r = Ray::new(Vec3::from_ints(0, 5, 0), Vec3::from_ints(0, -1, 0));
    let p = Vec3::from_ints(0, 0, 0);
    let n = Vec3::from_ints(0, 1, 0);
    assert!(glass().needs_chance(&r, n));
    let (mirrored, _, _) = glass().scatter_with(&r, n, p, point(0, 0, 0), micro(39_999));
    assert_eq!(mirrored, Ray::new(p, Vec3::from_ints(0, 1, 0)));
    let (refracted, attenuation, goes_on) =
        glass().scatter_with(&r, n, p, point(0, 0, 0), micro(40_000));
    assert_eq!(refracted, Ray::new(p, Vec3::from_ints(0, -1, 0)));
    assert_eq!(attenuation, Vec3::from_ints(1, 1, 1));
    assert!(goes_on);
}

#[test]
fn glass_refracts_a_ray_that_leaves_it() {
    let r = Ray::new(Vec3::from_ints(0, -5, 0), Vec3::from_ints(0, 2, 0));
    let p = Vec3::from_ints(0, 0, 0);
    let n = Vec3::from_ints(0, 1, 0);
    let (out, _, _) = glass().scatter_with(&r, n, p, point(0, 0, 0), micro(999_999));
    assert_eq!(out, Ray::new(p, Vec3::from_ints(0, 1, 0)));
}

#[test]
fn random_scatter_of_a_matt_surface_stays_near_the_normal() {
    let albedo = point(500_000, 500_000, 500_000);
    let m = Material::Lambertian { attenuation: albedo };
    let r = Ray::new(Vec3::from_ints(0, 0, 0), Vec3::from_ints(0, 0, -1));
    let p = point(0, 0, -500_000);
    let n = Vec3::from_ints(0, 0, 1);
    let mut sampler = Sampler::new(5);
    for _ in 0..200 {
        let (scattered, attenuation, goes_on) =
            m.scatter(&r, n, p, &mut sampler).expect("a sample is found");
        assert_eq!(scattered.origin(), p);
        assert!(in_unit_ball(scattered.direction().sub(n)));
        assert_eq!(attenuation, albedo);
        assert!(goes_on);
    }
}

#[test]
fn random_scatter_of_clean_metal_is_the_mirror_image() {
    let m = Material::Metal { attenuation: Vec3::from_ints(1, 1, 1), fuzziness: micro(0) };
    let r = Ray::new(Vec3::from_ints(0, 5, 0), Vec3::from_ints(3, -3, 0));
    let p = Vec3::from_ints(5, 0, 0);
    let n = Vec3::from_ints(0, 1, 0);
    let mut sampler = Sampler::new(6);
    for _ in 0..50 {
        let (scattered, _, goes_on) = m.scatter(&r, n, p, &mut sampler).expect("a sample is found");
        assert_eq!(scattered, Ray::new(p, point(707_106, 707_106, 0)));
        assert!(goes_on);
    }
}

#[test]
fn samplers_of_one_seed_give_the_same_numbers() {
    let mut a = Sampler::new(2024);
    let mut b = Sampler::new(2024);
    let mut c = Sampler::new(2025);
    let mut differs = false;
    for _ in 0..100 {
        let x = a.triple();
        assert_eq!(x, b.triple());
        differs = differs || x != c.triple();
        assert_eq!(a.unit(), b.unit());
        assert_eq!(a.pair(), b.pair());
        c.unit();
        c.pair();
    }
    assert!(differs, "two seeds gave the same three hundred numbers");
}

#[test]
fn glass_scatters_both_ways_head_on() {
    let r = Ray::new(Vec3::from_ints(0, 5, 0), Vec3::from_ints(0, -1, 0));
    let p = Vec3::from_ints(0, 0, 0);
    let n = Vec3::from_ints(0, 1, 0);
    let mut sampler = Sampler::new(7);
    let mut mirrored = 0;
    let mut refracted = 0;
    for _ in 0..2000 {
        let (scattered, _, goes_on) = glass().scatter(&r, n, p, &mut sampler).expect("glass never fails");
        assert!(goes_on);
        if scattered.direction() == Vec3::from_ints(0, 1, 0) {
            mirrored += 1;
        } else {
            assert_eq!(scattered.direction(), Vec3::from_ints(0, -1, 0));
            refracted += 1;
        }
    }
    assert!(0 < mirrored && mirrored < 200, "{} of 2000 rays were mirrored", mirrored);
    assert_eq!(mirrored + refracted, 2000);
}
