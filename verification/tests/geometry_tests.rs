use raytracer::hitable::{HitRecord, Hitable, HitableList, Sphere};
use raytracer::material::Material;
use raytracer::ray::Ray;
use raytracer::scalar::Scalar;
use raytracer::vec3::Vec3;

fn milli(n: i64) -> Scalar {
    Scalar { raw: n * 1000 }
}

fn grey() -> Material {
    Material::Lambertian { attenuation: Vec3::new(milli(500), milli(500), milli(500)) }
}

fn red() -> Material {
    Material::Lambertian { attenuation: Vec3::new(milli(900), milli(100), milli(100)) }
}

fn far_away() -> Scalar {
    Scalar { raw: i64::MAX }
}

fn forward() -> Ray {
    Ray::new(Vec3::from_ints(0, 0, 0), Vec3::from_ints(0, 0, -1))
}

#[test]
fn hit_record_getters() {
    let rec = HitRecord::new(milli(500), Vec3::from_ints(1, 2, 3), Vec3::from_ints(0, 1, 0));
    assert_eq!(rec.t(), milli(500));
    assert_eq!(rec.p(), Vec3::from_ints(1, 2, 3));
    assert_eq!(rec.normal(), Vec3::from_ints(0, 1, 0));
}

#[test]
fn sphere_getters() {
    let s = Sphere::new(Vec3::from_ints(0, 0, -1), milli(500), grey());
    assert_eq!(s.center(), Vec3::from_ints(0, 0, -1));
    assert_eq!(s.radius(), milli(500));
    assert_eq!(*s.material(), grey());
}

#[test]
fn ray_hits_sphere_at_half() {
    let s = Sphere::new(Vec3::from_ints(0, 0, -1), milli(500), grey());
    let (rec, m) = s.hit(&forward(), milli(1), far_away()).expect("the ray meets the sphere");
    assert_eq!(rec.t(), milli(500));
    assert_eq!(rec.p(), Vec3::new(milli(0), milli(0), milli(-500)));
    assert_eq!(rec.normal(), Vec3::from_ints(0, 0, 1));
    assert_eq!(*m, grey());
}

#[test]
fn ray_from_inside_takes_the_far_root() {
    let s = Sphere::new(Vec3::from_ints(0, 0, 0), Scalar::from_int(2), grey());
    let (rec, _) = s.hit(&forward(), milli(1), far_away()).expect("the ray leaves the sphere");
    assert_eq!(rec.t(), Scalar::from_int(2));
    assert_eq!(rec.p(), Vec3::from_ints(0, 0, -2));
    assert_eq!(rec.normal(), Vec3::from_ints(0, 0, -1));
}

#[test]
fn negative_radius_turns_the_normal() {
    let s = Sphere::new(Vec3::from_ints(0, 0, -1), milli(-500), grey());
    let (rec, _) = s.hit(&forward(), milli(1), far_away()).expect("the ray meets the sphere");
    assert_eq!(rec.t(), milli(500));
    assert_eq!(rec.normal(), Vec3::from_ints(0, 0, -1));
}

#[test]
fn direction_need_not_be_a_unit_vector() {
    let s = Sphere::new(Vec3::from_ints(0, 0, -4), Scalar::from_int(1), grey());
    let r = Ray::new(Vec3::from_ints(0, 0, 0), Vec3::from_ints(0, 0, -2));
    let (rec, _) = s.hit(&r, milli(1), far_away()).expect("the ray meets the sphere");
    assert_eq!(rec.t(), milli(1500));
    assert_eq!(rec.p(), Vec3::from_ints(0, 0, -3));
}

#[test]
fn bounds_are_exclusive() {
    let s = Sphere::new(Vec3::from_ints(0, 0, -1), milli(500), grey());
    assert!(s.hit(&forward(), milli(1), milli(500)).is_none());
    let (rec, _) = s.hit(&forward(), milli(500), far_away()).expect("the far side is in reach");
    assert_eq!(rec.t(), milli(1500));
    assert!(s.hit(&forward(), milli(500), milli(1500)).is_none());
    assert!(s.hit(&forward(), milli(1500), far_away()).is_none());
}

#[test]
fn ray_that_misses() {
    let s = Sphere::new(Vec3::from_ints(0, 0, -1), milli(500), grey());
    let up = Ray::new(Vec3::from_ints(0, 0, 0), Vec3::from_ints(0, 1, 0));
    assert!(s.hit(&up, milli(1), far_away()).is_none());
}

#[test]
fn grazing_ray_does_not_hit() {
    let s = Sphere::new(Vec3::from_ints(0, 1, -2), Scalar::from_int(1), grey());
    assert!(s.hit(&forward(), milli(1), far_away()).is_none());
}

#[test]
fn sphere_behind_the_origin_is_not_hit() {
    let s = Sphere::new(Vec3::from_ints(0, 0, 3), Scalar::from_int(1), grey());
    assert!(s.hit(&forward(), milli(1), far_away()).is_none());
}

#[test]
fn ray_without_direction_meets_nothing() {
    let s = Sphere::new(Vec3::from_ints(0, 0, -1), milli(500), grey());
    let still = Ray::new(Vec3::from_ints(0, 0, 0), Vec3::from_ints(0, 0, 0));
    assert!(s.hit(&still, milli(1), far_away()).is_none());
}

#[test]
fn empty_list_is_never_hit() {
    let world = HitableList::new(Vec::new());
    assert!(world.hit(&forward(), milli(1), far_away()).is_none());
}

#[test]
fn nearest_hit_wins_over_first_in_list() {
    let far = Sphere::new(Vec3::from_ints(0, 0, -3), Scalar::from_int(1), grey());
    let near = Sphere::new(Vec3::from_ints(0, 0, -2), Scalar::from_int(1), red());
    let world = HitableList::new(vec![far, near]);
    let (rec, m) = world.hit(&forward(), milli(1), far_away()).expect("both are in the way");
    assert_eq!(rec.t(), Scalar::from_int(1));
    assert_eq!(*m, red());
    let world = HitableList::new(vec![near, far]);
    let (rec, m) = world.hit(&forward(), milli(1), far_away()).expect("both are in the way");
    assert_eq!(rec.t(), Scalar::from_int(1));
    assert_eq!(*m, red());
}

#[test]
fn first_in_list_wins_among_equals() {
    let a = Sphere::new(Vec3::from_ints(0, 0, -2), Scalar::from_int(1), grey());
    let b = Sphere::new(Vec3::from_ints(0, 0, -2), Scalar::from_int(1), red());
    let world = HitableList::new(vec![a, b]);
    let (_, m) = world.hit(&forward(), milli(1), far_away()).expect("both are in the way");
    assert_eq!(*m, grey());
}

#[test]
fn list_keeps_to_the_bounds() {
    let far = Sphere::new(Vec3::from_ints(0, 0, -5), Scalar::from_int(1), grey());
    let near = Sphere::new(Vec3::from_ints(0, 0, -2), Scalar::from_int(1), red());
    let world = HitableList::new(vec![near, far]);
    let (rec, m) = world.hit(&forward(), Scalar::from_int(3), far_away()).expect("the far one");
    assert_eq!(rec.t(), Scalar::from_int(4));
    assert_eq!(*m, grey());
    assert!(world.hit(&forward(), milli(1), milli(900)).is_none());
}
