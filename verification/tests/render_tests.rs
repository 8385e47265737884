use raytracer::camera::Camera;
use raytracer::hitable::{HitableList, Sphere};
use raytracer::material::Material;
use raytracer::ppm::{ppm, push_decimal, push_pixel_line};
use raytracer::render::{channel, image_coordinate, render, resolve, sample_pixel, Pixel};
use raytracer::sampling::Sampler;
use raytracer::scalar::Scalar;
use raytracer::vec3::Vec3;

fn raw(n: i64) -> Scalar {
    Scalar { raw: n }
}

fn simple_camera() -> Camera {
    Camera::new(
        Vec3::from_ints(0, 0, 0),
        Vec3::from_ints(0, 0, -1),
        Vec3::from_ints(0, 1, 0),
        Scalar::from_int(1),
        Scalar::from_int(2),
        Scalar::zero(),
        Scalar::from_int(1),
    )
}

fn two_spheres() -> HitableList {
    let grey = Material::Lambertian { attenuation: Vec3::new(raw(500_000), raw(500_000), raw(500_000)) };
    HitableList::new(vec![
        Sphere::new(Vec3::from_ints(0, 0, -1), raw(500_000), grey),
        Sphere::new(Vec3::new(raw(0), raw(-100_500_000), raw(-1_000_000)), Scalar::from_int(100), grey),
    ])
}

#[test]
fn channels_are_cut_and_held_in_range() {
    assert_eq!(channel(raw(0)), 0);
    assert_eq!(channel(raw(1_000_000)), 255);
    assert_eq!(channel(raw(500_000)), 127);
    assert_eq!(channel(raw(999_999)), 254);
    assert_eq!(channel(raw(3_921)), 0);
    assert_eq!(channel(raw(3_922)), 1);
    assert_eq!(channel(raw(-1)), 0);
    assert_eq!(channel(raw(i64::MIN)), 0);
    assert_eq!(channel(raw(1_000_001)), 255);
    assert_eq!(channel(raw(i64::MAX)), 255);
}

#[test]
fn resolve_takes_mean_and_square_root() {
    let sum = Vec3::new(raw(1_000_000), raw(4_000_000), raw(0));
    assert_eq!(resolve(sum, 4), Pixel { r: 127, g: 255, b: 0 });
    let sum = Vec3::new(raw(81_000_000), raw(16_000_000), raw(1_000_000));
    assert_eq!(resolve(sum, 100), Pixel { r: 229, g: 102, b: 25 });
    assert_eq!(resolve(Vec3::from_ints(0, 0, 0), 0), Pixel { r: 0, g: 0, b: 0 });
    assert_eq!(resolve(Vec3::from_ints(9, 9, 9), 1), Pixel { r: 255, g: 255, b: 255 });
}

#[test]
fn image_coordinates() {
    assert_eq!(image_coordinate(3, raw(500_000), 7), raw(500_000));
    assert_eq!(image_coordinate(0, raw(0), 200), raw(0));
    assert_eq!(image_coordinate(199, raw(999_999), 200), raw(999_999));
    assert_eq!(image_coordinate(50, raw(0), 100), raw(500_000));
}

#[test]
fn pixel_without_samples_is_black() {
    let mut sampler = Sampler::new(31);
    let p = sample_pixel(&two_spheres(), &simple_camera(), (3, 4), (20, 10), 0, &mut sampler);
    assert_eq!(p, Ok(Pixel { r: 0, g: 0, b: 0 }));
}

#[test]
fn sky_pixel_lies_between_white_and_blue() {
    let world = HitableList::new(Vec::new());
    let mut sampler = Sampler::new(31);
    for _ in 0..20 {
        let p = sample_pixel(&world, &simple_camera(), (5, 9), (10, 10), 10, &mut sampler)
            .expect("no sampler");
        assert_eq!(p.b, 255);
        assert!(180 <= p.r && p.r < p.g && p.g < p.b, "pixel {:?}", p);
    }
}

#[test]
fn rows_come_from_the_top_down() {
    let world = HitableList::new(Vec::new());
    let upright = Camera::new(
        Vec3::from_ints(0, 0, 0),
        Vec3::from_ints(0, 0, -1),
        Vec3::from_ints(0, 1, 0),
        Scalar::from_int(1),
        raw(10_000),
        Scalar::zero(),
        Scalar::from_int(1),
    );
    let pixels = render(&world, &upright, 2, 6, 4, &mut Sampler::new(32)).expect("no sampler");
    assert_eq!(pixels.len(), 12);
    for row in 0..5 {
        for w in 0..2 {
            assert!(
                pixels[row * 2 + w].r < pixels[(row + 1) * 2 + w].r,
                "row {} is not bluer than the row below it",
                row
            );
        }
    }
}

#[test]
fn columns_go_from_left_to_right() {
    let red = Material::Metal { attenuation: Vec3::from_ints(1, 0, 0), fuzziness: Scalar::zero() };
    let world = HitableList::new(vec![Sphere::new(
        Vec3::new(raw(1_250_000), raw(0), raw(-1_000_000)),
        raw(450_000),
        red,
    )]);
    let slit = Camera::new(
        Vec3::from_ints(0, 0, 0),
        Vec3::from_ints(0, 0, -1),
        Vec3::from_ints(0, 1, 0),
        raw(100_000),
        Scalar::from_int(20),
        Scalar::zero(),
        Scalar::from_int(1),
    );
    let pixels = render(&world, &slit, 8, 1, 4, &mut Sampler::new(32)).expect("no sampler");
    assert_eq!(pixels.len(), 8);
    for w in 0..4 {
        assert!(pixels[w].g > 200 && pixels[w].b > 200, "column {}: {:?}", w, pixels[w]);
    }
    assert!(pixels[6].r > 150, "column 6: {:?}", pixels[6]);
    assert_eq!((pixels[6].g, pixels[6].b), (0, 0));
}

#[test]
fn empty_images() {
    assert_eq!(render(&two_spheres(), &simple_camera(), 0, 5, 3, &mut Sampler::new(32)), Ok(Vec::new()));
    assert_eq!(render(&two_spheres(), &simple_camera(), 5, 0, 3, &mut Sampler::new(32)), Ok(Vec::new()));
    let dark = render(&two_spheres(), &simple_camera(), 2, 2, 0, &mut Sampler::new(32))
        .expect("nothing is drawn");
    assert_eq!(dark, vec![Pixel { r: 0, g: 0, b: 0 }; 4]);
}

#[test]
fn decimal_digits() {
    let mut out = Vec::new();
    push_decimal(&mut out, 0);
    out.push(b',');
    push_decimal(&mut out, 7);
    out.push(b',');
    push_decimal(&mut out, 10);
    out.push(b',');
    push_decimal(&mut out, 255);
    out.push(b',');
    push_decimal(&mut out, 4_294_967_295);
    assert_eq!(out, b"0,7,10,255,4294967295".to_vec());
}

#[test]
fn pixel_lines() {
    let mut out = b"x".to_vec();
    push_pixel_line(&mut out, Pixel { r: 255, g: 0, b: 7 });
    assert_eq!(out, b"x255 0 7\n".to_vec());
}

#[test]
fn ppm_of_two_pixels() {
    let pixels = vec![Pixel { r: 255, g: 0, b: 7 }, Pixel { r: 10, g: 100, b: 42 }];
    assert_eq!(ppm(2, 1, &pixels), b"P3\n2 1\n255\n255 0 7\n10 100 42\n".to_vec());
    assert_eq!(ppm(0, 0, &Vec::new()), b"P3\n0 0\n255\n".to_vec());
}

#[test]
fn two_spheres_small_image() {
    let pixels = render(&two_spheres(), &simple_camera(), 20, 10, 10, &mut Sampler::new(32))
        .expect("samples are found");
    assert_eq!(pixels.len(), 200);
    let text = String::from_utf8(ppm(20, 10, &pixels)).expect("the text is ASCII");
    assert!(text.starts_with("P3\n20 10\n255\n"));
    let lines: Vec<&str> = text["P3\n20 10\n255\n".len()..].lines().collect();
    assert_eq!(lines.len(), 200);
    let top = pixels[10];
    let bottom = pixels[190];
    assert!(top.b > top.r, "the sky is blue: {:?}", top);
    assert!(bottom.b < top.b, "the ground is darker: {:?}", bottom);
}

#[test]
fn two_spheres_end_to_end() {
    let pixels = render(&two_spheres(), &simple_camera(), 200, 100, 100, &mut Sampler::new(32))
        .expect("samples are found");
    assert_eq!(pixels.len(), 20_000);
    let text = String::from_utf8(ppm(200, 100, &pixels)).expect("the text is ASCII");
    let header = "P3\n200 100\n255\n";
    assert!(text.starts_with(header));
    assert!(text.ends_with('\n'));
    let lines: Vec<&str> = text[header.len()..].lines().collect();
    assert_eq!(lines.len(), 20_000);
    for line in lines {
        let numbers: Vec<&str> = line.split_whitespace().collect();
        assert_eq!(numbers.len(), 3, "line {:?}", line);
        for n in numbers {
            let v: u32 = n.parse().expect("a whole number");
            assert!(v <= 255);
        }
    }
}

#[test]
fn one_seed_gives_one_image() {
    let first = render(&two_spheres(), &simple_camera(), 16, 8, 5, &mut Sampler::new(77));
    let again = render(&two_spheres(), &simple_camera(), 16, 8, 5, &mut Sampler::new(77));
    let other = render(&two_spheres(), &simple_camera(), 16, 8, 5, &mut Sampler::new(78));
    assert!(first.is_ok());
    assert_eq!(first, again);
    assert_ne!(first, other);
}
