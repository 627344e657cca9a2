//! Tests of gamma correction, the pixel line encoding, the radiance
//! estimator and the full render pipeline.

use pathtracer::SCALE;
use pathtracer::camera::Camera;
use pathtracer::color::{linear_to_gamma, write_color};
use pathtracer::hittable::Sphere;
use pathtracer::hittable_list::HittableList;
use pathtracer::material::{Lambertian, Material};
use pathtracer::ray::Ray;
use pathtracer::rng::Rng;
use pathtracer::rtweekend::{cos_fx, degrees_to_radians, sin_fx, tan_fx};
use pathtracer::vec3::Vec3;

fn test_camera() -> Camera {
    Camera::new(
        1_333_333,             // aspect ratio 4:3
        4,                     // image width in pixels
        1,                     // samples per pixel
        5,                     // max depth
        90_000_000,            // vertical field of view in degrees
        Vec3::new(0, 0, 0),    // look from
        Vec3::new(0, 0, -SCALE), // look at
        Vec3::new(0, SCALE, 0), // up
        0,                     // defocus angle
        SCALE,                 // focus distance
    )
}

fn test_world() -> HittableList {
    let mut world = HittableList::new();
    world.add(Sphere::new(
        Vec3::new(0, 0, -SCALE),
        500_000,
        Material::Lambertian(Lambertian::new(Vec3::new(500_000, 500_000, 500_000))),
    ));
    world.add(Sphere::new(
        Vec3::new(0, -100_500_000, -SCALE),
        100_000_000,
        Material::Lambertian(Lambertian::new(Vec3::new(800_000, 800_000, 0))),
    ));
    world
}

#[test]
fn gamma_correction_anchor_values() {
    assert_eq!(linear_to_gamma(0), 0);
    assert_eq!(linear_to_gamma(SCALE), SCALE);
    assert_eq!(linear_to_gamma(250_000), 500_000);
    assert_eq!(linear_to_gamma(-123), 0);
}

#[test]
fn pixel_line_bytes() {
    let mut out: Vec<u8> = Vec::new();
    // Components 1.0, 0.0 and 0.25: gamma gives 1.0, 0.0, 0.5; the
    // clamp caps 1.0 at 0.999, so the bytes are 255, 0 and 127.
    write_color(&mut out, Vec3::new(SCALE, 0, 250_000));
    assert_eq!(out, b"255 0 127\n".to_vec());
}

#[test]
fn radiance_at_depth_zero_is_black() {
    let cam = test_camera();
    let world = test_world();
    let mut rng = Rng::seeded(1);
    let ray = Ray::new(Vec3::new(0, 0, 0), Vec3::new(0, 0, -SCALE));
    let c = cam.ray_color(&ray, 0, &world, &mut rng);
    assert_eq!(c, Vec3::new(0, 0, 0));
}

#[test]
fn sky_gradient_poles() {
    let cam = test_camera();
    let empty = HittableList::new();
    let mut rng = Rng::seeded(1);
    let up = Ray::new(Vec3::new(0, 0, 0), Vec3::new(0, SCALE, 0));
    assert_eq!(
        cam.ray_color(&up, 5, &empty, &mut rng),
        Vec3::new(500_000, 700_000, SCALE)
    );
    let down = Ray::new(Vec3::new(0, 0, 0), Vec3::new(0, -SCALE, 0));
    assert_eq!(
        cam.ray_color(&down, 5, &empty, &mut rng),
        Vec3::new(SCALE, SCALE, SCALE)
    );
}

#[test]
fn degrees_to_radians_half_turn() {
    // 180 degrees is pi, exactly the fixed-point pi constant.
    assert_eq!(pathtracer::degrees_to_radians(180_000_000), 3_141_593);
    assert_eq!(pathtracer::degrees_to_radians(0), 0);
}

#[test]
fn trig_series_values() {
    assert_eq!(sin_fx(0), 0);
    assert_eq!(cos_fx(0), SCALE);
    assert_eq!(tan_fx(0), 0);
    // At 45 degrees sine and cosine agree and the tangent is one.
    let eighth_turn = degrees_to_radians(45_000_000);
    assert_eq!(eighth_turn, 785_398);
    assert_eq!(sin_fx(eighth_turn), 707_107);
    assert_eq!(cos_fx(eighth_turn), 707_107);
    assert_eq!(tan_fx(eighth_turn), SCALE);
}

#[test]
fn camera_reinitialize_is_stable() {
    let mut cam = test_camera();
    let reference = test_camera();
    cam.initialize();
    assert_eq!(cam.image_height, reference.image_height);
    assert_eq!(cam.pixel00_loc, reference.pixel00_loc);
    assert_eq!(cam.pixel_delta_u, reference.pixel_delta_u);
    assert_eq!(cam.pixel_delta_v, reference.pixel_delta_v);
    assert_eq!(cam.defocus_disk_u, reference.defocus_disk_u);
}

#[test]
fn camera_geometry_is_derived() {
    let cam = test_camera();
    assert_eq!(cam.image_height, 3);
    assert_eq!(cam.center, Vec3::new(0, 0, 0));
    // w points from the scene toward the camera.
    assert_eq!(cam.w, Vec3::new(0, 0, SCALE));
    // Pixel deltas step right and down.
    assert!(cam.pixel_delta_u.x > 0);
    assert!(cam.pixel_delta_v.y < 0);
    // One sample per pixel averages with scale one.
    assert_eq!(cam.pixel_sample_scale, SCALE);
}

#[test]
fn render_is_deterministic_and_well_formed() {
    let cam = test_camera();
    let world = test_world();
    let first = cam.render(&world, 42);
    let second = cam.render(&world, 42);
    assert_eq!(first, second);

    // The first line is the two-byte magic token of the plain ASCII
    // RGB raster format.
    assert_eq!(&first[..3], &[80u8, 51, 10]);
    let text = String::from_utf8(first.clone()).expect("ascii output");
    let mut lines = text.lines().skip(1);
    assert_eq!(lines.next(), Some("4 3"));
    assert_eq!(lines.next(), Some("255"));
    let mut pixel_lines = 0;
    for line in lines {
        let parts: Vec<&str> = line.split(' ').collect();
        assert_eq!(parts.len(), 3, "bad pixel line {:?}", line);
        for p in parts {
            let v: i64 = p.parse().expect("integer channel");
            assert!((0..=255).contains(&v));
        }
        pixel_lines += 1;
    }
    assert_eq!(pixel_lines, 12);
    assert!(first.ends_with(b"\n"));
}

#[test]
fn render_differs_across_seeds() {
    // With several samples per pixel the jitter depends on the seed, so
    // two seeds give two streams; each is still reproducible.
    let cam = Camera::new(
        1_333_333,
        4,
        8,
        5,
        90_000_000,
        Vec3::new(0, 0, 0),
        Vec3::new(0, 0, -SCALE),
        Vec3::new(0, SCALE, 0),
        0,
        SCALE,
    );
    let world = test_world();
    let a = cam.render(&world, 1);
    let b = cam.render(&world, 2);
    let a2 = cam.render(&world, 1);
    assert_eq!(a, a2);
    assert_ne!(a, b);
}

#[test]
fn primary_ray_through_pixel_grid() {
    let cam = test_camera();
    let mut rng = Rng::seeded(3);
    // One sample per pixel and no defocus: the ray is the exact pixel
    // center ray from the camera center.
    let r = cam.get_ray(0, 0, &mut rng);
    assert_eq!(r.orig, Vec3::new(0, 0, 0));
    let r2 = cam.get_ray(3, 2, &mut rng);
    assert_eq!(r2.orig, Vec3::new(0, 0, 0));
    // Moving right along i increases x; moving down along j decreases y.
    assert!(r2.dir.x > r.dir.x);
    assert!(r2.dir.y < r.dir.y);
}
