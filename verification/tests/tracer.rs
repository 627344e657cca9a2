//! Tests of the fixed-point vector math, intersection logic and
//! materials.  One unit is `SCALE` (1_000_000) fixed-point steps.

use pathtracer::SCALE;
use pathtracer::interval::Interval;
use pathtracer::hittable::Sphere;
use pathtracer::hittable_list::HittableList;
use pathtracer::material::{Dielectric, Lambertian, Material, Metal, NullMaterial};
use pathtracer::ray::Ray;
use pathtracer::rng::Rng;
use pathtracer::vec3::Vec3;

fn unit_material() -> Material {
    Material::Lambertian(Lambertian::new(Vec3::new(500_000, 500_000, 500_000)))
}

#[test]
fn normalize_exact_pythagorean() {
    // (3, 4, 0) has length 5 exactly, so normalization is exact.
    let v = Vec3::new(3_000_000, 4_000_000, 0);
    assert_eq!(v.length(), 5_000_000);
    let u = v.normalized();
    assert_eq!(u, Vec3::new(600_000, 800_000, 0));
    assert_eq!(u.length(), SCALE);
}

#[test]
fn normalize_within_grid_tolerance() {
    // (1, 1, 1) has irrational length; the normalized length lands on
    // the unit within a few fixed-point steps.
    let v = Vec3::new(SCALE, SCALE, SCALE);
    let u = v.normalized();
    let len = u.length();
    assert!((len - SCALE).abs() <= 10, "length {} not within tolerance", len);
    let ls = u.length_squared();
    assert!((ls - SCALE).abs() <= 10, "squared length {} not within tolerance", ls);
}

#[test]
fn reflect_preserves_length() {
    let v = Vec3::new(SCALE, -SCALE, 0);
    let n = Vec3::new(0, SCALE, 0);
    let r = Vec3::reflect(&v, &n);
    assert_eq!(r, Vec3::new(SCALE, SCALE, 0));
    assert_eq!(r.length(), v.length());

    let v2 = Vec3::new(300_000, -700_000, 200_000);
    let r2 = Vec3::reflect(&v2, &n);
    assert_eq!(r2, Vec3::new(300_000, 700_000, 200_000));
    assert_eq!(r2.length(), v2.length());
}

#[test]
fn component_access() {
    let v = Vec3::new(10, 20, 30);
    assert_eq!(v.component(0), 10);
    assert_eq!(v.component(1), 20);
    assert_eq!(v.component(2), 30);
}

#[test]
fn dot_and_cross() {
    let a = Vec3::new(SCALE, 2 * SCALE, 3 * SCALE);
    let b = Vec3::new(4 * SCALE, -5 * SCALE, 6 * SCALE);
    assert_eq!(a.dot(b), (4 - 10 + 18) * SCALE);
    let c = a.cross(b);
    assert_eq!(c, Vec3::new(27 * SCALE, 6 * SCALE, -13 * SCALE));
}

#[test]
fn sphere_head_on_hit_distance() {
    // Origin two units from the center, radius one half: the hit is at
    // distance 1.5 with the outward normal pointing back at the origin.
    let sphere = Sphere::new(Vec3::new(0, 0, -2_000_000), 500_000, unit_material());
    let ray = Ray::new(Vec3::new(0, 0, 0), Vec3::new(0, 0, -SCALE));
    let hit = sphere.hit(&ray, Interval::new(1_000, i64::MAX)).expect("must hit");
    assert_eq!(hit.t, 1_500_000);
    assert_eq!(hit.p, Vec3::new(0, 0, -1_500_000));
    assert_eq!(hit.normal, Vec3::new(0, 0, SCALE));
    assert!(hit.front_face);
}

#[test]
fn sphere_miss_returns_none() {
    // A parallel ray two units above the center misses outright.
    let sphere = Sphere::new(Vec3::new(0, 0, -2_000_000), 500_000, unit_material());
    let ray = Ray::new(Vec3::new(0, 2_000_000, 0), Vec3::new(0, 0, -SCALE));
    assert!(sphere.hit(&ray, Interval::new(1_000, i64::MAX)).is_none());
}

#[test]
fn aggregate_returns_nearest_hit() {
    // Two overlapping spheres along the ray: the nearer hit wins in
    // either insertion order.
    let far = Sphere::new(Vec3::new(0, 0, -3_000_000), SCALE, unit_material());
    let near = Sphere::new(Vec3::new(0, 0, -2_000_000), SCALE, unit_material());
    let ray = Ray::new(Vec3::new(0, 0, 0), Vec3::new(0, 0, -SCALE));

    let mut world = HittableList::new();
    world.add(far);
    world.add(near);
    let hit = world.hit(&ray, Interval::new(1_000, i64::MAX)).expect("must hit");
    assert_eq!(hit.t, 1_000_000);

    let mut world2 = HittableList::new();
    world2.add(near);
    world2.add(far);
    let hit2 = world2.hit(&ray, Interval::new(1_000, i64::MAX)).expect("must hit");
    assert_eq!(hit2.t, 1_000_000);
}

#[test]
fn scatter_directions_are_nonzero() {
    let sphere = Sphere::new(Vec3::new(0, 0, -2_000_000), 500_000, unit_material());
    let ray = Ray::new(Vec3::new(0, 0, 0), Vec3::new(0, 0, -SCALE));
    let rec = sphere.hit(&ray, Interval::new(1_000, i64::MAX)).expect("must hit");
    let zero = Vec3::new(0, 0, 0);

    let mut rng = Rng::seeded(7);
    let lambertian = Lambertian::new(Vec3::new(700_000, 600_000, 500_000));
    for _ in 0..50 {
        let (scattered, attenuation) = lambertian.scatter(&ray, &rec, &mut rng).expect("always");
        assert_ne!(scattered.dir, zero);
        assert_eq!(attenuation, Vec3::new(700_000, 600_000, 500_000));
    }

    let metal = Metal::new(Vec3::new(800_000, 600_000, 200_000), 300_000);
    for _ in 0..50 {
        if let Some((scattered, _)) = metal.scatter(&ray, &rec, &mut rng) {
            assert_ne!(scattered.dir, zero);
            assert!(scattered.dir.dot(rec.normal) > 0);
        }
    }

    let glass = Dielectric::new(1_500_000);
    for _ in 0..50 {
        let (scattered, attenuation) = glass.scatter(&ray, &rec, &mut rng).expect("always");
        assert_ne!(scattered.dir, zero);
        assert_eq!(attenuation, Vec3::new(SCALE, SCALE, SCALE));
    }
}

#[test]
fn null_material_absorbs() {
    let sphere = Sphere::new(Vec3::new(0, 0, -2_000_000), 500_000, Material::Null(NullMaterial));
    let ray = Ray::new(Vec3::new(0, 0, 0), Vec3::new(0, 0, -SCALE));
    let rec = sphere.hit(&ray, Interval::new(1_000, i64::MAX)).expect("must hit");
    let mut rng = Rng::seeded(7);
    assert!(rec.mat.scatter(&ray, &rec, &mut rng).is_none());
}

#[test]
fn metal_fuzz_is_clamped() {
    let m = Metal::new(Vec3::new(SCALE, SCALE, SCALE), 5 * SCALE);
    assert_eq!(m.fuzz, SCALE);
    let m2 = Metal::new(Vec3::new(SCALE, SCALE, SCALE), -3);
    assert_eq!(m2.fuzz, 0);
}

#[test]
fn schlick_reflectance_endpoints() {
    // Glass at 1.5: r0 = ((1 - 1.5) / (1 + 1.5))^2 = 0.04.
    assert_eq!(Dielectric::reflanctance(SCALE, 1_500_000), 40_000);
    // Grazing incidence reflects everything.
    assert_eq!(Dielectric::reflanctance(0, 1_500_000), SCALE);
}

#[test]
fn interval_operations() {
    let iv = Interval::new(-SCALE, SCALE);
    assert_eq!(iv.size(), 2 * SCALE);
    assert!(iv.contains(SCALE));
    assert!(iv.contains(-SCALE));
    assert!(!iv.surrounds(SCALE));
    assert!(iv.surrounds(0));
    assert_eq!(iv.clamp(3 * SCALE), SCALE);
    assert_eq!(iv.clamp(-3 * SCALE), -SCALE);
    assert_eq!(iv.clamp(123), 123);
    let empty = Interval::empty();
    assert!(!empty.contains(0));
}

#[test]
fn rng_is_deterministic_and_in_range() {
    let mut a = Rng::seeded(42);
    let mut b = Rng::seeded(42);
    for _ in 0..100 {
        let x = a.next_unit();
        let y = b.next_unit();
        assert_eq!(x, y);
        assert!((0..SCALE).contains(&x));
    }
    // A zero seed is replaced, so the generator never sticks at zero.
    let mut z = Rng::seeded(0);
    let v = z.next_unit();
    assert!((0..SCALE).contains(&v));
    assert_ne!(z.state, 0);
}

#[test]
fn random_interval_stays_in_bounds() {
    let mut rng = Rng::seeded(9);
    for _ in 0..100 {
        let v = Vec3::random_interval(&mut rng, -SCALE, SCALE);
        for c in [v.x, v.y, v.z] {
            assert!(-SCALE <= c && c < SCALE);
        }
    }
}

#[test]
fn unit_ball_samples_are_interior() {
    let mut rng = Rng::seeded(11);
    for _ in 0..100 {
        let p = Vec3::random_in_unit_sphere(&mut rng);
        assert!(p.length_squared() < SCALE);
        let d = Vec3::random_in_unit_disk(&mut rng);
        assert!(d.length_squared() < SCALE);
        assert_eq!(d.z, 0);
    }
}

#[test]
fn list_construction_and_clear() {
    let s = Sphere::new(Vec3::new(0, 0, -2_000_000), 500_000, unit_material());
    let mut world = HittableList::new_with(s);
    assert_eq!(world.objects.len(), 1);
    world.add(s);
    assert_eq!(world.objects.len(), 2);
    world.clear();
    assert_eq!(world.objects.len(), 0);
    let ray = Ray::new(Vec3::new(0, 0, 0), Vec3::new(0, 0, -SCALE));
    assert!(world.hit(&ray, Interval::new(1_000, i64::MAX)).is_none());
}

#[test]
fn unit_vector_and_hemisphere_samples() {
    let mut rng = Rng::seeded(23);
    let normal = Vec3::new(0, 0, SCALE);
    for _ in 0..50 {
        let u = Vec3::random_unit_vector(&mut rng);
        // A unit-ball point normalized: length one within grid rounding.
        assert!((u.length() - SCALE).abs() <= 20_000, "length {}", u.length());
        let h = Vec3::random_on_hemisphere(&mut rng, &normal);
        assert!(h.dot(normal) >= 0);
        let c = Vec3::random(&mut rng);
        for comp in [c.x, c.y, c.z] {
            assert!((0..SCALE).contains(&comp));
        }
    }
}

#[test]
fn refract_straight_through() {
    // Index ratio one: the direction passes unchanged up to grid
    // rounding; head-on it is exact.
    let uv = Vec3::new(0, 0, -SCALE);
    let n = Vec3::new(0, 0, SCALE);
    let r = Vec3::refract(&uv, &n, SCALE);
    assert_eq!(r, Vec3::new(0, 0, -SCALE));
}
